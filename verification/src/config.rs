use vstd::prelude::*;

verus! {

/// The worker concurrency used when no flag asks for another.
pub const DEFAULT_WORKERS: u32 = 5;

/// The values a parsed command-line argument can carry: a list of integers
/// or a list of plain strings.
#[derive(Debug)]
pub enum Type {
    Int(Vec<u32>),
    String(Vec<String>),
}

/// A configuration fault found while resolving the worker-count flag.
#[derive(Clone, Copy, Debug, PartialEq, Eq, Structural)]
pub enum ConfigError {
    /// The flag was given without a value.
    MissingValue,
    /// The flag's value is not an integer.
    NotAnInteger,
    /// Zero workers could never finish a batch, so the sweep refuses it.
    ZeroWorkers,
}

/// Resolves the worker-count flag: absent means the default, an integer
/// value of at least one is taken as given, and anything else is a
/// configuration error.
pub fn worker_count(arg: Option<&Type>) -> (r: Result<u32, ConfigError>)
    ensures
        arg is None ==> r == Ok::<u32, ConfigError>(DEFAULT_WORKERS),
        arg matches Some(t) ==> match *t {
            Type::Int(ref v) => {
                &&& v@.len() == 0 ==> r == Err::<u32, ConfigError>(ConfigError::MissingValue)
                &&& v@.len() > 0 && v@[0] == 0
                    ==> r == Err::<u32, ConfigError>(ConfigError::ZeroWorkers)
                &&& v@.len() > 0 && v@[0] > 0 ==> r == Ok::<u32, ConfigError>(v@[0])
            },
            Type::String(_) => r == Err::<u32, ConfigError>(ConfigError::NotAnInteger),
        },
{
    match arg {
        None => Ok(DEFAULT_WORKERS),
        Some(Type::Int(v)) => {
            if v.len() == 0 {
                Err(ConfigError::MissingValue)
            } else {
                let n = v[0];
                if n == 0 {
                    Err(ConfigError::ZeroWorkers)
                } else {
                    Ok(n)
                }
            }
        },
        Some(Type::String(_)) => Err(ConfigError::NotAnInteger),
    }
}

} // verus!
