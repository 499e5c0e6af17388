use ipsweep::config::{ConfigError, Type, worker_count, DEFAULT_WORKERS};
use ipsweep::probe::{ProbeOutcome, ProbeStatus};

#[test]
fn absent_flag_means_five_workers() {
    assert_eq!(worker_count(None), Ok(5));
    assert_eq!(DEFAULT_WORKERS, 5);
}

#[test]
fn integer_flag_value_is_taken_as_given() {
    let t = Type::Int(vec![3]);
    assert_eq!(worker_count(Some(&t)), Ok(3));
    let t = Type::Int(vec![12, 99]);
    assert_eq!(worker_count(Some(&t)), Ok(12));
}

#[test]
fn flag_without_value_is_a_configuration_error() {
    let t = Type::Int(vec![]);
    assert_eq!(worker_count(Some(&t)), Err(ConfigError::MissingValue));
}

#[test]
fn zero_workers_is_a_configuration_error() {
    let t = Type::Int(vec![0]);
    assert_eq!(worker_count(Some(&t)), Err(ConfigError::ZeroWorkers));
}

#[test]
fn non_integer_flag_value_is_a_configuration_error() {
    let t = Type::String(vec![String::from("many")]);
    assert_eq!(worker_count(Some(&t)), Err(ConfigError::NotAnInteger));
}

#[test]
fn probe_status_folds_to_reachable_only_when_up() {
    assert_eq!(
        ProbeOutcome::from_status(1, ProbeStatus::Up),
        ProbeOutcome { address: 1, reachable: true }
    );
    assert_eq!(
        ProbeOutcome::from_status(2, ProbeStatus::Down),
        ProbeOutcome { address: 2, reachable: false }
    );
    // A probe fault degrades to unreachable rather than failing anything.
    assert_eq!(
        ProbeOutcome::from_status(3, ProbeStatus::ProbeError),
        ProbeOutcome { address: 3, reachable: false }
    );
}
