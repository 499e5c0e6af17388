use vstd::prelude::*;

verus! {

/// A closed interval of the 32-bit IPv4 address space, inclusive at both ends.
#[derive(Clone, Copy, Debug, PartialEq, Eq, Structural)]
pub struct AddressRange {
    pub start: u32,
    pub end: u32,
}

impl AddressRange {
    /// A range is well formed when its bounds are ordered.
    pub open spec fn wf(self) -> bool {
        self.start <= self.end
    }

    /// Whether an address lies inside this range.
    pub open spec fn spec_contains(self, addr: u32) -> bool {
        self.start <= addr && addr <= self.end
    }

    /// Tests whether `addr` lies inside this range.
    pub fn contains(&self, addr: u32) -> (r: bool)
        ensures
            r == self.spec_contains(addr),
    {
        self.start <= addr && addr <= self.end
    }
}

/// Whether some range of the table contains the address.
pub open spec fn covered(addr: u32, ranges: Seq<AddressRange>) -> bool {
    exists|i: int| 0 <= i < ranges.len() && ranges[i].spec_contains(addr)
}

/// The table is ordered and its ranges are pairwise disjoint: each range is
/// well formed and ends strictly before the next one starts.
pub open spec fn sorted_disjoint(ranges: Seq<AddressRange>) -> bool {
    (forall|i: int| 0 <= i < ranges.len() ==> ranges[i].wf())
    && (forall|i: int| 0 <= i && i + 1 < ranges.len() ==> ranges[i].end < ranges[i + 1].start)
}

/// First-match planning, scanning the table from position `i` on: the result
/// of one planning step for `addr`, as a value in `[0, 2^32]`.
pub open spec fn plan_target_from(addr: u32, ranges: Seq<AddressRange>, i: int) -> u64
    decreases ranges.len() - i,
{
    if i < 0 || i >= ranges.len() {
        addr as u64
    } else if ranges[i].spec_contains(addr) {
        (ranges[i].end + 1) as u64
    } else {
        plan_target_from(addr, ranges, i + 1)
    }
}

/// One planning step: the first range of the table that contains `addr`
/// decides, and the step jumps to the address just past its end; when no
/// range contains `addr`, the step returns `addr` itself.
pub open spec fn plan_target(addr: u32, ranges: Seq<AddressRange>) -> u64 {
    plan_target_from(addr, ranges, 0)
}

proof fn lemma_plan_target_from(addr: u32, ranges: Seq<AddressRange>, i: int)
    requires
        0 <= i <= ranges.len(),
    ensures
        plan_target_from(addr, ranges, i) <= 0x1_0000_0000u64,
        (forall|j: int| i <= j < ranges.len() ==> !ranges[j].spec_contains(addr))
            ==> plan_target_from(addr, ranges, i) == addr as u64,
        (exists|j: int| i <= j < ranges.len() && ranges[j].spec_contains(addr))
            ==> plan_target_from(addr, ranges, i) > addr as u64,
        forall|b: u32| addr <= b && (b as u64) < plan_target_from(addr, ranges, i)
            ==> covered(b, ranges),
    decreases ranges.len() - i,
{
    if i < ranges.len() {
        if ranges[i].spec_contains(addr) {
            assert forall|b: u32| addr <= b && (b as u64) < plan_target_from(addr, ranges, i)
                implies covered(b, ranges) by {
                assert(ranges[i].spec_contains(b));
            }
        } else {
            lemma_plan_target_from(addr, ranges, i + 1);
        }
    }
}

/// Law: an address that no reserved range contains is handed back unchanged
/// by one planning step.
pub proof fn lemma_target_outside(addr: u32, ranges: Seq<AddressRange>)
    requires
        forall|i: int| 0 <= i < ranges.len() ==> !ranges[i].spec_contains(addr),
    ensures
        plan_target(addr, ranges) == addr as u64,
{
    lemma_plan_target_from(addr, ranges, 0);
}

/// Everything the planner may skip in one step is reserved, and a step never
/// moves backwards; it stands still exactly on the unreserved addresses.
pub proof fn lemma_target_skips_only_reserved(addr: u32, ranges: Seq<AddressRange>)
    ensures
        addr as u64 <= plan_target(addr, ranges) <= 0x1_0000_0000u64,
        covered(addr, ranges) ==> plan_target(addr, ranges) > addr as u64,
        !covered(addr, ranges) ==> plan_target(addr, ranges) == addr as u64,
        forall|b: u32| addr <= b && (b as u64) < plan_target(addr, ranges)
            ==> covered(b, ranges),
{
    lemma_plan_target_from(addr, ranges, 0);
}

proof fn lemma_sorted_ordered(ranges: Seq<AddressRange>, i: int, j: int)
    requires
        sorted_disjoint(ranges),
        0 <= i < j < ranges.len(),
    ensures
        ranges[i].end < ranges[j].start,
    decreases j - i,
{
    if i + 1 < j {
        lemma_sorted_ordered(ranges, i + 1, j);
    }
}

/// Law: in an ordered, disjoint table, an address inside the reserved range
/// `[s, e]` is planned to exactly `e + 1`, which lies outside `[s, e]`.
pub proof fn lemma_target_inside(addr: u32, ranges: Seq<AddressRange>, i: int)
    requires
        sorted_disjoint(ranges),
        0 <= i < ranges.len(),
        ranges[i].spec_contains(addr),
    ensures
        plan_target(addr, ranges) == ranges[i].end as u64 + 1,
        !(ranges[i].start as u64 <= plan_target(addr, ranges) <= ranges[i].end as u64),
{
    assert forall|j: int| 0 <= j < i implies !ranges[j].spec_contains(addr) by {
        lemma_sorted_ordered(ranges, j, i);
    }
    lemma_target_first_match(addr, ranges, i, 0);
}

proof fn lemma_target_first_match(addr: u32, ranges: Seq<AddressRange>, i: int, k: int)
    requires
        0 <= k <= i < ranges.len(),
        ranges[i].spec_contains(addr),
        forall|j: int| k <= j < i ==> !ranges[j].spec_contains(addr),
    ensures
        plan_target_from(addr, ranges, k) == ranges[i].end as u64 + 1,
    decreases i - k,
{
    if k < i {
        lemma_target_first_match(addr, ranges, i, k + 1);
    }
}

/// One planning step over the reserved table: the first range that contains
/// `cursor` decides, and the result jumps just past its end; otherwise the
/// cursor itself comes back. The result is a value in `[0, 2^32]`.
pub fn next_target(cursor: u32, reserved: &Vec<AddressRange>) -> (r: u64)
    ensures
        r == plan_target(cursor, reserved@),
{
    let n = reserved.len();
    for i in 0..n
        invariant
            n == reserved@.len(),
            plan_target(cursor, reserved@) == plan_target_from(cursor, reserved@, i as int),
    {
        let range = reserved[i];
        if range.start <= cursor && cursor <= range.end {
            return range.end as u64 + 1;
        }
    }
    cursor as u64
}

/// The lowest unreserved address at or above `cursor`, found by applying
/// planning steps until one stands still. The argument and the result are
/// values in `[0, 2^32]`; the value `2^32` means the space is exhausted.
pub fn next_free(cursor: u64, reserved: &Vec<AddressRange>) -> (r: u64)
    requires
        cursor <= 0x1_0000_0000u64,
    ensures
        cursor <= r <= 0x1_0000_0000u64,
        forall|b: u32| cursor <= b as u64 && (b as u64) < r ==> covered(b, reserved@),
        r < 0x1_0000_0000u64 ==> !covered(r as u32, reserved@),
{
    let mut t: u64 = cursor;
    loop
        invariant
            cursor <= t <= 0x1_0000_0000u64,
            forall|b: u32| cursor <= b as u64 && (b as u64) < t ==> covered(b, reserved@),
        decreases 0x1_0000_0000u64 - t,
    {
        if t == 0x1_0000_0000u64 {
            return t;
        }
        let step = next_target(t as u32, reserved);
        proof {
            lemma_target_skips_only_reserved(t as u32, reserved@);
        }
        if step == t {
            return t;
        }
        t = step;
    }
}

/// The administratively reserved blocks of the IPv4 space: private-use,
/// loopback, link-local, documentation, multicast, future-use and broadcast
/// space, as closed intervals of 32-bit addresses, ordered and disjoint.
pub fn reserved_ranges() -> (r: Vec<AddressRange>)
    ensures
        r@.len() == 16,
        sorted_disjoint(r@),
        r@[0] == (AddressRange { start: 0, end: 16777215 }),
        r@[1] == (AddressRange { start: 167772160, end: 184549375 }),
        r@[2] == (AddressRange { start: 1681915904, end: 1686110207 }),
        r@[3] == (AddressRange { start: 2130706432, end: 2147483647 }),
        r@[4] == (AddressRange { start: 2851995648, end: 2852061183 }),
        r@[5] == (AddressRange { start: 2886729728, end: 2887778303 }),
        r@[6] == (AddressRange { start: 3221225472, end: 3221225727 }),
        r@[7] == (AddressRange { start: 3221225984, end: 3221226239 }),
        r@[8] == (AddressRange { start: 3227017984, end: 3227018239 }),
        r@[9] == (AddressRange { start: 3232235520, end: 3232301055 }),
        r@[10] == (AddressRange { start: 3323068416, end: 3323199487 }),
        r@[11] == (AddressRange { start: 3325256704, end: 3325256959 }),
        r@[12] == (AddressRange { start: 3405803776, end: 3405804031 }),
        r@[13] == (AddressRange { start: 3758096384, end: 4026531839 }),
        r@[14] == (AddressRange { start: 4026531840, end: 4294967294 }),
        r@[15] == (AddressRange { start: 4294967295, end: 4294967295 }),
{
    let mut r: Vec<AddressRange> = Vec::new();
    r.push(AddressRange { start: 0, end: 16777215 });
    r.push(AddressRange { start: 167772160, end: 184549375 });
    r.push(AddressRange { start: 1681915904, end: 1686110207 });
    r.push(AddressRange { start: 2130706432, end: 2147483647 });
    r.push(AddressRange { start: 2851995648, end: 2852061183 });
    r.push(AddressRange { start: 2886729728, end: 2887778303 });
    r.push(AddressRange { start: 3221225472, end: 3221225727 });
    r.push(AddressRange { start: 3221225984, end: 3221226239 });
    r.push(AddressRange { start: 3227017984, end: 3227018239 });
    r.push(AddressRange { start: 3232235520, end: 3232301055 });
    r.push(AddressRange { start: 3323068416, end: 3323199487 });
    r.push(AddressRange { start: 3325256704, end: 3325256959 });
    r.push(AddressRange { start: 3405803776, end: 3405804031 });
    r.push(AddressRange { start: 3758096384, end: 4026531839 });
    r.push(AddressRange { start: 4026531840, end: 4294967294 });
    r.push(AddressRange { start: 4294967295, end: 4294967295 });
    r
}

/// Tests whether a reserved table is ordered and pairwise disjoint, the shape
/// the planner's range-skipping law assumes.
pub fn is_sorted_disjoint(ranges: &Vec<AddressRange>) -> (r: bool)
    ensures
        r == sorted_disjoint(ranges@),
{
    let n = ranges.len();
    for i in 0..n
        invariant
            n == ranges@.len(),
            forall|j: int| 0 <= j < i ==> ranges@[j].wf(),
            forall|j: int| 0 <= j && j + 1 < i ==> ranges@[j].end < ranges@[j + 1].start,
    {
        if ranges[i].start > ranges[i].end {
            return false;
        }
        if i > 0 && ranges[i - 1].end >= ranges[i].start {
            return false;
        }
    }
    true
}

/// First-match lookup over a fixed block table, scanning from position `i`.
pub open spec fn first_block_from(blocks: Seq<(u32, u32)>, ip: u32, i: int) -> Option<(u32, u32)>
    decreases blocks.len() - i,
{
    if i < 0 || i >= blocks.len() {
        None
    } else if blocks[i].0 <= ip && ip <= blocks[i].1 {
        Some(blocks[i])
    } else {
        first_block_from(blocks, ip, i + 1)
    }
}

/// The first block of the table that contains `ip`, in table order.
pub open spec fn first_block(blocks: Seq<(u32, u32)>, ip: u32) -> Option<(u32, u32)> {
    first_block_from(blocks, ip, 0)
}

/// Scans a fixed table of reserved blocks, given as inclusive bound pairs.
pub struct IPChecker {}

impl IPChecker {
    /// A checker carries no state of its own.
    pub fn new() -> (r: IPChecker)
    {
        IPChecker {}
    }

    /// Returns the first block of the table that contains `ip`, and `None`
    /// when no block does.
    pub fn check_block(&self, blocks: [(u32, u32); 16], ip: &u32) -> (r: Option<(u32, u32)>)
        ensures
            r == first_block(blocks@, *ip),
    {
        for i in 0..16usize
            invariant
                first_block(blocks@, *ip) == first_block_from(blocks@, *ip, i as int),
        {
            let b = blocks[i];
            if b.0 <= *ip && *ip <= b.1 {
                return Some(b);
            }
        }
        None
    }
}

} // verus!
