//! Measuring the delay between failed password attempts.
//!
//! A timing script run inside the environment prints one millisecond
//! timestamp line before and one after the retried attempt. The
//! measurement is their difference — never an absolute value — and is
//! judged against a tolerance floor rather than exact equality, to absorb
//! scheduler jitter.

use crate::bytes::all_digits;
use crate::bytes::dec_value;
use crate::bytes::lines_of;
use crate::bytes::parse_u64;
use crate::bytes::spec_lines;
use vstd::prelude::*;

verus! {

/// The line parses as a decimal `u64` timestamp.
pub open spec fn spec_is_timestamp(l: Seq<u8>) -> bool {
    l.len() > 0 && all_digits(l) && dec_value(l) <= u64::MAX
}

/// The timestamps among the given lines, in order; lines that are not
/// timestamps (a prompt, an empty line) are passed over.
pub open spec fn spec_timestamps(ls: Seq<Seq<u8>>) -> Seq<u64>
    decreases ls.len(),
{
    if ls.len() == 0 {
        Seq::empty()
    } else {
        let rest = spec_timestamps(ls.drop_last());
        if spec_is_timestamp(ls.last()) {
            rest.push(dec_value(ls.last()) as u64)
        } else {
            rest
        }
    }
}

/// The measured retry delay: the captured standard output must hold
/// exactly two timestamp lines, the second no earlier than the first, and
/// the measurement is their difference in milliseconds.
pub fn retry_delay_millis(stdout: &[u8]) -> (r: Option<u64>)
    ensures
        ({
            let st = spec_timestamps(spec_lines(stdout@));
            match r {
                Some(d) => st.len() == 2 && st[0] <= st[1] && d == st[1] - st[0],
                None => !(st.len() == 2 && st[0] <= st[1]),
            }
        }),
{
    let lines = lines_of(stdout);
    let ghost all = spec_lines(stdout@);
    let mut stamps: Vec<u64> = Vec::new();
    let mut i: usize = 0;
    proof {
        assert(spec_timestamps(all.subrange(0, 0)) =~= stamps@);
    }
    while i < lines.len()
        invariant
            i <= lines@.len(),
            lines.deep_view() == all,
            stamps@ == spec_timestamps(all.subrange(0, i as int)),
        decreases lines@.len() - i,
    {
        proof {
            assert(lines@[i as int].deep_view() =~= lines@[i as int]@);
            assert(all.subrange(0, i + 1).drop_last() =~= all.subrange(0, i as int));
            assert(all.subrange(0, i + 1).last() == lines@[i as int]@);
        }
        if let Some(v) = parse_u64(lines[i].as_slice()) {
            stamps.push(v);
        }
        i = i + 1;
    }
    proof {
        assert(all.subrange(0, lines@.len() as int) =~= all);
    }
    if stamps.len() == 2 {
        let first = stamps[0];
        let second = stamps[1];
        if first <= second {
            return Some(second - first);
        }
        return None;
    }
    None
}

/// Judge a measured delay against a tolerance floor.
pub fn meets_minimum_delay(delta_millis: u64, minimum_millis: u64) -> (r: bool)
    ensures
        r == (delta_millis >= minimum_millis),
{
    delta_millis >= minimum_millis
}

/// A delay that clears a high tolerance floor clears every lower one: a
/// stricter configuration can only be judged against a laxer floor as at
/// least as slow.
pub proof fn lemma_tolerance_monotonic(delta_millis: u64, lower: u64, higher: u64)
    requires
        lower <= higher,
        delta_millis >= higher,
    ensures
        delta_millis >= lower,
{
}

/// Judge a re-measurement under an increased configured delay: it must
/// clear its own floor and be strictly larger than the measurement under
/// the original configuration.
pub fn delay_increased(initial_millis: u64, newer_millis: u64, floor_millis: u64) -> (r: bool)
    ensures
        r == (newer_millis >= floor_millis && newer_millis > initial_millis),
{
    newer_millis >= floor_millis && newer_millis > initial_millis
}

} // verus!
