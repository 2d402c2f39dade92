//! The block timestamp: the wall clock rendered as `seconds.microseconds`
//! decimal text.

use vstd::prelude::*;
use vstd::string::StringExecFns;
use crate::text::dec_of;
use crate::text::u64_to_string;

verus! {

/// The timestamp text for a clock reading of `secs` whole seconds and
/// `micros` sub-second microseconds. The microsecond part is written
/// without zero padding.
pub open spec fn timestamp_chars(secs: nat, micros: nat) -> Seq<char> {
    dec_of(secs) + "."@ + dec_of(micros)
}

/// Text that some clock reading could produce.
pub open spec fn timestamp_shape(t: Seq<char>) -> bool {
    exists|s: nat, m: nat| m < 1000000 && t == timestamp_chars(s, m)
}

/// Relies on std::time::SystemTime::now and
/// SystemTime::duration_since(UNIX_EPOCH): the elapsed time since the
/// epoch, whose subsec_micros part is documented to lie below one million.
/// A clock before the epoch reads as zero.
#[verifier::external_body]
fn now_parts() -> (r: (u64, u32))
    ensures
        r.1 < 1000000,
{
    let d = std::time::SystemTime::now()
        .duration_since(std::time::UNIX_EPOCH)
        .unwrap_or(std::time::Duration::ZERO);
    (d.as_secs(), d.subsec_micros())
}

/// Read the clock and render it as `seconds.microseconds` decimal text.
pub fn timestamp() -> (r: String)
    ensures
        timestamp_shape(r@),
{
    let (secs, micros) = now_parts();
    let mut s = u64_to_string(secs);
    s.append(".");
    let micros_text = u64_to_string(micros as u64);
    s.append(micros_text.as_str());
    proof {
        assert(s@ =~= timestamp_chars(secs as nat, micros as nat));
    }
    s
}

} // verus!
