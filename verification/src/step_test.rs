//! Settings of the single-frame step test tool.
use vstd::prelude::*;

use crate::text;

verus! {

/// Pulses sent when no count is given.
pub const DEFAULT_PULSES: u32 = 500;
/// The largest pulse count accepted.
pub const MAX_PULSES: u32 = 500;

/// The message for a count outside `1..=MAX_PULSES`.
pub open spec fn out_of_range_text(pulses: u32) -> Seq<char> {
    "次数必须在 1..="@ + text::decimal(MAX_PULSES as int) + " 之间，实际 "@ + text::decimal(
        pulses as int,
    )
}

/// The pulse count of the command line: the default without an argument; otherwise a
/// `u32` in `1..=MAX_PULSES`, or the reason it is not.
pub fn parse_pulses(raw: Option<&str>) -> (r: Result<u32, String>)
    ensures
        match raw {
            None => r == Ok::<u32, String>(DEFAULT_PULSES),
            Some(t) => match text::u32_from_text(t@) {
                None => r matches Err(m) && m@ == "次数不是正整数："@ + t@,
                Some(p) => if 1 <= p <= MAX_PULSES {
                    r == Ok::<u32, String>(p)
                } else {
                    r matches Err(m) && m@ == out_of_range_text(p)
                },
            },
        },
{
    let pulses = match raw {
        Some(t) => match text::parse_u32(t) {
            Some(p) => p,
            None => {
                let mut m = String::from_str("次数不是正整数：");
                m.append(t);
                return Err(m);
            },
        },
        None => DEFAULT_PULSES,
    };
    if pulses < 1 || pulses > MAX_PULSES {
        let mut m = String::from_str("次数必须在 1..=");
        text::push_decimal_u64(&mut m, MAX_PULSES as u64);
        m.append(" 之间，实际 ");
        text::push_decimal_u64(&mut m, pulses as u64);
        return Err(m);
    }
    Ok(pulses)
}

} // verus!
