//! The daemon's decisions about the SMC fan hardware: which fan envelopes
//! it trusts, and what a refused write reports.
use super::protocol::FanEnvelope;
use crate::text::{decimal, hex_code_text, hexadecimal, joined, owned, unsigned_text};
use vstd::prelude::*;

verus! {

/// The message when the SMC reports no fans.
pub open spec fn no_fans_message() -> Seq<char> {
    "no hardware fans are available"@
}

/// The message for a fan whose range cannot be trusted.
pub open spec fn invalid_range_message(id: nat) -> Seq<char> {
    "fan "@ + decimal(id) + " has an invalid hardware range"@
}

/// A range is trusted when its minimum is positive and below its maximum.
pub open spec fn range_valid(range: (i32, i32)) -> bool {
    range.0 > 0 && range.1 > range.0
}

/// The first untrusted range, if any.
pub open spec fn first_invalid(ranges: Seq<(i32, i32)>) -> Option<int>
    decreases ranges.len(),
{
    if ranges.len() == 0 {
        None
    } else {
        match first_invalid(ranges.drop_last()) {
            Some(k) => Some(k),
            None => if range_valid(ranges.last()) {
                None
            } else {
                Some(ranges.len() - 1)
            },
        }
    }
}

/// The envelope of each fan, numbered from zero.
pub open spec fn envelopes_of(ranges: Seq<(i32, i32)>) -> Seq<FanEnvelope> {
    Seq::new(
        ranges.len(),
        |i: int| FanEnvelope { id: i as usize, min_rpm: ranges[i].0, max_rpm: ranges[i].1 },
    )
}

/// What reading the fan ranges reports: no fans when the count is not
/// positive, the first fan with an untrusted range, or every envelope.
pub open spec fn envelope_result(count: i32, ranges: Seq<(i32, i32)>) -> Result<Seq<FanEnvelope>, Seq<char>> {
    if count <= 0 {
        Err(no_fans_message())
    } else {
        match first_invalid(ranges) {
            Some(k) => Err(invalid_range_message(k as nat)),
            None => Ok(envelopes_of(ranges)),
        }
    }
}

/// Whether `ranges` is what reading the fans in order may return; reading
/// stops at the first untrusted range.
pub open spec fn ranges_read(read_range: impl Fn(i32) -> (i32, i32), count: i32, ranges: Seq<(i32, i32)>) -> bool {
    &&& forall|i: int| 0 <= i < ranges.len() ==> read_range.ensures((i as i32,), #[trigger] ranges[i])
    &&& count <= 0 ==> ranges.len() == 0
    &&& count > 0 ==> match first_invalid(ranges) {
        Some(k) => ranges.len() == k + 1,
        None => ranges.len() == count,
    }
}

/// The fan envelopes, as whole RPM: `read_range` reads one fan's minimum
/// and maximum speed.
pub fn fan_envelopes(count: i32, read_range: impl Fn(i32) -> (i32, i32)) -> (r: Result<
    Vec<FanEnvelope>,
    String,
>)
    requires
        forall|id: i32| read_range.requires((id,)),
    ensures
        exists|ranges: Seq<(i32, i32)>|
            ranges_read(read_range, count, ranges) && match r {
                Ok(fans) => envelope_result(count, ranges) == Ok::<Seq<FanEnvelope>, Seq<char>>(
                    fans@,
                ),
                Err(e) => envelope_result(count, ranges) == Err::<Seq<FanEnvelope>, Seq<char>>(e@),
            },
{
    if count <= 0 {
        let r = Err(owned("no hardware fans are available"));
        assert(ranges_read(read_range, count, Seq::<(i32, i32)>::empty()));
        return r;
    }
    let mut fans: Vec<FanEnvelope> = Vec::new();
    let ghost mut ranges: Seq<(i32, i32)> = Seq::empty();
    let mut id: i32 = 0;
    while id < count
        invariant
            0 <= id <= count,
            forall|i: i32| read_range.requires((i,)),
            ranges.len() == id,
            first_invalid(ranges) is None,
            fans@ == envelopes_of(ranges),
            forall|i: int| 0 <= i < ranges.len() ==> read_range.ensures((i as i32,), #[trigger] ranges[i]),
        decreases count - id,
    {
        let range = read_range(id);
        let ghost prev = ranges;
        proof {
            ranges = prev.push(range);
            assert(ranges.drop_last() =~= prev);
        }
        let (min_rpm, max_rpm) = range;
        if min_rpm <= 0 || max_rpm <= min_rpm {
            let digits = unsigned_text(id as u64);
            let mut message = joined("fan ", digits.as_str());
            message.append(" has an invalid hardware range");
            proof {
                assert(first_invalid(ranges) == Some(id as int));
                assert(ranges_read(read_range, count, ranges));
            }
            return Err(message);
        }
        fans.push(FanEnvelope { id: id as usize, min_rpm, max_rpm });
        proof {
            assert(fans@ =~= envelopes_of(ranges));
        }
        id = id + 1;
    }
    proof {
        assert(ranges_read(read_range, count, ranges));
    }
    Ok(fans)
}

/// The message when the SMC refuses a target.
pub open spec fn rejected_target_message(fan_id: usize, code: i32) -> Seq<char> {
    "SMC rejected target for fan "@ + decimal(fan_id as nat) + ": 0x"@ + hexadecimal(
        code as u32 as nat,
    )
}

/// The message when the SMC cannot return a fan to System Auto.
pub open spec fn restore_refused_message(fan_id: usize, code: i32) -> Seq<char> {
    "SMC could not restore fan "@ + decimal(fan_id as nat) + ": 0x"@ + hexadecimal(
        code as u32 as nat,
    )
}

/// What the SMC's status code for a target write means.
pub fn target_outcome(fan_id: usize, code: i32) -> (r: Result<(), String>)
    ensures
        code == 0 <==> r is Ok,
        r matches Err(e) ==> e@ == rejected_target_message(fan_id, code),
{
    if code == 0 {
        return Ok(());
    }
    let id = unsigned_text(fan_id as u64);
    let hex = hex_code_text(code);
    let mut message = joined("SMC rejected target for fan ", id.as_str());
    message.append(": ");
    message.append(hex.as_str());
    proof {
        reveal_strlit(": ");
        reveal_strlit("0x");
        reveal_strlit(": 0x");
        assert(message@ =~= rejected_target_message(fan_id, code));
    }
    Err(message)
}

/// What the SMC's status code for a return to System Auto means.
pub fn auto_outcome(fan_id: usize, code: i32) -> (r: Result<(), String>)
    ensures
        code == 0 <==> r is Ok,
        r matches Err(e) ==> e@ == restore_refused_message(fan_id, code),
{
    if code == 0 {
        return Ok(());
    }
    let id = unsigned_text(fan_id as u64);
    let hex = hex_code_text(code);
    let mut message = joined("SMC could not restore fan ", id.as_str());
    message.append(": ");
    message.append(hex.as_str());
    proof {
        reveal_strlit(": ");
        reveal_strlit("0x");
        reveal_strlit(": 0x");
        assert(message@ =~= restore_refused_message(fan_id, code));
    }
    Err(message)
}

} // verus!
