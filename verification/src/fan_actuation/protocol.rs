//! The narrow command protocol between the application and the privileged
//! fan actuation daemon, and the daemon's handling of each command.
use crate::text::{joined, signed_decimal, signed_text, unsigned_text, decimal};
use vstd::prelude::*;

verus! {

/// A request to the daemon.
#[derive(Debug, Clone, Copy, PartialEq, Eq, Structural)]
pub enum FanCommand {
    Status,
    Heartbeat,
    SetTarget { fan_id: usize, rpm: i32 },
    SystemAuto { fan_id: usize },
    RestoreAll,
}

/// The hardware RPM range of one fan.
#[derive(Debug, Clone, Copy, PartialEq, Eq, Structural)]
pub struct FanEnvelope {
    pub id: usize,
    pub min_rpm: i32,
    pub max_rpm: i32,
}

/// The daemon's reply.
#[derive(Debug, PartialEq, Eq)]
pub enum FanResponse {
    Accepted,
    Ready { fans: Vec<FanEnvelope> },
    Error { message: String },
}

/// The fan hardware that the daemon drives.
pub trait FanHardware {
    fn envelopes(&self) -> Result<Vec<FanEnvelope>, String>;

    fn set_target(&mut self, fan_id: usize, rpm: i32) -> Result<(), String>;

    fn system_auto(&mut self, fan_id: usize) -> Result<(), String>;
}

/// What a command asks of the hardware once the fan envelopes are known.
#[derive(Debug, PartialEq, Eq)]
pub enum HardwareStep {
    /// Answer without touching the fans.
    Respond(FanResponse),
    /// Drive one fan at a target speed.
    WriteTarget { fan_id: usize, rpm: i32 },
    /// Return one fan to System Auto.
    RestoreFan { fan_id: usize },
    /// Return each listed fan to System Auto, in order.
    RestoreFans { fan_ids: Vec<usize> },
}

/// The message for a fan that the hardware does not report.
pub open spec fn unavailable_fan_message(fan_id: usize) -> Seq<char> {
    "fan "@ + decimal(fan_id as nat) + " is unavailable"@
}

/// The message for a target outside a fan's hardware range.
pub open spec fn out_of_range_message(fan_id: usize, rpm: i32, envelope: FanEnvelope) -> Seq<char> {
    "target "@ + signed_decimal(rpm as int) + " RPM is outside fan "@ + decimal(fan_id as nat)
        + " range "@ + signed_decimal(envelope.min_rpm as int) + "-"@ + signed_decimal(
        envelope.max_rpm as int,
    ) + " RPM"@
}

/// The index of the first envelope of a fan.
pub open spec fn envelope_index(fans: Seq<FanEnvelope>, fan_id: usize) -> Option<int>
    decreases fans.len(),
{
    if fans.len() == 0 {
        None
    } else {
        match envelope_index(fans.drop_last(), fan_id) {
            Some(i) => Some(i),
            None => if fans.last().id == fan_id {
                Some(fans.len() - 1)
            } else {
                None
            },
        }
    }
}

/// Whether a target lies within a fan's hardware range.
pub open spec fn within_envelope(envelope: FanEnvelope, rpm: i32) -> bool {
    envelope.min_rpm <= rpm <= envelope.max_rpm
}

/// The step that a command (other than a heartbeat) takes, given the
/// envelopes the hardware reported.  `None` in the error position means the
/// step is not an immediate reply.
pub open spec fn step_view(step: HardwareStep) -> StepView {
    match step {
        HardwareStep::Respond(r) => StepView::Respond(response_view(r)),
        HardwareStep::WriteTarget { fan_id, rpm } => StepView::WriteTarget { fan_id, rpm },
        HardwareStep::RestoreFan { fan_id } => StepView::RestoreFan { fan_id },
        HardwareStep::RestoreFans { fan_ids } => StepView::RestoreFans { fan_ids: fan_ids@ },
    }
}

/// A reply as plain values.
pub enum ResponseView {
    Accepted,
    Ready { fans: Seq<FanEnvelope> },
    Error { message: Seq<char> },
}

/// A hardware step as plain values.
pub enum StepView {
    Respond(ResponseView),
    WriteTarget { fan_id: usize, rpm: i32 },
    RestoreFan { fan_id: usize },
    RestoreFans { fan_ids: Seq<usize> },
}

/// A reply as plain values.
pub open spec fn response_view(r: FanResponse) -> ResponseView {
    match r {
        FanResponse::Accepted => ResponseView::Accepted,
        FanResponse::Ready { fans } => ResponseView::Ready { fans: fans@ },
        FanResponse::Error { message } => ResponseView::Error { message: message@ },
    }
}

/// The ids of the reported fans, in order.
pub open spec fn fan_ids(fans: Seq<FanEnvelope>) -> Seq<usize> {
    fans.map_values(|f: FanEnvelope| f.id)
}

/// What a command asks of the hardware, given the envelopes it reported.
pub open spec fn command_step(command: FanCommand, envelopes: Result<Seq<FanEnvelope>, Seq<char>>) -> StepView {
    match command {
        FanCommand::Heartbeat => StepView::Respond(ResponseView::Accepted),
        _ => match envelopes {
            Err(message) => StepView::Respond(ResponseView::Error { message }),
            Ok(fans) => match command {
                FanCommand::Status => StepView::Respond(ResponseView::Ready { fans }),
                FanCommand::SetTarget { fan_id, rpm } => match envelope_index(fans, fan_id) {
                    None => StepView::Respond(
                        ResponseView::Error { message: unavailable_fan_message(fan_id) },
                    ),
                    Some(i) => if within_envelope(fans[i], rpm) {
                        StepView::WriteTarget { fan_id, rpm }
                    } else {
                        StepView::Respond(
                            ResponseView::Error { message: out_of_range_message(fan_id, rpm, fans[i]) },
                        )
                    },
                },
                FanCommand::SystemAuto { fan_id } => match envelope_index(fans, fan_id) {
                    None => StepView::Respond(
                        ResponseView::Error { message: unavailable_fan_message(fan_id) },
                    ),
                    Some(_) => StepView::RestoreFan { fan_id },
                },
                _ => StepView::RestoreFans { fan_ids: fan_ids(fans) },
            },
        },
    }
}

/// The envelopes result as plain values.
pub open spec fn envelopes_view(r: Result<Vec<FanEnvelope>, String>) -> Result<Seq<FanEnvelope>, Seq<char>> {
    match r {
        Ok(fans) => Ok(fans@),
        Err(e) => Err(e@),
    }
}

/// Decides what a command asks of the hardware once the envelopes are known:
/// targets outside a fan's range and unknown fans are refused without any
/// write, and restoring all visits every reported fan in order.
pub fn step_for(command: FanCommand, envelopes: Result<Vec<FanEnvelope>, String>) -> (step: HardwareStep)
    ensures
        step_view(step) == command_step(command, envelopes_view(envelopes)),
{
    if let FanCommand::Heartbeat = command {
        return HardwareStep::Respond(FanResponse::Accepted);
    }
    let fans = match envelopes {
        Ok(fans) => fans,
        Err(message) => {
            return HardwareStep::Respond(FanResponse::Error { message });
        },
    };
    match command {
        FanCommand::Status => HardwareStep::Respond(FanResponse::Ready { fans }),
        FanCommand::SetTarget { fan_id, rpm } => match find_envelope(&fans, fan_id) {
            None => HardwareStep::Respond(FanResponse::Error { message: unavailable_fan(fan_id) }),
            Some(fan) => {
                if rpm < fan.min_rpm || rpm > fan.max_rpm {
                    HardwareStep::Respond(
                        FanResponse::Error { message: out_of_range(fan_id, rpm, fan) },
                    )
                } else {
                    HardwareStep::WriteTarget { fan_id, rpm }
                }
            },
        },
        FanCommand::SystemAuto { fan_id } => match find_envelope(&fans, fan_id) {
            None => HardwareStep::Respond(FanResponse::Error { message: unavailable_fan(fan_id) }),
            Some(_) => HardwareStep::RestoreFan { fan_id },
        },
        _ => {
            let mut ids: Vec<usize> = Vec::new();
            let mut i: usize = 0;
            while i < fans.len()
                invariant
                    i <= fans@.len(),
                    ids@ == fan_ids(fans@.take(i as int)),
                decreases fans.len() - i,
            {
                ids.push(fans[i].id);
                i = i + 1;
                proof {
                    assert(ids@ =~= fan_ids(fans@.take(i as int)));
                }
            }
            proof {
                assert(fans@.take(fans@.len() as int) =~= fans@);
            }
            HardwareStep::RestoreFans { fan_ids: ids }
        },
    }
}

/// The first envelope of a fan.
fn find_envelope(fans: &Vec<FanEnvelope>, fan_id: usize) -> (r: Option<FanEnvelope>)
    ensures
        match envelope_index(fans@, fan_id) {
            Some(i) => r == Some(fans@[i]),
            None => r is None,
        },
{
    let mut i: usize = 0;
    while i < fans.len()
        invariant
            i <= fans@.len(),
            envelope_index(fans@.take(i as int), fan_id) is None,
        decreases fans.len() - i,
    {
        proof {
            assert(fans@.take(i + 1).drop_last() =~= fans@.take(i as int));
        }
        if fans[i].id == fan_id {
            proof {
                assert(envelope_index(fans@.take(i + 1), fan_id) == Some(i as int));
                lemma_envelope_index_sticks(fans@, i as int + 1, fan_id);
                assert(fans@.take(fans@.len() as int) =~= fans@);
            }
            return Some(fans[i]);
        }
        i = i + 1;
    }
    proof {
        assert(fans@.take(fans@.len() as int) =~= fans@);
    }
    None
}

/// Once a prefix holds a fan, longer prefixes find it at the same index.
proof fn lemma_envelope_index_sticks(fans: Seq<FanEnvelope>, k: int, id: usize)
    requires
        0 <= k <= fans.len(),
        envelope_index(fans.take(k), id) is Some,
    ensures
        envelope_index(fans.take(fans.len() as int), id) == envelope_index(fans.take(k), id),
    decreases fans.len() - k,
{
    if k < fans.len() {
        assert(fans.take(k + 1).drop_last() =~= fans.take(k));
        lemma_envelope_index_sticks(fans, k + 1, id);
    }
}

/// The message for a fan that the hardware does not report.
fn unavailable_fan(fan_id: usize) -> (message: String)
    ensures
        message@ == unavailable_fan_message(fan_id),
{
    let id = unsigned_text(fan_id as u64);
    let mut message = joined("fan ", id.as_str());
    message.append(" is unavailable");
    message
}

/// The message for a target outside a fan's range.
fn out_of_range(fan_id: usize, rpm: i32, fan: FanEnvelope) -> (message: String)
    ensures
        message@ == out_of_range_message(fan_id, rpm, fan),
{
    let target = signed_text(rpm);
    let id = unsigned_text(fan_id as u64);
    let low = signed_text(fan.min_rpm);
    let high = signed_text(fan.max_rpm);
    let mut message = joined("target ", target.as_str());
    message.append(" RPM is outside fan ");
    message.append(id.as_str());
    message.append(" range ");
    message.append(low.as_str());
    message.append("-");
    message.append(high.as_str());
    message.append(" RPM");
    message
}

/// Whether reading the envelopes of `hardware` may return `result`.
pub open spec fn reports_envelopes<H: FanHardware>(hardware: H, result: Result<Vec<FanEnvelope>, String>) -> bool {
    call_ensures(H::envelopes, (&hardware,), result)
}

/// The reply to one hardware write.
pub open spec fn write_reply(result: Result<(), String>) -> ResponseView {
    match result {
        Ok(()) => ResponseView::Accepted,
        Err(message) => ResponseView::Error { message: message@ },
    }
}

/// The reply to restoring several fans in turn: the first failure, or an
/// acknowledgement when every restore succeeded.
pub open spec fn restore_reply(results: Seq<Result<(), String>>) -> ResponseView
    decreases results.len(),
{
    if results.len() == 0 {
        ResponseView::Accepted
    } else if results[0] is Err {
        write_reply(results[0])
    } else {
        restore_reply(results.drop_first())
    }
}

/// Whether the writes were made with the given references (each handed to
/// one call) and results: a target write, one restore, or one restore of
/// every listed fan, in order.
pub open spec fn writes_made<H: FanHardware>(
    step: StepView,
    writes: Seq<&mut H>,
    results: Seq<Result<(), String>>,
) -> bool {
    &&& writes.len() == results.len()
    &&& match step {
        StepView::Respond(_) => writes.len() == 0,
        StepView::WriteTarget { fan_id, rpm } => {
            &&& writes.len() == 1
            &&& call_ensures(H::set_target, (writes[0], fan_id, rpm), results[0])
        },
        StepView::RestoreFan { fan_id } => {
            &&& writes.len() == 1
            &&& call_ensures(H::system_auto, (writes[0], fan_id), results[0])
        },
        StepView::RestoreFans { fan_ids } => restores_in_order(fan_ids, writes, results),
    }
}

/// The reply that a step's writes lead to.
pub open spec fn step_reply(step: StepView, results: Seq<Result<(), String>>) -> ResponseView {
    match step {
        StepView::Respond(reply) => reply,
        StepView::RestoreFans { .. } => restore_reply(results),
        _ => write_reply(results[0]),
    }
}

/// What handling a command does, given what the hardware reported and the
/// writes it made: a heartbeat touches nothing and is acknowledged; any
/// other command reads the envelopes of the hardware as it was and follows
/// [`command_step`] — a refused command makes no write, a target or a single
/// restore is one write whose outcome is the reply, and restoring all tries
/// every reported fan once, in order, and reports the first failure.
pub open spec fn handled<H: FanHardware>(
    command: FanCommand,
    before: H,
    envelopes: Result<Vec<FanEnvelope>, String>,
    writes: Seq<&mut H>,
    results: Seq<Result<(), String>>,
    response: ResponseView,
) -> bool {
    if command == FanCommand::Heartbeat {
        writes.len() == 0 && response == ResponseView::Accepted
    } else {
        let step = command_step(command, envelopes_view(envelopes));
        &&& reports_envelopes(before, envelopes)
        &&& writes_made(step, writes, results)
        &&& response == step_reply(step, results)
    }
}

/// Restoring the listed fans in order with the given references and
/// results: every listed fan is tried once, whatever the earlier ones gave.
pub open spec fn restores_in_order<H: FanHardware>(
    fan_ids: Seq<usize>,
    writes: Seq<&mut H>,
    results: Seq<Result<(), String>>,
) -> bool {
    &&& writes.len() == results.len()
    &&& writes.len() == fan_ids.len()
    &&& forall|i: int|
        0 <= i < writes.len() ==> call_ensures(
            H::system_auto,
            (#[trigger] writes[i], fan_ids[i]),
            results[i],
        )
}

/// Restores every fan from position `i` on, and reports the first failure.
fn restore_each<H: FanHardware>(hardware: &mut H, fan_ids: &Vec<usize>, i: usize) -> (r: Result<(), String>)
    requires
        i <= fan_ids@.len(),
    ensures
        exists|writes: Seq<&mut H>, results: Seq<Result<(), String>>|
            restores_in_order(fan_ids@.skip(i as int), writes, results) && write_reply(r)
                == restore_reply(results) && (writes.len() == 0 ==> *final(hardware) == *old(
                hardware,
            )) && (writes.len() > 0 ==> {
                &&& *writes[0] == *old(hardware)
                &&& *final(writes.last()) == *final(hardware)
                &&& forall|k: int|
                    0 <= k < writes.len() - 1 ==> *final(#[trigger] writes[k]) == *writes[k + 1]
            }),
    decreases fan_ids@.len() - i,
{
    let ghost start = *hardware;
    let ghost ids = fan_ids@.skip(i as int);
    if i == fan_ids.len() {
        proof {
            let writes = Seq::<&mut H>::empty();
            let results = Seq::<Result<(), String>>::empty();
            assert(restores_in_order(ids, writes, results));
        }
        return Ok(());
    }
    let restore = H::system_auto;
    let fan_id = fan_ids[i];
    let result = restore(hardware, fan_id);
    let ghost after_first = *hardware;
    proof {
        assert(ids[0] == fan_id);
    }
    let rest = restore_each(hardware, fan_ids, i + 1);
    let r = match result {
        Err(message) => Err(message),
        Ok(()) => rest,
    };
    proof {
        let w = choose|m: &mut H|
            *m == start && *final(m) == after_first && call_ensures(H::system_auto, (m, fan_id), result);
        let (tail_writes, tail_results) = choose|writes: Seq<&mut H>, results: Seq<Result<(), String>>|
            restores_in_order(fan_ids@.skip(i + 1), writes, results) && write_reply(rest)
                == restore_reply(results) && (writes.len() == 0 ==> *hardware == after_first) && (
            writes.len() > 0 ==> {
                &&& *writes[0] == after_first
                &&& *final(writes.last()) == *hardware
                &&& forall|k: int|
                    0 <= k < writes.len() - 1 ==> *final(#[trigger] writes[k]) == *writes[k + 1]
            });
        let writes = seq![w] + tail_writes;
        let results = seq![result] + tail_results;
        assert(fan_ids@.skip(i + 1) =~= ids.skip(1));
        assert forall|k: int| 0 <= k < writes.len() implies call_ensures(
            H::system_auto,
            (#[trigger] writes[k], ids[k]),
            results[k],
        ) by {
            if k > 0 {
                assert(writes[k] == tail_writes[k - 1]);
                assert(results[k] == tail_results[k - 1]);
                assert(ids[k] == fan_ids@.skip(i + 1)[k - 1]);
            }
        }
        assert(restores_in_order(ids, writes, results));
        assert forall|k: int| 0 <= k < writes.len() - 1 implies *final(#[trigger] writes[k])
            == *writes[k + 1] by {
            if k > 0 {
                assert(writes[k] == tail_writes[k - 1]);
                assert(writes[k + 1] == tail_writes[k]);
            }
        }
        if tail_writes.len() > 0 {
            assert(writes.last() == tail_writes.last());
        }
        assert(results.drop_first() =~= tail_results);
        assert(write_reply(r) == restore_reply(results));
    }
    r
}

/// Handles one command against the hardware.  The writes are chained: the
/// first sees the hardware as it was, each later one sees what the previous
/// one left, and the hardware ends as the last one left it (unchanged when
/// there was none).
pub fn handle_command<H: FanHardware>(command: FanCommand, hardware: &mut H) -> (response: FanResponse)
    ensures
        exists|
            envelopes: Result<Vec<FanEnvelope>, String>,
            writes: Seq<&mut H>,
            results: Seq<Result<(), String>>,
        |
            #![trigger handled(command, *old(hardware), envelopes, writes, results, response_view(response))]
            handled(command, *old(hardware), envelopes, writes, results, response_view(response)) && (
            writes.len() == 0 ==> *final(hardware) == *old(hardware)) && (writes.len() > 0 ==> {
                &&& *writes[0] == *old(hardware)
                &&& *final(writes.last()) == *final(hardware)
                &&& forall|i: int|
                    0 <= i < writes.len() - 1 ==> *final(#[trigger] writes[i]) == *writes[i + 1]
            }),
{
    let ghost start = *hardware;
    if let FanCommand::Heartbeat = command {
        let response = FanResponse::Accepted;
        proof {
            let envelopes: Result<Vec<FanEnvelope>, String> = vstd::pervasive::arbitrary();
            assert(handled(command, start, envelopes, Seq::<&mut H>::empty(), Seq::empty(), response_view(response)));
        }
        return response;
    }
    // Each hardware method is called as a value, so that the contract can
    // name what the call returned (`call_ensures`).
    let read_envelopes = H::envelopes;
    let envelopes = read_envelopes(&*hardware);
    let ghost reported = envelopes;
    assert(reports_envelopes(start, reported));
    let step = step_for(command, envelopes);
    let ghost plan = step_view(step);
    assert(plan == command_step(command, envelopes_view(reported)));
    match step {
        HardwareStep::Respond(response) => {
            proof {
                assert(handled(command, start, reported, Seq::<&mut H>::empty(), Seq::empty(), response_view(response)));
            }
            response
        },
        HardwareStep::WriteTarget { fan_id, rpm } => {
            let write = H::set_target;
            let result = write(hardware, fan_id, rpm);
            let response = match result {
                Ok(()) => FanResponse::Accepted,
                Err(message) => FanResponse::Error { message },
            };
            proof {
                let w = choose|m: &mut H|
                    *m == start && *final(m) == *hardware && call_ensures(H::set_target, (m, fan_id, rpm), result);
                let writes = seq![w];
                let results = seq![result];
                assert(writes_made(plan, writes, results));
                assert(handled(command, start, reported, writes, results, response_view(response)));
            }
            response
        },
        HardwareStep::RestoreFan { fan_id } => {
            let restore = H::system_auto;
            let result = restore(hardware, fan_id);
            let response = match result {
                Ok(()) => FanResponse::Accepted,
                Err(message) => FanResponse::Error { message },
            };
            proof {
                let w = choose|m: &mut H|
                    *m == start && *final(m) == *hardware && call_ensures(H::system_auto, (m, fan_id), result);
                let writes = seq![w];
                let results = seq![result];
                assert(writes_made(plan, writes, results));
                assert(handled(command, start, reported, writes, results, response_view(response)));
            }
            response
        },
        HardwareStep::RestoreFans { fan_ids } => {
            let outcome = restore_each(hardware, &fan_ids, 0);
            let response = match outcome {
                Ok(()) => FanResponse::Accepted,
                Err(message) => FanResponse::Error { message },
            };
            proof {
                assert(fan_ids@.skip(0) =~= fan_ids@);
                let (writes, results) = choose|writes: Seq<&mut H>, results: Seq<Result<(), String>>|
                    restores_in_order(fan_ids@.skip(0), writes, results) && write_reply(outcome)
                        == restore_reply(results) && (writes.len() == 0 ==> *hardware == start)
                        && (writes.len() > 0 ==> {
                        &&& *writes[0] == start
                        &&& *final(writes.last()) == *hardware
                        &&& forall|k: int|
                            0 <= k < writes.len() - 1 ==> *final(#[trigger] writes[k]) == *writes[k + 1]
                    });
                assert(writes_made(plan, writes, results));
                assert(handled(command, start, reported, writes, results, response_view(response)));
            }
            response
        },
    }
}

/// A target for a fan that the hardware does not report, or outside that
/// fan's hardware range, is answered with an error and never written.
pub proof fn law_invalid_targets_are_refused(fans: Seq<FanEnvelope>, fan_id: usize, rpm: i32)
    requires
        match envelope_index(fans, fan_id) {
            None => true,
            Some(i) => !within_envelope(fans[i], rpm),
        },
    ensures
        command_step(FanCommand::SetTarget { fan_id, rpm }, Ok(fans)) matches StepView::Respond(
            ResponseView::Error { .. },
        ),
{
}

/// Restoring all returns every reported fan to System Auto, in the order
/// the hardware reported them.
pub proof fn law_restore_all_visits_every_fan(fans: Seq<FanEnvelope>)
    ensures
        command_step(FanCommand::RestoreAll, Ok(fans)) == (StepView::RestoreFans {
            fan_ids: fans.map_values(|f: FanEnvelope| f.id),
        }),
{
}

} // verus!
