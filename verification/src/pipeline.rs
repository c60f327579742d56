use vstd::prelude::*;
use crate::codec::decode;
use crate::codec::envelope_of;
use crate::codec::MAX_BODY_LEN;
use crate::message_error::MessageError;
use crate::online::Online;
use crate::store::OnlineStore;
use crate::store::has_key;
use crate::store::upsert_rel;

verus! {

/// The fixed pause between reconnection attempts, in milliseconds.
pub const RECONNECT_DELAY_MS: u64 = 5000;

/// Handles one delivered message body against the store: an empty body or a
/// body that is no well-formed envelope is dropped with its error and the
/// store is left untouched; a well-formed envelope is recorded as an online
/// event — every decoded message means "online" — and the post-write record
/// comes back.
pub fn process_message(store: &mut OnlineStore, raw_bytes: &Vec<u8>, now: u64) -> (r: Result<
    Online,
    MessageError,
>)
    requires
        old(store).inv(),
        old(store).spec_next_id() < u64::MAX,
    ensures
        final(store).inv(),
        r is Err ==> final(store)@ == old(store)@ && final(store).spec_next_id() == old(
            store,
        ).spec_next_id(),
        raw_bytes@.len() == 0 ==> (r matches Err(e) && e == MessageError::EmptyMessageError),
        0 < raw_bytes@.len() < MAX_BODY_LEN ==> match envelope_of(raw_bytes@) {
            Option::Some(p) => (r matches Ok(rec) && rec.online == true && rec.uuid@ == p.0
                && rec.apiToken@ == p.1) && upsert_rel(
                old(store)@,
                final(store)@,
                p.0,
                p.1,
                true,
                now,
                old(store).spec_next_id(),
            ) && has_key(final(store)@, p.0, p.1),
            Option::None => (r matches Err(e) && e == MessageError::ParseMessageError),
        },
        raw_bytes@.len() >= MAX_BODY_LEN ==> (r matches Err(e) && e
            == MessageError::ParseMessageError),
{
    match decode(raw_bytes) {
        Result::Ok(nf) => {
            let rec = store.upsert_online(nf.uuid.as_str(), nf.api_token.as_str(), true, now);
            Result::Ok(rec)
        },
        Result::Err(e) => Result::Err(e),
    }
}

/// The two steady states of the processing loop.
#[derive(Debug, Clone, Copy, PartialEq, Eq, Structural)]
pub enum LoopState {
    /// Waiting for the next item from the bus.
    Receiving,
    /// The bus signalled a lost connection; reconnecting.
    Reconnecting,
}

/// What the outside world hands the loop: a bus item (a delivery or the
/// disconnect signal), or the outcome of a reconnection attempt.
pub enum LoopEvent {
    MessageArrived(Vec<u8>),
    ConnectionLost,
    ReconnectFailed,
    ReconnectSucceeded,
}

/// What the loop asks its driver to do next.
pub enum LoopCommand {
    /// Decode the body and upsert; then await the next item.
    ProcessDelivery(Vec<u8>),
    /// Attempt to reconnect now.
    TryReconnect,
    /// Wait the given pause, then attempt to reconnect again.
    RetryReconnectAfter(u64),
    /// Await the next item from the bus.
    AwaitDelivery,
}

/// Which events can reach the loop in which state: bus items arrive only
/// while receiving, reconnection outcomes only while reconnecting.
pub open spec fn allowed(state: LoopState, event: LoopEvent) -> bool {
    match state {
        LoopState::Receiving => event is MessageArrived || event is ConnectionLost,
        LoopState::Reconnecting => event is ReconnectFailed || event is ReconnectSucceeded,
    }
}

/// The loop's transition function: deliveries are processed in place; a lost
/// connection starts reconnecting at once; a failed attempt is retried after
/// the fixed pause, with no bound on attempts; a successful one resumes
/// receiving.
pub open spec fn step_spec(state: LoopState, event: LoopEvent) -> (LoopState, LoopCommand) {
    match (state, event) {
        (LoopState::Receiving, LoopEvent::MessageArrived(b)) => (
            LoopState::Receiving,
            LoopCommand::ProcessDelivery(b),
        ),
        (LoopState::Receiving, _) => (LoopState::Reconnecting, LoopCommand::TryReconnect),
        (LoopState::Reconnecting, LoopEvent::ReconnectFailed) => (
            LoopState::Reconnecting,
            LoopCommand::RetryReconnectAfter(RECONNECT_DELAY_MS as u64),
        ),
        (LoopState::Reconnecting, _) => (LoopState::Receiving, LoopCommand::AwaitDelivery),
    }
}

/// One decision of the processing loop.
pub fn step(state: LoopState, event: LoopEvent) -> (r: (LoopState, LoopCommand))
    requires
        allowed(state, event),
    ensures
        r == step_spec(state, event),
{
    match (state, event) {
        (LoopState::Receiving, LoopEvent::MessageArrived(b)) => (
            LoopState::Receiving,
            LoopCommand::ProcessDelivery(b),
        ),
        (LoopState::Receiving, _) => (LoopState::Reconnecting, LoopCommand::TryReconnect),
        (LoopState::Reconnecting, LoopEvent::ReconnectFailed) => (
            LoopState::Reconnecting,
            LoopCommand::RetryReconnectAfter(RECONNECT_DELAY_MS),
        ),
        (LoopState::Reconnecting, _) => (LoopState::Receiving, LoopCommand::AwaitDelivery),
    }
}

/// The loop run over a sequence of events: the state it ends in and the
/// commands it issues along the way.
pub open spec fn run(state: LoopState, events: Seq<LoopEvent>) -> (LoopState, Seq<LoopCommand>)
    decreases events.len(),
{
    if events.len() == 0 {
        (state, Seq::empty())
    } else {
        let first = step_spec(state, events[0]);
        let rest = run(first.0, events.drop_first());
        (rest.0, seq![first.1] + rest.1)
    }
}

/// Law: as long as reconnection attempts fail, the loop stays in the
/// reconnecting state and every command it issues is a retry after the fixed
/// pause — in particular it never processes a message.
pub proof fn lemma_reconnect_retries(events: Seq<LoopEvent>)
    requires
        forall|i: int| 0 <= i < events.len() ==> events[i] is ReconnectFailed,
    ensures
        run(LoopState::Reconnecting, events).0 is Reconnecting,
        run(LoopState::Reconnecting, events).1.len() == events.len(),
        forall|i: int|
            0 <= i < events.len() ==> run(LoopState::Reconnecting, events).1[i]
                == LoopCommand::RetryReconnectAfter(RECONNECT_DELAY_MS as u64),
    decreases events.len(),
{
    if events.len() > 0 {
        lemma_reconnect_retries(events.drop_first());
    }
}

/// Law: a run of failed reconnection attempts followed by a successful one
/// retries after the fixed pause each time, then resumes receiving; no
/// message from before the disconnect is processed along the way.
pub proof fn lemma_reconnect_until_success(fails: Seq<LoopEvent>)
    requires
        forall|i: int| 0 <= i < fails.len() ==> fails[i] is ReconnectFailed,
    ensures
        ({
            let r = run(LoopState::Reconnecting, fails.push(LoopEvent::ReconnectSucceeded));
            &&& r.0 is Receiving
            &&& r.1.len() == fails.len() + 1
            &&& forall|i: int|
                0 <= i < fails.len() ==> r.1[i] == LoopCommand::RetryReconnectAfter(
                    RECONNECT_DELAY_MS as u64,
                )
            &&& r.1[fails.len() as int] == LoopCommand::AwaitDelivery
            &&& forall|i: int| 0 <= i < r.1.len() ==> !(r.1[i] is ProcessDelivery)
        }),
    decreases fails.len(),
{
    let events = fails.push(LoopEvent::ReconnectSucceeded);
    let r = run(LoopState::Reconnecting, events);
    if fails.len() == 0 {
        assert(events[0] == LoopEvent::ReconnectSucceeded);
        assert(events.drop_first() =~= Seq::<LoopEvent>::empty());
        assert(run(LoopState::Receiving, events.drop_first()).1 =~= Seq::<LoopCommand>::empty());
        assert(r.1 =~= seq![LoopCommand::AwaitDelivery]);
    } else {
        assert(events[0] == fails[0]);
        assert(events.drop_first() =~= fails.drop_first().push(LoopEvent::ReconnectSucceeded));
        lemma_reconnect_until_success(fails.drop_first());
        let first = step_spec(LoopState::Reconnecting, events[0]);
        let rest = run(LoopState::Reconnecting, events.drop_first());
        assert(r.1 =~= seq![first.1] + rest.1);
        assert forall|i: int| 0 <= i < fails.len() implies r.1[i]
            == LoopCommand::RetryReconnectAfter(RECONNECT_DELAY_MS as u64) by {
            if i > 0 {
                assert(r.1[i] == rest.1[i - 1]);
            }
        }
        assert(r.1[fails.len() as int] == rest.1[fails.len() - 1]);
    }
    assert forall|i: int| 0 <= i < r.1.len() implies !(r.1[i] is ProcessDelivery) by {
        if i < fails.len() {
            assert(r.1[i] == LoopCommand::RetryReconnectAfter(RECONNECT_DELAY_MS as u64));
        } else {
            assert(r.1[i] == LoopCommand::AwaitDelivery);
        }
    }
}

} // verus!
