//! What happens on a connection from turn to turn.
//!
//! In each turn something has happened and something is done about it. Messages are handled side by
//! side: each waits, among others, until its handling has ended, and they end in any order.

use vstd::multiset::Multiset;
use vstd::prelude::*;

use crate::message::decoded;
use crate::proto::{RpcRequest, RpcResponse};
use crate::rpc::{follows, MethodId, RequestId, Rpc, RpcAction, RpcEvent, RpcService};
use crate::wire::contents;

verus! {

/// A turn: what has happened and what is done about it. Where the handling of a message has ended,
/// `slot` is the place of that message among those that waited.
pub struct Turn {
    pub event: RpcEvent,
    pub action: RpcAction,
    pub slot: int,
}

/// The messages that came from the peer.
pub open spec fn received(turns: Seq<Turn>) -> Seq<Seq<u8>>
    decreases turns.len(),
{
    if turns.len() == 0 {
        seq![]
    } else {
        let before = received(turns.drop_last());
        match turns.last().event {
            RpcEvent::Message(Ok(msg)) => before.push(contents(msg)),
            _ => before,
        }
    }
}

/// The messages that are still being handled: those that were given to be handled, but for those
/// whose handling has ended.
pub open spec fn pending(turns: Seq<Turn>) -> Seq<Seq<u8>>
    decreases turns.len(),
{
    if turns.len() == 0 {
        seq![]
    } else {
        let before = pending(turns.drop_last());
        let turn = turns.last();
        let left = if turn.event is Reply {
            before.remove(turn.slot)
        } else {
            before
        };
        match turn.action {
            RpcAction::Handle(msg) => left.push(contents(msg)),
            _ => left,
        }
    }
}

/// How many messages have been handled to the end.
pub open spec fn handled(turns: Seq<Turn>) -> nat
    decreases turns.len(),
{
    if turns.len() == 0 {
        0
    } else if turns.last().event is Reply {
        handled(turns.drop_last()) + 1
    } else {
        handled(turns.drop_last())
    }
}

/// The messages that were handed to the connection, to be sent to the peer.
pub open spec fn sent(turns: Seq<Turn>) -> Seq<Seq<u8>>
    decreases turns.len(),
{
    if turns.len() == 0 {
        seq![]
    } else {
        let before = sent(turns.drop_last());
        match turns.last().action {
            RpcAction::Send(frame) => before.push(contents(frame)),
            _ => before,
        }
    }
}

/// The messages that the connection has sent to the peer.
pub open spec fn written(turns: Seq<Turn>) -> Seq<Seq<u8>>
    decreases turns.len(),
{
    if turns.len() == 0 {
        seq![]
    } else {
        let before = turns.drop_last();
        match (turns.last().event, last_action(before)) {
            (RpcEvent::Written(Ok(())), Some(RpcAction::Send(frame))) => written(before).push(
                contents(frame),
            ),
            _ => written(before),
        }
    }
}

/// What was done last.
pub open spec fn last_action(turns: Seq<Turn>) -> Option<RpcAction> {
    if turns.len() == 0 {
        None
    } else {
        Some(turns.last().action)
    }
}

/// Whether the connection is being written to, or closed, so that nothing else happens until that
/// has ended.
pub open spec fn is_writing(turns: Seq<Turn>) -> bool {
    last_action(turns) matches Some(action) && (action is Send || action is Close)
}

/// Whether the serving of the connection has stopped.
pub open spec fn has_stopped(turns: Seq<Turn>) -> bool {
    last_action(turns) matches Some(action) && action is Stop
}

/// Whether a connection can be served by these turns. In each the action follows the event. No turn
/// comes after serving has stopped. A write has ended exactly in the turn after the one in which it
/// was begun. Where a handling has ended, it is that of a message that waited, with what may come
/// of that message.
pub open spec fn is_run<TService: RpcService>(rpc: Rpc<TService>, turns: Seq<Turn>) -> bool
    decreases turns.len(),
{
    turns.len() > 0 ==> {
        let before = turns.drop_last();
        let turn = turns.last();
        &&& is_run(rpc, before)
        &&& !has_stopped(before)
        &&& turn.event is Written <==> is_writing(before)
        &&& follows(turn.event, turn.action)
        &&& turn.event matches RpcEvent::Reply(reply) ==> {
            &&& 0 <= turn.slot < pending(before).len()
            &&& rpc.handles(pending(before)[turn.slot], reply)
        }
    }
}

/// The number and the method of the request in a message, if there is one.
pub open spec fn request_in(msg: Seq<u8>) -> Multiset<(RequestId, MethodId)> {
    match decoded::<RpcRequest>(msg) {
        Ok(m) => Multiset::singleton((m.request_id, m.method)),
        Err(_) => Multiset::empty(),
    }
}

/// The number and the method of the response in a message, if there is one.
pub open spec fn response_in(msg: Seq<u8>) -> Multiset<(RequestId, MethodId)> {
    match decoded::<RpcResponse>(msg) {
        Ok(m) => Multiset::singleton((m.request_id, m.method)),
        Err(_) => Multiset::empty(),
    }
}

/// What is in all of the messages together.
pub open spec fn tally(
    msgs: Seq<Seq<u8>>,
    within: spec_fn(Seq<u8>) -> Multiset<(RequestId, MethodId)>,
) -> Multiset<(RequestId, MethodId)>
    decreases msgs.len(),
{
    if msgs.len() == 0 {
        Multiset::empty()
    } else {
        tally(msgs.drop_last(), within).add(within(msgs.last()))
    }
}

/// The numbers and the methods of the requests in messages, each as often as it occurs.
pub open spec fn requests_in(msgs: Seq<Seq<u8>>) -> Multiset<(RequestId, MethodId)> {
    tally(msgs, |msg: Seq<u8>| request_in(msg))
}

/// The numbers and the methods of the responses in messages, each as often as it occurs.
pub open spec fn responses_in(msgs: Seq<Seq<u8>>) -> Multiset<(RequestId, MethodId)> {
    tally(msgs, |msg: Seq<u8>| response_in(msg))
}

/// What is in a message more adds to what is in the others.
proof fn lemma_tally_push(
    msgs: Seq<Seq<u8>>,
    msg: Seq<u8>,
    within: spec_fn(Seq<u8>) -> Multiset<(RequestId, MethodId)>,
)
    ensures
        tally(msgs.push(msg), within) == tally(msgs, within).add(within(msg)),
{
    assert(msgs.push(msg).drop_last() =~= msgs);
}

/// A message that is taken out leaves what is in the others.
proof fn lemma_tally_remove(
    msgs: Seq<Seq<u8>>,
    i: int,
    within: spec_fn(Seq<u8>) -> Multiset<(RequestId, MethodId)>,
)
    requires
        0 <= i < msgs.len(),
    ensures
        tally(msgs, within) == tally(msgs.remove(i), within).add(within(msgs[i])),
    decreases msgs.len(),
{
    if i == msgs.len() - 1 {
        assert(msgs.remove(i) =~= msgs.drop_last());
    } else {
        lemma_tally_remove(msgs.drop_last(), i, within);
        assert(msgs.remove(i).drop_last() =~= msgs.drop_last().remove(i));
        assert(tally(msgs, within) =~= tally(msgs.remove(i), within).add(within(msgs[i])));
    }
}

/// Messages with one thing in each have as many things in them as there are messages.
proof fn lemma_tally_len(
    msgs: Seq<Seq<u8>>,
    within: spec_fn(Seq<u8>) -> Multiset<(RequestId, MethodId)>,
)
    requires
        forall|i: int| 0 <= i < msgs.len() ==> within(#[trigger] msgs[i]).len() == 1,
    ensures
        tally(msgs, within).len() == msgs.len(),
    decreases msgs.len(),
{
    if msgs.len() > 0 {
        let before = msgs.drop_last();
        assert forall|i: int| 0 <= i < before.len() implies within(#[trigger] before[i]).len()
            == 1 by {
            assert(before[i] == msgs[i]);
        }
        lemma_tally_len(before, within);
        assert(within(msgs.last()).len() == 1);
    }
}

/// No request is lost and none is answered twice: whatever happens on a connection, the requests
/// that came are those that were answered, by their numbers and methods, and those that are still
/// being handled. Each message that came has been handled to the end, or is being handled.
pub proof fn requests_are_answered_or_pending<TService: RpcService>(
    rpc: Rpc<TService>,
    turns: Seq<Turn>,
)
    requires
        is_run(rpc, turns),
    ensures
        requests_in(received(turns)) == responses_in(sent(turns)).add(requests_in(pending(turns))),
        received(turns).len() == handled(turns) + pending(turns).len(),
    decreases turns.len(),
{
    let requests = |msg: Seq<u8>| request_in(msg);
    let responses = |msg: Seq<u8>| response_in(msg);
    if turns.len() > 0 {
        let before = turns.drop_last();
        let turn = turns.last();
        requests_are_answered_or_pending(rpc, before);
        match turn.event {
            RpcEvent::Message(Ok(msg)) => {
                lemma_tally_push(received(before), contents(msg), requests);
                lemma_tally_push(pending(before), contents(msg), requests);
            },
            RpcEvent::Reply(reply) => {
                lemma_tally_remove(pending(before), turn.slot, requests);
                if let RpcAction::Send(frame) = turn.action {
                    lemma_tally_push(sent(before), contents(frame), responses);
                }
            },
            _ => {},
        }
    }
    assert(requests_in(received(turns)) =~= responses_in(sent(turns)).add(
        requests_in(pending(turns)),
    ));
}

/// Where every message that came can be read, so can every message that waits, and every handling
/// that has ended is followed by a response.
proof fn lemma_readable<TService: RpcService>(rpc: Rpc<TService>, turns: Seq<Turn>)
    requires
        is_run(rpc, turns),
        forall|i: int|
            0 <= i < received(turns).len() ==> decoded::<RpcRequest>(
                #[trigger] received(turns)[i],
            ) is Ok,
    ensures
        forall|i: int|
            0 <= i < pending(turns).len() ==> decoded::<RpcRequest>(
                #[trigger] pending(turns)[i],
            ) is Ok,
        forall|i: int|
            0 <= i < sent(turns).len() ==> decoded::<RpcResponse>(#[trigger] sent(turns)[i]) is Ok,
        forall|i: int|
            0 <= i < turns.len() && (#[trigger] turns[i]).event is Reply
                ==> turns[i].action is Send,
    decreases turns.len(),
{
    if turns.len() > 0 {
        let before = turns.drop_last();
        assert forall|i: int| 0 <= i < received(before).len() implies decoded::<RpcRequest>(
            #[trigger] received(before)[i],
        ) is Ok by {
            assert(received(before)[i] == received(turns)[i]);
        }
        lemma_readable(rpc, before);
        if let RpcEvent::Message(Ok(msg)) = turns.last().event {
            assert(received(turns).last() == contents(msg));
        }
        assert forall|i: int|
            0 <= i < turns.len() && (#[trigger] turns[i]).event is Reply implies turns[i].action
            is Send by {
            if i < before.len() {
                assert(before[i] == turns[i]);
            }
        }
    }
}

/// Every request is answered exactly once: where all messages that came can be read, and none is
/// being handled any more, as many messages were sent as came, and they hold the numbers and the
/// methods of the requests, each as often as it was asked; between two writes, all of them have
/// been written. A request that the service refused is answered like any other.
pub proof fn every_request_is_answered_once<TService: RpcService>(
    rpc: Rpc<TService>,
    turns: Seq<Turn>,
)
    requires
        is_run(rpc, turns),
        pending(turns).len() == 0,
        forall|i: int|
            0 <= i < received(turns).len() ==> decoded::<RpcRequest>(
                #[trigger] received(turns)[i],
            ) is Ok,
    ensures
        sent(turns).len() == received(turns).len(),
        responses_in(sent(turns)) == requests_in(received(turns)),
        !has_stopped(turns) && !is_writing(turns) ==> written(turns) == sent(turns),
        forall|i: int|
            0 <= i < turns.len() && (#[trigger] turns[i]).event is Reply
                ==> turns[i].action is Send,
{
    requests_are_answered_or_pending(rpc, turns);
    lemma_readable(rpc, turns);
    messages_are_written_in_turn(rpc, turns);
    assert(responses_in(sent(turns)) =~= requests_in(received(turns)));
    lemma_tally_len(received(turns), |msg: Seq<u8>| request_in(msg));
    lemma_tally_len(sent(turns), |msg: Seq<u8>| response_in(msg));
}

/// Whether the connection failed to deliver a message, to send one or to close.
pub open spec fn is_failure(event: RpcEvent) -> bool {
    match event {
        RpcEvent::Message(result) => result is Err,
        RpcEvent::Reply(_) => false,
        RpcEvent::Written(result) => result is Err,
    }
}

/// Serving stops only where the connection failed: neither a refused request nor a message that
/// cannot be read ends it.
pub proof fn only_failures_stop<TService: RpcService>(rpc: Rpc<TService>, turns: Seq<Turn>)
    requires
        is_run(rpc, turns),
    ensures
        forall|i: int|
            0 <= i < turns.len() ==> ((#[trigger] turns[i]).action is Stop <==> is_failure(
                turns[i].event,
            )),
    decreases turns.len(),
{
    if turns.len() > 0 {
        let before = turns.drop_last();
        only_failures_stop(rpc, before);
        assert forall|i: int| 0 <= i < turns.len() implies ((#[trigger] turns[i]).action is Stop
            <==> is_failure(turns[i].event)) by {
            if i < before.len() {
                assert(before[i] == turns[i]);
            }
        }
    }
}

/// A turn in which the connection failed is the last: serving stops with the error of the failure,
/// and no turn can follow. Nothing more is received or sent, and what was being handled is dropped
/// unanswered.
pub proof fn a_failure_ends_the_run<TService: RpcService>(
    rpc: Rpc<TService>,
    turns: Seq<Turn>,
    i: int,
)
    requires
        is_run(rpc, turns),
        0 <= i < turns.len(),
        is_failure(turns[i].event),
    ensures
        i == turns.len() - 1,
        match turns[i].event {
            RpcEvent::Message(Err(err)) => turns[i].action == RpcAction::Stop(err),
            RpcEvent::Written(Err(err)) => turns[i].action == RpcAction::Stop(err),
            _ => false,
        },
        received(turns) == received(turns.take(i)),
        sent(turns) == sent(turns.take(i)),
        written(turns) == written(turns.take(i)),
        pending(turns) == pending(turns.take(i)),
        forall|turn: Turn| !#[trigger] is_run(rpc, turns.push(turn)),
    decreases turns.len(),
{
    let before = turns.drop_last();
    if i < before.len() {
        assert(before[i] == turns[i]);
        a_failure_ends_the_run(rpc, before, i);
        only_failures_stop(rpc, before);
        assert(has_stopped(before));
    } else {
        assert(turns.take(i) =~= before);
        assert forall|turn: Turn| !#[trigger] is_run(rpc, turns.push(turn)) by {
            assert(turns.push(turn).drop_last() =~= turns);
        }
    }
}

/// All messages but one that is being sent have been sent, while serving has not stopped.
proof fn lemma_written<TService: RpcService>(rpc: Rpc<TService>, turns: Seq<Turn>)
    requires
        is_run(rpc, turns),
        !has_stopped(turns),
    ensures
        match last_action(turns) {
            Some(RpcAction::Send(frame)) => sent(turns) == written(turns).push(contents(frame)),
            _ => sent(turns) == written(turns),
        },
    decreases turns.len(),
{
    if turns.len() > 0 {
        lemma_written(rpc, turns.drop_last());
    }
}

/// What is handed to the connection is sent before anything else is done: of the messages that were
/// handed to it, in their order, all have been sent but for one that is being sent, or that the
/// connection failed to send.
pub proof fn messages_are_written_in_turn<TService: RpcService>(
    rpc: Rpc<TService>,
    turns: Seq<Turn>,
)
    requires
        is_run(rpc, turns),
    ensures
        written(turns).is_prefix_of(sent(turns)),
        sent(turns).len() <= written(turns).len() + 1,
        !has_stopped(turns) && !is_writing(turns) ==> written(turns) == sent(turns),
{
    if turns.len() > 0 {
        let before = turns.drop_last();
        lemma_written(rpc, before);
        if !has_stopped(turns) {
            lemma_written(rpc, turns);
        }
    }
}

} // verus!
