//! The relay decision core. A relay task owns one channel: an upstream
//! connection toward the real remote party and a downstream connection
//! toward the local consumer. The surrounding event loop waits on both
//! sides and hands each arrival here; this module decides, through the
//! handler, which writes to perform and whether the relay goes on. The
//! loop itself (the waiting, the writes, the spawning) is plain async
//! plumbing and lives outside the library.
use vstd::prelude::*;

use crate::codec::{Error, ErrorV};
use crate::event::{Event, EventV};
use crate::handler::{actions_view, Action, ActionV, Handler, NopHandler, WillHandler};

verus! {

/// One arrival at the relay loop's dual wait.
#[derive(Debug)]
pub enum RelayIn {
    /// An event from the downstream side: the local consumer wants it sent
    /// toward the real remote party.
    FromDown(Event),
    /// The downstream source is exhausted.
    DownClosed,
    /// An event from the upstream side: the real remote party sent it.
    FromUp(Event),
    /// The upstream source is exhausted.
    UpClosed,
    /// A read error on the upstream side.
    UpFailed(Error),
}

/// The mathematical shape of an arrival.
pub enum RelayInV {
    /// An event from the downstream side.
    FromDown(EventV),
    /// Downstream exhausted.
    DownClosed,
    /// An event from the upstream side.
    FromUp(EventV),
    /// Upstream exhausted.
    UpClosed,
    /// An upstream read error.
    UpFailed(ErrorV),
}

impl View for RelayIn {
    type V = RelayInV;

    open spec fn view(&self) -> RelayInV {
        match self {
            RelayIn::FromDown(e) => RelayInV::FromDown(e@),
            RelayIn::DownClosed => RelayInV::DownClosed,
            RelayIn::FromUp(e) => RelayInV::FromUp(e@),
            RelayIn::UpClosed => RelayInV::UpClosed,
            RelayIn::UpFailed(err) => RelayInV::UpFailed(err@),
        }
    }
}

/// What one arrival comes to, for a handler whose send and receive
/// dispatchers behave as `send` and `recv`: the writes to perform, and
/// whether the relay goes on. An event is dispatched to the matching path;
/// end-of-stream on either side ends the relay; an upstream read error is
/// forwarded downstream exactly once and ends the relay. A failure while
/// carrying out a write is logged by the loop and does not end the relay.
pub open spec fn relay_step_spec(
    send: spec_fn(EventV) -> Seq<ActionV>,
    recv: spec_fn(EventV) -> Seq<ActionV>,
    input: RelayInV,
) -> (Seq<ActionV>, bool) {
    match input {
        RelayInV::FromDown(e) => (send(e), true),
        RelayInV::DownClosed => (Seq::empty(), false),
        RelayInV::FromUp(e) => (recv(e), true),
        RelayInV::UpClosed => (Seq::empty(), false),
        RelayInV::UpFailed(err) => (seq![ActionV::Down(Err(err))], false),
    }
}

/// Decide one arrival: dispatch it through the handler and say whether the
/// relay goes on.
pub fn relay_step<H: Handler>(handler: &mut H, input: RelayIn) -> (r: (Vec<Action>, bool))
    ensures
        ({
            let s = relay_step_spec(
                |e: EventV| old(handler).send_event_spec(e),
                |e: EventV| old(handler).receive_event_spec(e),
                input@,
            );
            actions_view(r.0) == s.0 && r.1 == s.1
        }),
{
    match input {
        RelayIn::FromDown(e) => (handler.send_event(e), true),
        RelayIn::DownClosed => (Vec::new(), false),
        RelayIn::FromUp(e) => (handler.receive_event(e), true),
        RelayIn::UpClosed => (Vec::new(), false),
        RelayIn::UpFailed(err) => {
            let ghost ev = err@;
            let mut acts: Vec<Action> = Vec::new();
            acts.push(Action::Down(Err(err)));
            proof {
                assert(actions_view(acts) =~= seq![ActionV::Down(Err(ev))]);
            }
            (acts, false)
        },
    }
}

/// The writes a whole relay run performs: arrivals are decided in order
/// until one ends the relay; nothing follows a terminal arrival.
pub open spec fn run_relay(
    send: spec_fn(EventV) -> Seq<ActionV>,
    recv: spec_fn(EventV) -> Seq<ActionV>,
    inputs: Seq<RelayInV>,
) -> Seq<ActionV>
    decreases inputs.len(),
{
    if inputs.len() == 0 {
        Seq::empty()
    } else {
        let s = relay_step_spec(send, recv, inputs[0]);
        if s.1 {
            s.0 + run_relay(send, recv, inputs.skip(1))
        } else {
            s.0
        }
    }
}

/// The send dispatch of the pass-through handler: one upstream write,
/// the event unchanged.
pub open spec fn nop_send(e: EventV) -> Seq<ActionV> {
    seq![ActionV::Up(e)]
}

/// The receive dispatch of the pass-through handler: one downstream write,
/// the event unchanged, wrapped as a success.
pub open spec fn nop_recv(e: EventV) -> Seq<ActionV> {
    seq![ActionV::Down(Ok(e))]
}

/// What a pass-through relay run must write: each downstream arrival goes
/// upstream unchanged, each upstream arrival goes downstream unchanged and
/// in order; end-of-stream on either side ends the run with nothing more
/// written; an upstream read error is written downstream exactly once and
/// ends the run.
pub open spec fn nop_expected(inputs: Seq<RelayInV>) -> Seq<ActionV>
    decreases inputs.len(),
{
    if inputs.len() == 0 {
        Seq::empty()
    } else {
        match inputs[0] {
            RelayInV::FromDown(e) => seq![ActionV::Up(e)] + nop_expected(inputs.skip(1)),
            RelayInV::FromUp(e) => seq![ActionV::Down(Ok(e))] + nop_expected(inputs.skip(1)),
            RelayInV::DownClosed => Seq::empty(),
            RelayInV::UpClosed => Seq::empty(),
            RelayInV::UpFailed(err) => seq![ActionV::Down(Err(err))],
        }
    }
}

/// Relay pass-through: a pass-through handler spliced between two
/// connections delivers every event unchanged and in order, on whichever
/// side it arrived; upstream end-of-stream terminates the relay, and an
/// upstream read error terminates it after being delivered downstream
/// exactly once.
pub proof fn lemma_nop_relay(inputs: Seq<RelayInV>)
    ensures
        run_relay(|e: EventV| nop_send(e), |e: EventV| nop_recv(e), inputs) == nop_expected(inputs),
    decreases inputs.len(),
{
    if inputs.len() == 0 {
    } else {
        lemma_nop_relay(inputs.skip(1));
    }
}

/// The send dispatch of the locally-granting handler: negotiations are
/// answered downstream with `WILL`, everything else goes upstream
/// unchanged.
pub open spec fn will_send(e: EventV) -> Seq<ActionV> {
    match e {
        EventV::Negotiation(_, o) => seq![
            ActionV::Down(Ok(EventV::Negotiation(crate::op::Cmd::WILL, o))),
        ],
        _ => seq![ActionV::Up(e)],
    }
}

/// Handler override: with a handler that answers every negotiation locally
/// and never forwards one upstream, no negotiation event ever reaches the
/// upstream sink, across arbitrarily many negotiation attempts.
pub proof fn lemma_will_relay_no_upstream_negotiation(inputs: Seq<RelayInV>)
    ensures
        forall|a: ActionV|
            run_relay(|e: EventV| will_send(e), |e: EventV| nop_recv(e), inputs).contains(a)
                ==> !(a matches ActionV::Up(EventV::Negotiation(_, _))),
    decreases inputs.len(),
{
    let acts = run_relay(|e: EventV| will_send(e), |e: EventV| nop_recv(e), inputs);
    if inputs.len() == 0 {
    } else {
        lemma_will_relay_no_upstream_negotiation(inputs.skip(1));
        let rest = run_relay(|e: EventV| will_send(e), |e: EventV| nop_recv(e), inputs.skip(1));
        assert forall|a: ActionV| acts.contains(a) implies !(a matches ActionV::Up(
            EventV::Negotiation(_, _),
        )) by {
            let s = relay_step_spec(
                |e: EventV| will_send(e),
                |e: EventV| nop_recv(e),
                inputs[0],
            );
            if s.1 {
                assert(acts == s.0 + rest);
                let i = choose|i: int| 0 <= i < acts.len() && acts[i] == a;
                if i < s.0.len() {
                    assert(s.0.contains(a));
                } else {
                    assert(rest[i - s.0.len()] == a);
                    assert(rest.contains(a));
                }
            } else {
                assert(acts == s.0);
                assert(s.0.contains(a));
            }
        }
    }
}


/// The pass-through handler's dispatchers are exactly the pure functions
/// the relay laws speak of.
pub proof fn lemma_nop_handler_dispatch(h: NopHandler, e: EventV)
    ensures
        h.send_event_spec(e) == nop_send(e),
        h.receive_event_spec(e) == nop_recv(e),
{
}

/// The locally-granting handler's dispatchers are exactly the pure
/// functions the relay laws speak of.
pub proof fn lemma_will_handler_dispatch(h: WillHandler, e: EventV)
    ensures
        h.send_event_spec(e) == will_send(e),
        h.receive_event_spec(e) == nop_recv(e),
{
}

} // verus!
