//! The interceptor layer: a polymorphic capability over the event kinds with
//! default (pure forwarding) behavior, overridable per kind and per
//! direction. A handler computes, for one event, the writes to perform on
//! the two sides of its channel; the relay loop that owns the channel
//! carries them out.
use vstd::prelude::*;

use crate::codec::{Error, ErrorV};
use crate::event::{Event, EventV};
use crate::op::{Cmd, Opt};

verus! {

/// One write a handler asks for: an event toward the real remote party, or
/// a delivery (event or failure) toward the local consumer.
#[derive(Debug)]
pub enum Action {
    /// Write an event to the upstream side.
    Up(Event),
    /// Write a delivery to the downstream side.
    Down(Result<Event, Error>),
}

/// The mathematical shape of an action.
pub enum ActionV {
    /// A write to the upstream side.
    Up(EventV),
    /// A write to the downstream side.
    Down(Result<EventV, ErrorV>),
}

impl View for Action {
    type V = ActionV;

    open spec fn view(&self) -> ActionV {
        match self {
            Action::Up(e) => ActionV::Up(e@),
            Action::Down(r) => ActionV::Down(
                match r {
                    Ok(e) => Ok(e@),
                    Err(er) => Err(er@),
                },
            ),
        }
    }
}

/// The shapes of a batch of actions, in order.
pub open spec fn actions_view(v: Vec<Action>) -> Seq<ActionV> {
    v@.map_values(|a: Action| a@)
}

/// The default send path: forward the event unchanged to the upstream side.
pub open spec fn forward_up_spec(e: EventV) -> Seq<ActionV> {
    seq![ActionV::Up(e)]
}

/// The default receive path: forward the event, wrapped as a success, to
/// the downstream side.
pub open spec fn forward_down_spec(e: EventV) -> Seq<ActionV> {
    seq![ActionV::Down(Ok(e))]
}

/// Build the single upstream write of the default send path.
pub fn forward_up(e: Event) -> (acts: Vec<Action>)
    ensures
        actions_view(acts) == forward_up_spec(e@),
{
    let ghost ev = e@;
    let mut acts: Vec<Action> = Vec::new();
    acts.push(Action::Up(e));
    proof {
        assert(actions_view(acts) =~= forward_up_spec(ev));
    }
    acts
}

/// Build the single downstream write of the default receive path.
pub fn forward_down(e: Event) -> (acts: Vec<Action>)
    ensures
        actions_view(acts) == forward_down_spec(e@),
{
    let ghost ev = e@;
    let mut acts: Vec<Action> = Vec::new();
    acts.push(Action::Down(Ok(e)));
    proof {
        assert(actions_view(acts) =~= forward_down_spec(ev));
    }
    acts
}

/// An interceptor: eight hook points, `{send, receive}` crossed with the
/// four event kinds, and two dispatch entry points that route an event to
/// the hook matching its variant. Each hook states its behavior as a spec
/// function, so that what a composed pipeline does is a matter of proof.
pub trait Handler: Sized {
    /// What the send path does with a data run; by default it is
    /// forwarded unchanged to the upstream side.
    open spec fn send_data_spec(&self, d: Seq<u8>) -> Seq<ActionV> {
        forward_up_spec(EventV::Data(d))
    }

    /// What the send path does with a bare command; forwarded upstream by
    /// default.
    open spec fn send_cmd_spec(&self, c: Cmd) -> Seq<ActionV> {
        forward_up_spec(EventV::Cmd(c))
    }

    /// What the send path does with a negotiation; forwarded upstream by
    /// default.
    open spec fn send_negotiation_spec(&self, c: Cmd, o: Opt) -> Seq<ActionV> {
        forward_up_spec(EventV::Negotiation(c, o))
    }

    /// What the send path does with a subnegotiation; forwarded upstream
    /// by default.
    open spec fn send_subnegotiation_spec(&self, o: Opt, p: Seq<u8>) -> Seq<ActionV> {
        forward_up_spec(EventV::Subnegotiation(o, p))
    }

    /// What the receive path does with a data run; by default it is
    /// forwarded unchanged, as a success, to the downstream side.
    open spec fn receive_data_spec(&self, d: Seq<u8>) -> Seq<ActionV> {
        forward_down_spec(EventV::Data(d))
    }

    /// What the receive path does with a bare command; forwarded
    /// downstream by default.
    open spec fn receive_cmd_spec(&self, c: Cmd) -> Seq<ActionV> {
        forward_down_spec(EventV::Cmd(c))
    }

    /// What the receive path does with a negotiation; forwarded
    /// downstream by default.
    open spec fn receive_negotiation_spec(&self, c: Cmd, o: Opt) -> Seq<ActionV> {
        forward_down_spec(EventV::Negotiation(c, o))
    }

    /// What the receive path does with a subnegotiation; forwarded
    /// downstream by default.
    open spec fn receive_subnegotiation_spec(&self, o: Opt, p: Seq<u8>) -> Seq<ActionV> {
        forward_down_spec(EventV::Subnegotiation(o, p))
    }

    /// The send dispatcher routes an event by its variant.
    open spec fn send_event_spec(&self, e: EventV) -> Seq<ActionV> {
        match e {
            EventV::Data(d) => self.send_data_spec(d),
            EventV::Cmd(c) => self.send_cmd_spec(c),
            EventV::Negotiation(c, o) => self.send_negotiation_spec(c, o),
            EventV::Subnegotiation(o, p) => self.send_subnegotiation_spec(o, p),
        }
    }

    /// The receive dispatcher routes an event by its variant.
    open spec fn receive_event_spec(&self, e: EventV) -> Seq<ActionV> {
        match e {
            EventV::Data(d) => self.receive_data_spec(d),
            EventV::Cmd(c) => self.receive_cmd_spec(c),
            EventV::Negotiation(c, o) => self.receive_negotiation_spec(c, o),
            EventV::Subnegotiation(o, p) => self.receive_subnegotiation_spec(o, p),
        }
    }

    /// Handle a data run bound for the remote party.
    fn send_data(&mut self, data: Vec<u8>) -> (acts: Vec<Action>)
        ensures
            actions_view(acts) == old(self).send_data_spec(data@),
    ;

    /// Handle a bare command bound for the remote party.
    fn send_cmd(&mut self, cmd: Cmd) -> (acts: Vec<Action>)
        ensures
            actions_view(acts) == old(self).send_cmd_spec(cmd),
    ;

    /// Handle a negotiation bound for the remote party.
    fn send_negotiation(&mut self, cmd: Cmd, opt: Opt) -> (acts: Vec<Action>)
        ensures
            actions_view(acts) == old(self).send_negotiation_spec(cmd, opt),
    ;

    /// Handle a subnegotiation bound for the remote party.
    fn send_subnegotiation(&mut self, opt: Opt, params: Vec<u8>) -> (acts: Vec<Action>)
        ensures
            actions_view(acts) == old(self).send_subnegotiation_spec(opt, params@),
    ;

    /// Handle a data run arriving from the remote party.
    fn receive_data(&mut self, data: Vec<u8>) -> (acts: Vec<Action>)
        ensures
            actions_view(acts) == old(self).receive_data_spec(data@),
    ;

    /// Handle a bare command arriving from the remote party.
    fn receive_cmd(&mut self, cmd: Cmd) -> (acts: Vec<Action>)
        ensures
            actions_view(acts) == old(self).receive_cmd_spec(cmd),
    ;

    /// Handle a negotiation arriving from the remote party.
    fn receive_negotiation(&mut self, cmd: Cmd, opt: Opt) -> (acts: Vec<Action>)
        ensures
            actions_view(acts) == old(self).receive_negotiation_spec(cmd, opt),
    ;

    /// Handle a subnegotiation arriving from the remote party.
    fn receive_subnegotiation(&mut self, opt: Opt, params: Vec<u8>) -> (acts: Vec<Action>)
        ensures
            actions_view(acts) == old(self).receive_subnegotiation_spec(opt, params@),
    ;

    /// Route an event bound for the remote party to its send hook.
    fn send_event(&mut self, event: Event) -> (acts: Vec<Action>)
        ensures
            actions_view(acts) == old(self).send_event_spec(event@),
    ;

    /// Route an event arriving from the remote party to its receive hook.
    fn receive_event(&mut self, event: Event) -> (acts: Vec<Action>)
        ensures
            actions_view(acts) == old(self).receive_event_spec(event@),
    ;
}

/// The pass-through interceptor: every hook keeps its default, so each event
/// is forwarded unchanged to the opposite side.
pub struct NopHandler;

impl Handler for NopHandler {
    fn send_negotiation(&mut self, cmd: Cmd, opt: Opt) -> (acts: Vec<Action>) {
        forward_up(Event::Negotiation(cmd, opt))
    }

    fn send_data(&mut self, data: Vec<u8>) -> (acts: Vec<Action>) {
        forward_up(Event::Data(data))
    }

    fn send_cmd(&mut self, cmd: Cmd) -> (acts: Vec<Action>) {
        forward_up(Event::Cmd(cmd))
    }

    fn send_subnegotiation(&mut self, opt: Opt, params: Vec<u8>) -> (acts: Vec<Action>) {
        forward_up(Event::Subnegotiation(opt, params))
    }

    fn receive_data(&mut self, data: Vec<u8>) -> (acts: Vec<Action>) {
        forward_down(Event::Data(data))
    }

    fn receive_cmd(&mut self, cmd: Cmd) -> (acts: Vec<Action>) {
        forward_down(Event::Cmd(cmd))
    }

    fn receive_negotiation(&mut self, cmd: Cmd, opt: Opt) -> (acts: Vec<Action>) {
        forward_down(Event::Negotiation(cmd, opt))
    }

    fn receive_subnegotiation(&mut self, opt: Opt, params: Vec<u8>) -> (acts: Vec<Action>) {
        forward_down(Event::Subnegotiation(opt, params))
    }

    fn send_event(&mut self, event: Event) -> (acts: Vec<Action>) {
        match event {
            Event::Data(data) => self.send_data(data),
            Event::Cmd(cmd) => self.send_cmd(cmd),
            Event::Negotiation(cmd, opt) => self.send_negotiation(cmd, opt),
            Event::Subnegotiation(opt, params) => self.send_subnegotiation(opt, params),
        }
    }

    fn receive_event(&mut self, event: Event) -> (acts: Vec<Action>) {
        match event {
            Event::Data(data) => self.receive_data(data),
            Event::Cmd(cmd) => self.receive_cmd(cmd),
            Event::Negotiation(cmd, opt) => self.receive_negotiation(cmd, opt),
            Event::Subnegotiation(opt, params) => self.receive_subnegotiation(opt, params),
        }
    }
}

/// An interceptor that grants every negotiation locally: whatever verb the
/// consumer sends for an option, it answers `WILL` that option back to the
/// consumer and forwards nothing upstream for it. Everything else keeps the
/// default forwarding.
pub struct WillHandler;

impl Handler for WillHandler {
    open spec fn send_negotiation_spec(&self, c: Cmd, o: Opt) -> Seq<ActionV> {
        seq![ActionV::Down(Ok(EventV::Negotiation(Cmd::WILL, o)))]
    }

    fn send_negotiation(&mut self, cmd: Cmd, opt: Opt) -> (acts: Vec<Action>) {
        let ghost o = opt;
        let mut acts: Vec<Action> = Vec::new();
        acts.push(Action::Down(Ok(Event::Negotiation(Cmd::WILL, opt))));
        proof {
            assert(actions_view(acts) =~= seq![
                ActionV::Down(Ok(EventV::Negotiation(Cmd::WILL, o))),
            ]);
        }
        acts
    }

    fn send_data(&mut self, data: Vec<u8>) -> (acts: Vec<Action>) {
        forward_up(Event::Data(data))
    }

    fn send_cmd(&mut self, cmd: Cmd) -> (acts: Vec<Action>) {
        forward_up(Event::Cmd(cmd))
    }

    fn send_subnegotiation(&mut self, opt: Opt, params: Vec<u8>) -> (acts: Vec<Action>) {
        forward_up(Event::Subnegotiation(opt, params))
    }

    fn receive_data(&mut self, data: Vec<u8>) -> (acts: Vec<Action>) {
        forward_down(Event::Data(data))
    }

    fn receive_cmd(&mut self, cmd: Cmd) -> (acts: Vec<Action>) {
        forward_down(Event::Cmd(cmd))
    }

    fn receive_negotiation(&mut self, cmd: Cmd, opt: Opt) -> (acts: Vec<Action>) {
        forward_down(Event::Negotiation(cmd, opt))
    }

    fn receive_subnegotiation(&mut self, opt: Opt, params: Vec<u8>) -> (acts: Vec<Action>) {
        forward_down(Event::Subnegotiation(opt, params))
    }

    fn send_event(&mut self, event: Event) -> (acts: Vec<Action>) {
        match event {
            Event::Data(data) => self.send_data(data),
            Event::Cmd(cmd) => self.send_cmd(cmd),
            Event::Negotiation(cmd, opt) => self.send_negotiation(cmd, opt),
            Event::Subnegotiation(opt, params) => self.send_subnegotiation(opt, params),
        }
    }

    fn receive_event(&mut self, event: Event) -> (acts: Vec<Action>) {
        match event {
            Event::Data(data) => self.receive_data(data),
            Event::Cmd(cmd) => self.receive_cmd(cmd),
            Event::Negotiation(cmd, opt) => self.receive_negotiation(cmd, opt),
            Event::Subnegotiation(opt, params) => self.receive_subnegotiation(opt, params),
        }
    }
}

} // verus!
