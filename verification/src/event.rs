//! The decoded protocol unit: one structural event per wire frame.
use vstd::prelude::*;
use vstd::std_specs::cmp::PartialEqSpec;

use crate::op::{wf_opt, Cmd, Opt};

verus! {

/// A parsed telnet event.
#[derive(Debug, Clone)]
pub enum Event {
    /// In-band data. Not necessarily a full line.
    Data(Vec<u8>),
    /// A telnet command.
    Cmd(Cmd),
    /// A telnet negotiation.
    Negotiation(Cmd, Opt),
    /// A telnet subnegotiation, its payload fully unescaped.
    Subnegotiation(Opt, Vec<u8>),
}

/// The mathematical shape of an event: byte runs as sequences.
pub enum EventV {
    /// In-band data.
    Data(Seq<u8>),
    /// A bare command.
    Cmd(Cmd),
    /// A negotiation and the option it concerns.
    Negotiation(Cmd, Opt),
    /// A subnegotiation and its unescaped payload.
    Subnegotiation(Opt, Seq<u8>),
}

impl View for Event {
    type V = EventV;

    open spec fn view(&self) -> EventV {
        match self {
            Event::Data(d) => EventV::Data(d@),
            Event::Cmd(c) => EventV::Cmd(*c),
            Event::Negotiation(c, o) => EventV::Negotiation(*c, *o),
            Event::Subnegotiation(o, p) => EventV::Subnegotiation(*o, p@),
        }
    }
}

/// The events the wire format can carry distinctly: data runs are nonempty, a
/// bare command is none of the six with richer framing nor the marker itself,
/// a negotiation uses one of its four verbs, and options are canonical.
pub open spec fn wf_event(e: EventV) -> bool {
    match e {
        EventV::Data(d) => d.len() > 0,
        EventV::Cmd(c) => c != Cmd::SB && c != Cmd::SE && c != Cmd::WILL && c != Cmd::WONT && c
            != Cmd::DO && c != Cmd::DONT && c != Cmd::IAC,
        EventV::Negotiation(c, o) => (c == Cmd::WILL || c == Cmd::WONT || c == Cmd::DO || c
            == Cmd::DONT) && wf_opt(o),
        EventV::Subnegotiation(o, _) => wf_opt(o),
    }
}

impl PartialEq for Event {
    fn eq(&self, other: &Event) -> (r: bool) {
        match (self, other) {
            (Event::Data(a), Event::Data(b)) => {
                let r = *a == *b;
                proof {
                    if r {
                        assert(a@ =~= b@);
                    }
                    if a@ == b@ {
                        assert(a.eq_spec(b));
                    }
                }
                r
            },
            (Event::Cmd(a), Event::Cmd(b)) => *a == *b,
            (Event::Negotiation(c1, o1), Event::Negotiation(c2, o2)) => *c1 == *c2 && *o1 == *o2,
            (Event::Subnegotiation(o1, p1), Event::Subnegotiation(o2, p2)) => {
                let r = *o1 == *o2 && *p1 == *p2;
                proof {
                    if r {
                        assert(p1@ =~= p2@);
                    }
                    if self@ == other@ {
                        assert(p1.eq_spec(p2));
                    }
                }
                r
            },
            _ => false,
        }
    }
}

impl vstd::std_specs::cmp::PartialEqSpecImpl for Event {
    open spec fn obeys_eq_spec() -> bool {
        true
    }

    open spec fn eq_spec(&self, other: &Event) -> bool {
        self@ == other@
    }
}

impl Eq for Event {

}

} // verus!
