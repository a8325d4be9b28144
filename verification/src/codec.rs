//! The stateless encoder (events to bytes) and the event-at-a-time decode
//! loop over the incremental parser.
use vstd::prelude::*;

use crate::escape::{escape, lemma_unescape_escape, unescape, Escape};
use crate::event::{wf_event, Event, EventV};
use crate::op::{cmd_byte, cmd_from_byte, lemma_cmd_roundtrip, lemma_opt_roundtrip, opt_byte, Cmd};
use crate::parser::{
    find_iac, lemma_find_iac_bounds, spec_parse, Parsed, Parser, ParserV, StepV,
};

verus! {

/// The transport-fault type of the platform, carried through unread.
#[verifier::external_type_specification]
#[verifier::external_body]
pub struct ExIoError(std::io::Error);

/// Errors arising from the telnet codec.
#[derive(Debug)]
pub enum Error {
    /// An error occurred while parsing.
    Parse(crate::parser::Error),
    /// An error occurred in the underlying byte transport.
    Io(std::io::Error),
}

/// The mathematical shape of a codec error: a transport fault carries no
/// structure the protocol can read.
pub enum ErrorV {
    /// A parse error.
    Parse(crate::parser::Error),
    /// A transport fault.
    Io,
}

impl View for Error {
    type V = ErrorV;

    open spec fn view(&self) -> ErrorV {
        match self {
            Error::Parse(e) => ErrorV::Parse(*e),
            Error::Io(_) => ErrorV::Io,
        }
    }
}

impl From<crate::parser::Error> for Error {
    fn from(e: crate::parser::Error) -> (r: Error) {
        Error::Parse(e)
    }
}

impl vstd::std_specs::convert::FromSpecImpl<crate::parser::Error> for Error {
    open spec fn obeys_from_spec() -> bool {
        true
    }

    open spec fn from_spec(e: crate::parser::Error) -> Error {
        Error::Parse(e)
    }
}

impl From<std::io::Error> for Error {
    fn from(e: std::io::Error) -> (r: Error) {
        Error::Io(e)
    }
}

impl vstd::std_specs::convert::FromSpecImpl<std::io::Error> for Error {
    open spec fn obeys_from_spec() -> bool {
        true
    }

    open spec fn from_spec(e: std::io::Error) -> Error {
        Error::Io(e)
    }
}

/// The wire form of one event: data escaped and written raw; a command as
/// marker plus command byte; a negotiation as marker, verb and option byte;
/// a subnegotiation bracketed by marker-SB and marker-SE around the option
/// byte and the escaped payload.
pub open spec fn encode_event(e: EventV) -> Seq<u8> {
    match e {
        EventV::Data(d) => escape(d),
        EventV::Cmd(c) => seq![255u8, cmd_byte(c)],
        EventV::Negotiation(c, o) => seq![255u8, cmd_byte(c), opt_byte(o)],
        EventV::Subnegotiation(o, p) => seq![255u8, 250u8, opt_byte(o)] + escape(p) + seq![
            255u8,
            240u8,
        ],
    }
}

/// What one decode call comes to: nothing decodable yet, one event, or a
/// fatal parse error; in each case with the successor state and buffer.
pub enum DecodeV {
    /// No complete event can be formed from the bytes at hand.
    Quiet {
        /// The successor parser state.
        p: ParserV,
        /// The remaining buffer.
        buf: Seq<u8>,
    },
    /// One complete event.
    Got {
        /// The successor parser state.
        p: ParserV,
        /// The remaining buffer.
        buf: Seq<u8>,
        /// The event.
        ev: EventV,
    },
    /// A fatal parse error.
    Failed {
        /// The parser state after the failing step.
        p: ParserV,
        /// The buffer after the failing step.
        buf: Seq<u8>,
        /// The error.
        err: crate::parser::Error,
    },
}

/// An internal-progress step strictly consumes buffered bytes.
pub proof fn lemma_parse_progress_shrinks(p: ParserV, b: Seq<u8>)
    ensures
        (spec_parse(p, b) matches StepV::Progress { buf: b2, .. } ==> b2.len() < b.len()),
        (spec_parse(p, b) matches StepV::Emitted { buf: b2, .. } ==> b2.len() < b.len()),
{
    lemma_find_iac_bounds(b);
}

/// Decode steps until one event forms, no progress is possible, or parsing
/// fails: the meaning of one `decode` call.
pub open spec fn spec_decode(p: ParserV, b: Seq<u8>) -> DecodeV
    decreases b.len(),
    via spec_decode_dec
{
    if b.len() == 0 {
        DecodeV::Quiet { p, buf: b }
    } else {
        match spec_parse(p, b) {
            StepV::NeedMore => DecodeV::Quiet { p, buf: b },
            StepV::Progress { p: p2, buf: b2 } => spec_decode(p2, b2),
            StepV::Emitted { p: p2, buf: b2, ev } => DecodeV::Got { p: p2, buf: b2, ev },
            StepV::Failed { p: p2, buf: b2, err } => DecodeV::Failed { p: p2, buf: b2, err },
        }
    }
}

#[via_fn]
proof fn spec_decode_dec(p: ParserV, b: Seq<u8>) {
    lemma_parse_progress_shrinks(p, b);
}

impl Parser {
    /// Decode at most one event from the caller's buffer, consuming exactly
    /// the bytes the abstract machine consumes; `Ok(None)` means no complete
    /// event can be formed until more bytes arrive.
    pub fn decode(&mut self, buf: &mut Vec<u8>) -> (r: Result<Option<Event>, Error>)
        requires
            old(self)@.wf(),
        ensures
            final(self)@.wf(),
            ({
                let d = spec_decode(old(self)@, old(buf)@);
                match d {
                    DecodeV::Quiet { p, buf: b } => r matches Ok(None) && final(self)@ == p
                        && final(buf)@ == b,
                    DecodeV::Got { p, buf: b, ev } => (r matches Ok(Some(e)) && e@ == ev)
                        && final(self)@ == p && final(buf)@ == b,
                    DecodeV::Failed { p, buf: b, err } => (r matches Err(e) && e@ == ErrorV::Parse(
                        err,
                    )) && final(self)@ == p && final(buf)@ == b,
                }
            }),
    {
        loop
            invariant
                self@.wf(),
                spec_decode(old(self)@, old(buf)@) == spec_decode(self@, buf@),
            decreases buf@.len(),
        {
            if buf.is_empty() {
                return Ok(None);
            }
            proof {
                lemma_parse_progress_shrinks(self@, buf@);
            }
            match self.parse(buf) {
                Err(e) => {
                    return Err(Error::Parse(e));
                },
                Ok(Parsed::Progress) => {
                },
                Ok(Parsed::NeedMore) => {
                    return Ok(None);
                },
                Ok(Parsed::Event(ev)) => {
                    return Ok(Some(ev));
                },
            }
        }
    }

    /// Serialize one event onto the end of `dst` in its exact wire form.
    /// Encoding cannot fail on well-formed events; only the transport write
    /// that follows can.
    pub fn encode(&self, item: Event, dst: &mut Vec<u8>)
        ensures
            final(dst)@ == old(dst)@ + encode_event(item@),
    {
        match item {
            Event::Data(bytes) => {
                bytes.escape_to(dst);
            },
            Event::Cmd(cmd) => {
                dst.push(255);
                dst.push(cmd.byte());
                proof {
                    assert(dst@ =~= old(dst)@ + encode_event(EventV::Cmd(cmd)));
                }
            },
            Event::Negotiation(cmd, opt) => {
                dst.push(255);
                dst.push(cmd.byte());
                dst.push(opt.byte());
                proof {
                    assert(dst@ =~= old(dst)@ + encode_event(EventV::Negotiation(cmd, opt)));
                }
            },
            Event::Subnegotiation(opt, params) => {
                dst.push(255);
                dst.push(250);
                dst.push(opt.byte());
                params.escape_to(dst);
                dst.push(255);
                dst.push(240);
                proof {
                    assert(dst@ =~= old(dst)@ + encode_event(
                        EventV::Subnegotiation(opt, params@),
                    ));
                }
            },
        }
    }
}


/// Escaping never shortens a run.
pub proof fn lemma_escape_len(d: Seq<u8>)
    ensures
        escape(d).len() >= d.len(),
    decreases d.len(),
{
    if d.len() > 0 {
        lemma_escape_len(d.skip(1));
    }
}

/// Scanning past escaped output finds only what stands after it: every
/// marker inside is doubled, so the first unescaped marker of
/// `escape(d) + t` is the first unescaped marker of `t`, shifted.
pub proof fn lemma_find_iac_escape_prefix(d: Seq<u8>, t: Seq<u8>)
    ensures
        find_iac(escape(d) + t) == (match find_iac(t) {
            None => None,
            Some(j) => Some(escape(d).len() + j),
        }),
    decreases d.len(),
{
    let s = escape(d) + t;
    if d.len() == 0 {
        assert(s =~= t);
    } else if d[0] == 255 {
        lemma_find_iac_escape_prefix(d.skip(1), t);
        assert(escape(d) == seq![255u8, 255u8] + escape(d.skip(1)));
        assert(s.len() >= 2 && s[0] == 255 && s[1] == 255);
        assert(s.skip(2) =~= escape(d.skip(1)) + t);
    } else {
        lemma_find_iac_escape_prefix(d.skip(1), t);
        assert(escape(d) == seq![d[0]] + escape(d.skip(1)));
        assert(s[0] == d[0] && d[0] != 255);
        assert(s.skip(1) =~= escape(d.skip(1)) + t);
    }
}

/// Escaped output holds no unescaped marker at all.
pub proof fn lemma_find_iac_escape(d: Seq<u8>)
    ensures
        find_iac(escape(d)) is None,
{
    lemma_find_iac_escape_prefix(d, Seq::empty());
    assert(escape(d) + Seq::<u8>::empty() =~= escape(d));
    assert(find_iac(Seq::<u8>::empty()) is None);
}

/// Round-trip: any well-formed event, emitted by the encoder and fed to the
/// decoder from a fresh parser, is decoded back exactly, consuming the whole
/// encoding and leaving the parser fresh.
pub proof fn lemma_round_trip(ev: EventV)
    requires
        wf_event(ev),
    ensures
        spec_decode(ParserV::init(), encode_event(ev)) == (DecodeV::Got {
            p: ParserV::init(),
            buf: Seq::empty(),
            ev,
        }),
{
    let p0 = ParserV::init();
    let w = encode_event(ev);
    match ev {
        EventV::Data(d) => {
            lemma_find_iac_escape(d);
            lemma_escape_len(d);
            lemma_unescape_escape(d);
            assert(w.take(w.len() as int) =~= w);
            assert(w.skip(w.len() as int) =~= Seq::<u8>::empty());
            assert(spec_parse(p0, w) == StepV::Emitted {
                p: p0,
                buf: Seq::<u8>::empty(),
                ev: EventV::Data(d),
            });
        },
        EventV::Cmd(c) => {
            lemma_cmd_roundtrip(c);
            assert(w[0] == 255 && w[1] == cmd_byte(c));
            assert(cmd_byte(c) != 255);
            assert(find_iac(w) == Some(0int));
            assert(w.skip(2) =~= Seq::<u8>::empty());
            assert(spec_parse(p0, w) == StepV::Emitted {
                p: p0,
                buf: Seq::<u8>::empty(),
                ev: EventV::Cmd(c),
            });
        },
        EventV::Negotiation(c, o) => {
            lemma_cmd_roundtrip(c);
            lemma_opt_roundtrip(o);
            assert(w[0] == 255 && w[1] == cmd_byte(c) && w[2] == opt_byte(o));
            assert(cmd_byte(c) != 255);
            assert(find_iac(w) == Some(0int));
            assert(w.skip(3) =~= Seq::<u8>::empty());
            assert(spec_parse(p0, w) == StepV::Emitted {
                p: p0,
                buf: Seq::<u8>::empty(),
                ev: EventV::Negotiation(c, o),
            });
        },
        EventV::Subnegotiation(o, p) => {
            lemma_opt_roundtrip(o);
            let tail = seq![255u8, 240u8];
            assert(w[0] == 255 && w[1] == 250 && w[2] == opt_byte(o));
            assert(w[1] != 255);
            assert(find_iac(w) == Some(0int));
            assert(cmd_from_byte(250) == Some(Cmd::SB));
            let p1 = ParserV { sb_opt: Some(o), sb_params: Some(Seq::empty()) };
            let b1 = escape(p) + tail;
            assert(w.skip(3) =~= b1);
            assert(spec_parse(p0, w) == StepV::Progress { p: p1, buf: b1 });
            assert(w.len() > 0);
            assert(spec_decode(p0, w) == spec_decode(p1, b1));
            lemma_find_iac_escape_prefix(p, tail);
            assert(find_iac(tail) == Some(0int));
            let ll = escape(p).len() as int;
            if p.len() == 0 {
                assert(p =~= Seq::<u8>::empty());
                assert(b1 =~= tail);
                assert(find_iac(b1) == Some(0int));
                assert(cmd_from_byte(240) == Some(Cmd::SE));
                assert(b1.skip(2) =~= Seq::<u8>::empty());
                assert(spec_parse(p1, b1) == StepV::Emitted {
                    p: ParserV::init(),
                    buf: Seq::<u8>::empty(),
                    ev: EventV::Subnegotiation(o, p),
                });
                assert(spec_decode(p1, b1) == (DecodeV::Got {
                    p: ParserV::init(),
                    buf: Seq::<u8>::empty(),
                    ev,
                }));
            } else {
                lemma_escape_len(p);
                lemma_unescape_escape(p);
                assert(find_iac(b1) == Some(ll));
                assert(ll > 0);
                assert(b1.take(ll) =~= escape(p));
                assert(b1.skip(ll) =~= tail);
                let p2 = ParserV { sb_opt: Some(o), sb_params: Some(p) };
                assert(Seq::<u8>::empty() + unescape(escape(p)) =~= p);
                assert(spec_parse(p1, b1) == StepV::Progress { p: p2, buf: tail });
                assert(spec_decode(p1, b1) == spec_decode(p2, tail));
                assert(find_iac(tail) == Some(0int));
                assert(cmd_from_byte(240) == Some(Cmd::SE));
                assert(tail.skip(2) =~= Seq::<u8>::empty());
                assert(spec_parse(p2, tail) == StepV::Emitted {
                    p: ParserV::init(),
                    buf: Seq::<u8>::empty(),
                    ev: EventV::Subnegotiation(o, p),
                });
                assert(spec_decode(p2, tail) == (DecodeV::Got {
                    p: ParserV::init(),
                    buf: Seq::<u8>::empty(),
                    ev,
                }));
            }
        },
    }
}


/// The value of one decode call shrinks or keeps the buffer.
pub proof fn lemma_decode_consumes(p: ParserV, b: Seq<u8>)
    ensures
        (spec_decode(p, b) matches DecodeV::Got { buf: b2, .. } ==> b2.len() < b.len()),
        (spec_decode(p, b) matches DecodeV::Quiet { buf: b2, .. } ==> b2.len() <= b.len()),
    decreases b.len(),
{
    if b.len() == 0 {
    } else {
        lemma_parse_progress_shrinks(p, b);
        match spec_parse(p, b) {
            StepV::Progress { p: p2, buf: b2 } => {
                lemma_decode_consumes(p2, b2);
            },
            _ => {},
        }
    }
}

/// What a whole feed of buffered bytes comes to: the events decoded in
/// order until no more progress is possible, or those decoded before a
/// fatal parse error.
pub enum DrainV {
    /// The feed ran dry without error.
    Done {
        /// The final parser state.
        p: ParserV,
        /// The bytes left undecoded, awaiting more input.
        buf: Seq<u8>,
        /// The events decoded, in order.
        evs: Seq<EventV>,
    },
    /// Parsing failed.
    Failed {
        /// The parser state after the failing step.
        p: ParserV,
        /// The buffer after the failing step.
        buf: Seq<u8>,
        /// The events decoded before the error, in order.
        evs: Seq<EventV>,
        /// The error.
        err: crate::parser::Error,
    },
}

/// Decode events one after another until no complete event can be formed
/// or parsing fails: the meaning of calling `decode` repeatedly on one
/// buffer.
pub open spec fn spec_drain(p: ParserV, b: Seq<u8>) -> DrainV
    decreases b.len(),
    via spec_drain_dec
{
    match spec_decode(p, b) {
        DecodeV::Quiet { p: p2, buf: b2 } => DrainV::Done { p: p2, buf: b2, evs: Seq::empty() },
        DecodeV::Got { p: p2, buf: b2, ev } => match spec_drain(p2, b2) {
            DrainV::Done { p: p3, buf: b3, evs } => DrainV::Done {
                p: p3,
                buf: b3,
                evs: seq![ev] + evs,
            },
            DrainV::Failed { p: p3, buf: b3, evs, err } => DrainV::Failed {
                p: p3,
                buf: b3,
                evs: seq![ev] + evs,
                err,
            },
        },
        DecodeV::Failed { p: p2, buf: b2, err } => DrainV::Failed {
            p: p2,
            buf: b2,
            evs: Seq::empty(),
            err,
        },
    }
}

#[via_fn]
proof fn spec_drain_dec(p: ParserV, b: Seq<u8>) {
    lemma_decode_consumes(p, b);
}

/// An empty feed decodes nothing and changes nothing.
pub proof fn lemma_drain_nil(p: ParserV)
    ensures
        spec_drain(p, Seq::empty()) == (DrainV::Done {
            p,
            buf: Seq::<u8>::empty(),
            evs: Seq::<EventV>::empty(),
        }),
{
}

/// A whole well-formed encoding drains to exactly its event.
pub proof fn lemma_drain_encoded(ev: EventV)
    requires
        wf_event(ev),
    ensures
        spec_drain(ParserV::init(), encode_event(ev)) == (DrainV::Done {
            p: ParserV::init(),
            buf: Seq::<u8>::empty(),
            evs: seq![ev],
        }),
{
    lemma_round_trip(ev);
    lemma_drain_nil(ParserV::init());
    assert(seq![ev] + Seq::<EventV>::empty() =~= seq![ev]);
}

/// The subnegotiation state holding option `o` and accumulated payload
/// `acc`.
pub open spec fn sb_state(o: crate::op::Opt, acc: Seq<u8>) -> ParserV {
    ParserV { sb_opt: Some(o), sb_params: Some(acc) }
}

/// Outside a subnegotiation, a fresh parser drains pure escaped output to
/// one data event (or nothing, when the run is empty), leaving the buffer
/// empty.
pub proof fn lemma_drain_escaped(d: Seq<u8>)
    ensures
        spec_drain(ParserV::init(), escape(d)) == (DrainV::Done {
            p: ParserV::init(),
            buf: Seq::<u8>::empty(),
            evs: if d.len() == 0 {
                Seq::<EventV>::empty()
            } else {
                seq![EventV::Data(d)]
            },
        }),
{
    if d.len() == 0 {
        assert(escape(d) =~= Seq::<u8>::empty());
        lemma_drain_nil(ParserV::init());
    } else {
        lemma_drain_encoded(EventV::Data(d));
    }
}

/// As `lemma_drain_escaped`, with half a doubled marker after the escaped
/// output: the lone trailing marker is left in the buffer, never consumed
/// as data.
pub proof fn lemma_drain_escaped_half(d: Seq<u8>)
    ensures
        spec_drain(ParserV::init(), escape(d) + seq![255u8]) == (DrainV::Done {
            p: ParserV::init(),
            buf: seq![255u8],
            evs: if d.len() == 0 {
                Seq::<EventV>::empty()
            } else {
                seq![EventV::Data(d)]
            },
        }),
{
    let p0 = ParserV::init();
    let b = escape(d) + seq![255u8];
    lemma_find_iac_escape_prefix(d, seq![255u8]);
    assert(find_iac(seq![255u8]) == Some(0int));
    let ll = escape(d).len() as int;
    assert(find_iac(b) == Some(ll));
    if d.len() == 0 {
        assert(b =~= seq![255u8]);
        assert(spec_parse(p0, b) == StepV::NeedMore);
        assert(spec_decode(p0, b) == (DecodeV::Quiet { p: p0, buf: b }));
        assert(spec_drain(p0, b) == (DrainV::Done { p: p0, buf: b, evs: Seq::<EventV>::empty() }));
    } else {
        lemma_escape_len(d);
        lemma_unescape_escape(d);
        assert(b.take(ll) =~= escape(d));
        assert(b.skip(ll) =~= seq![255u8]);
        assert(spec_parse(p0, b) == StepV::Emitted {
            p: p0,
            buf: seq![255u8],
            ev: EventV::Data(d),
        });
        assert(spec_decode(p0, b) == (DecodeV::Got { p: p0, buf: seq![255u8], ev: EventV::Data(d) }));
        assert(spec_parse(p0, seq![255u8]) == StepV::NeedMore);
        assert(spec_decode(p0, seq![255u8]) == (DecodeV::Quiet { p: p0, buf: seq![255u8] }));
        assert(spec_drain(p0, seq![255u8]) == (DrainV::Done {
            p: p0,
            buf: seq![255u8],
            evs: Seq::<EventV>::empty(),
        }));
        assert(spec_drain(p0, b) == (DrainV::Done {
            p: p0,
            buf: seq![255u8],
            evs: seq![EventV::Data(d)] + Seq::<EventV>::empty(),
        }));
        assert(seq![EventV::Data(d)] + Seq::<EventV>::empty() =~= seq![EventV::Data(d)]);
    }
}

/// Inside a subnegotiation, pure escaped output is unescaped into the
/// accumulator and nothing is emitted.
pub proof fn lemma_drain_sb_escaped(o: crate::op::Opt, acc: Seq<u8>, d: Seq<u8>)
    ensures
        spec_drain(sb_state(o, acc), escape(d)) == (DrainV::Done {
            p: sb_state(o, acc + d),
            buf: Seq::<u8>::empty(),
            evs: Seq::<EventV>::empty(),
        }),
{
    let p0 = sb_state(o, acc);
    if d.len() == 0 {
        assert(escape(d) =~= Seq::<u8>::empty());
        lemma_drain_nil(p0);
        assert(acc + d =~= acc);
    } else {
        lemma_find_iac_escape(d);
        lemma_escape_len(d);
        lemma_unescape_escape(d);
        let w = escape(d);
        assert(w.take(w.len() as int) =~= w);
        assert(w.skip(w.len() as int) =~= Seq::<u8>::empty());
        assert(spec_parse(p0, w) == StepV::Progress {
            p: sb_state(o, acc + d),
            buf: Seq::<u8>::empty(),
        });
        assert(spec_decode(p0, w) == spec_decode(sb_state(o, acc + d), Seq::empty()));
        assert(spec_decode(sb_state(o, acc + d), Seq::empty()) == (DecodeV::Quiet {
            p: sb_state(o, acc + d),
            buf: Seq::<u8>::empty(),
        }));
    }
}

/// As `lemma_drain_sb_escaped`, with half a doubled marker trailing: the
/// lone marker stays in the buffer.
pub proof fn lemma_drain_sb_escaped_half(o: crate::op::Opt, acc: Seq<u8>, d: Seq<u8>)
    ensures
        spec_drain(sb_state(o, acc), escape(d) + seq![255u8]) == (DrainV::Done {
            p: sb_state(o, acc + d),
            buf: seq![255u8],
            evs: Seq::<EventV>::empty(),
        }),
{
    let p0 = sb_state(o, acc);
    let b = escape(d) + seq![255u8];
    lemma_find_iac_escape_prefix(d, seq![255u8]);
    assert(find_iac(seq![255u8]) == Some(0int));
    let ll = escape(d).len() as int;
    assert(find_iac(b) == Some(ll));
    if d.len() == 0 {
        assert(b =~= seq![255u8]);
        assert(spec_parse(p0, b) == StepV::NeedMore);
        assert(spec_decode(p0, b) == (DecodeV::Quiet { p: p0, buf: b }));
        assert(acc + d =~= acc);
    } else {
        lemma_escape_len(d);
        lemma_unescape_escape(d);
        assert(b.take(ll) =~= escape(d));
        assert(b.skip(ll) =~= seq![255u8]);
        let p1 = sb_state(o, acc + d);
        assert(spec_parse(p0, b) == StepV::Progress { p: p1, buf: seq![255u8] });
        assert(spec_decode(p0, b) == spec_decode(p1, seq![255u8]));
        assert(spec_parse(p1, seq![255u8]) == StepV::NeedMore);
        assert(spec_decode(p1, seq![255u8]) == (DecodeV::Quiet { p: p1, buf: seq![255u8] }));
        assert(spec_drain(p0, b) == (DrainV::Done {
            p: p1,
            buf: seq![255u8],
            evs: Seq::<EventV>::empty(),
        }));
    }
}

/// Inside a subnegotiation, escaped output followed by the closing
/// marker-SE pair drains to the finished subnegotiation event.
pub proof fn lemma_drain_sb_finish(o: crate::op::Opt, acc: Seq<u8>, d: Seq<u8>)
    requires
        crate::op::wf_opt(o),
    ensures
        spec_drain(sb_state(o, acc), escape(d) + seq![255u8, 240u8]) == (DrainV::Done {
            p: ParserV::init(),
            buf: Seq::<u8>::empty(),
            evs: seq![EventV::Subnegotiation(o, acc + d)],
        }),
{
    let p0 = sb_state(o, acc);
    let tail = seq![255u8, 240u8];
    let b = escape(d) + tail;
    lemma_find_iac_escape_prefix(d, tail);
    assert(find_iac(tail) == Some(0int));
    let ll = escape(d).len() as int;
    assert(find_iac(b) == Some(ll));
    let pmid = sb_state(o, acc + d);
    if d.len() == 0 {
        assert(b =~= tail);
        assert(acc + d =~= acc);
    } else {
        lemma_escape_len(d);
        lemma_unescape_escape(d);
        assert(b.take(ll) =~= escape(d));
        assert(b.skip(ll) =~= tail);
        assert(spec_parse(p0, b) == StepV::Progress { p: pmid, buf: tail });
        assert(spec_decode(p0, b) == spec_decode(pmid, tail));
    }
    assert(cmd_from_byte(240) == Some(Cmd::SE));
    assert(find_iac(tail) == Some(0int));
    assert(tail.skip(2) =~= Seq::<u8>::empty());
    assert(spec_parse(pmid, tail) == StepV::Emitted {
        p: ParserV::init(),
        buf: Seq::<u8>::empty(),
        ev: EventV::Subnegotiation(o, acc + d),
    });
    assert(spec_decode(pmid, tail) == (DecodeV::Got {
        p: ParserV::init(),
        buf: Seq::<u8>::empty(),
        ev: EventV::Subnegotiation(o, acc + d),
    }));
    lemma_drain_nil(ParserV::init());
    assert(spec_drain(pmid, tail) == (DrainV::Done {
        p: ParserV::init(),
        buf: Seq::<u8>::empty(),
        evs: seq![EventV::Subnegotiation(o, acc + d)] + Seq::<EventV>::empty(),
    }));
    assert(seq![EventV::Subnegotiation(o, acc + d)] + Seq::<EventV>::empty() =~= seq![
        EventV::Subnegotiation(o, acc + d),
    ]);
}

/// Whether every event of a run is a data event.
pub open spec fn all_data(evs: Seq<EventV>) -> bool {
    forall|i: int| 0 <= i < evs.len() ==> evs[i] is Data
}

/// The bytes a run of data events carries, in order.
pub open spec fn data_contents(evs: Seq<EventV>) -> Seq<u8>
    decreases evs.len(),
{
    if evs.len() == 0 {
        Seq::empty()
    } else {
        (match evs[0] {
            EventV::Data(d) => d,
            _ => Seq::empty(),
        }) + data_contents(evs.skip(1))
    }
}

/// Partial-buffer equivalence for framed events: feeding a command,
/// negotiation or subnegotiation encoding whole, or split at any byte
/// boundary across two calls, decodes to exactly that one event, consuming
/// everything and leaving the parser fresh.
#[verifier::rlimit(100)]
pub proof fn lemma_split_feed(ev: EventV, k: int)
    requires
        wf_event(ev),
        !(ev is Data),
        0 <= k <= encode_event(ev).len(),
    ensures
        ({
            let w = encode_event(ev);
            match spec_drain(ParserV::init(), w.take(k)) {
                DrainV::Done { p: p1, buf: b1, evs: evs1 } => match spec_drain(p1, b1 + w.skip(k)) {
                    DrainV::Done { p: p2, buf: b2, evs: evs2 } => p2 == ParserV::init() && b2
                        == Seq::<u8>::empty() && evs1 + evs2 == seq![ev],
                    _ => false,
                },
                _ => false,
            }
        }),
{
    let p0 = ParserV::init();
    let w = encode_event(ev);
    let piece1 = w.take(k);
    if k == 0 {
        assert(piece1 =~= Seq::<u8>::empty());
        lemma_drain_nil(p0);
        assert(Seq::<u8>::empty() + w.skip(0) =~= w);
        lemma_drain_encoded(ev);
        assert(Seq::<EventV>::empty() + seq![ev] =~= seq![ev]);
    } else if k == w.len() {
        assert(piece1 =~= w);
        lemma_drain_encoded(ev);
        assert(Seq::<u8>::empty() + w.skip(k) =~= Seq::<u8>::empty());
        lemma_drain_nil(p0);
        assert(seq![ev] + Seq::<EventV>::empty() =~= seq![ev]);
    } else {
        match ev {
            EventV::Data(_) => {
                assert(false);
            },
            EventV::Cmd(c) => {
                assert(k == 1);
                assert(piece1 =~= seq![255u8]);
                assert(spec_parse(p0, piece1) == StepV::NeedMore);
                assert(spec_decode(p0, piece1) == (DecodeV::Quiet { p: p0, buf: piece1 }));
                assert(piece1 + w.skip(1) =~= w);
                lemma_drain_encoded(ev);
                assert(Seq::<EventV>::empty() + seq![ev] =~= seq![ev]);
            },
            EventV::Negotiation(c, o) => {
                assert(piece1[0] == 255);
                if k == 2 {
                    assert(piece1[1] == cmd_byte(c));
                    assert(cmd_byte(c) != 255);
                    assert(find_iac(piece1) == Some(0int));
                    lemma_cmd_roundtrip(c);
                    assert(spec_parse(p0, piece1) == StepV::NeedMore);
                } else {
                    assert(k == 1);
                    assert(piece1 =~= seq![255u8]);
                    assert(spec_parse(p0, piece1) == StepV::NeedMore);
                }
                assert(spec_decode(p0, piece1) == (DecodeV::Quiet { p: p0, buf: piece1 }));
                assert(piece1 + w.skip(k) =~= w);
                lemma_drain_encoded(ev);
                assert(Seq::<EventV>::empty() + seq![ev] =~= seq![ev]);
            },
            EventV::Subnegotiation(o, p) => {
                lemma_opt_roundtrip(o);
                let hdr = seq![255u8, 250u8, opt_byte(o)];
                let ee = escape(p);
                let ll = ee.len() as int;
                let tail = seq![255u8, 240u8];
                assert(w == hdr + ee + tail);
                assert(w.len() == 3 + ll + 2);
                if k == 1 {
                    assert(piece1 =~= seq![255u8]);
                    assert(spec_parse(p0, piece1) == StepV::NeedMore);
                    assert(spec_decode(p0, piece1) == (DecodeV::Quiet { p: p0, buf: piece1 }));
                    assert(piece1 + w.skip(k) =~= w);
                    lemma_drain_encoded(ev);
                    assert(Seq::<EventV>::empty() + seq![ev] =~= seq![ev]);
                } else if k == 2 {
                    assert(piece1 =~= seq![255u8, 250u8]);
                    assert(find_iac(piece1) == Some(0int));
                    assert(cmd_from_byte(250) == Some(Cmd::SB));
                    assert(spec_parse(p0, piece1) == StepV::NeedMore);
                    assert(spec_decode(p0, piece1) == (DecodeV::Quiet { p: p0, buf: piece1 }));
                    assert(piece1 + w.skip(k) =~= w);
                    lemma_drain_encoded(ev);
                    assert(Seq::<EventV>::empty() + seq![ev] =~= seq![ev]);
                } else if k <= 3 + ll {
                    let kk = k - 3;
                    assert(piece1[0] == 255 && piece1[1] == 250 && piece1[2] == opt_byte(o));
                    assert(find_iac(piece1) == Some(0int));
                    assert(cmd_from_byte(250) == Some(Cmd::SB));
                    let pstart = sb_state(o, Seq::empty());
                    assert(piece1.skip(3) =~= ee.take(kk));
                    assert(spec_parse(p0, piece1) == StepV::Progress {
                        p: pstart,
                        buf: ee.take(kk),
                    });
                    assert(spec_decode(p0, piece1) == spec_decode(pstart, ee.take(kk)));
                    assert(spec_drain(p0, piece1) == spec_drain(pstart, ee.take(kk)));
                    crate::escape::lemma_escape_split(p, kk);
                    let j = crate::escape::esc_count(p, kk);
                    if !crate::escape::esc_half(p, kk) {
                        lemma_drain_sb_escaped(o, Seq::empty(), p.take(j));
                        assert(Seq::<u8>::empty() + p.take(j) =~= p.take(j));
                        assert(spec_drain(pstart, ee.take(kk)) == (DrainV::Done {
                            p: sb_state(o, p.take(j)),
                            buf: Seq::<u8>::empty(),
                            evs: Seq::<EventV>::empty(),
                        }));
                        assert(w.skip(k) =~= ee.skip(kk) + tail);
                        assert(Seq::<u8>::empty() + w.skip(k) =~= escape(p.skip(j)) + tail);
                        lemma_drain_sb_finish(o, p.take(j), p.skip(j));
                        assert(p.take(j) + p.skip(j) =~= p);
                        assert(Seq::<EventV>::empty() + seq![ev] =~= seq![ev]);
                    } else {
                        lemma_drain_sb_escaped_half(o, Seq::empty(), p.take(j));
                        assert(Seq::<u8>::empty() + p.take(j) =~= p.take(j));
                        assert(spec_drain(pstart, ee.take(kk)) == (DrainV::Done {
                            p: sb_state(o, p.take(j)),
                            buf: seq![255u8],
                            evs: Seq::<EventV>::empty(),
                        }));
                        assert(w.skip(k) =~= ee.skip(kk) + tail);
                        assert(ee.skip(kk) == seq![255u8] + escape(p.skip(j + 1)));
                        assert(p.skip(j)[0] == 255);
                        assert(escape(p.skip(j)) == seq![255u8, 255u8] + escape(p.skip(j).skip(1)));
                        assert(p.skip(j).skip(1) =~= p.skip(j + 1));
                        assert(seq![255u8] + w.skip(k) =~= escape(p.skip(j)) + tail);
                        lemma_drain_sb_finish(o, p.take(j), p.skip(j));
                        assert(p.take(j) + p.skip(j) =~= p);
                        assert(Seq::<EventV>::empty() + seq![ev] =~= seq![ev]);
                    }
                } else {
                    assert(k == 3 + ll + 1);
                    assert(piece1[0] == 255 && piece1[1] == 250 && piece1[2] == opt_byte(o));
                    assert(find_iac(piece1) == Some(0int));
                    assert(cmd_from_byte(250) == Some(Cmd::SB));
                    let pstart = sb_state(o, Seq::empty());
                    assert(piece1.skip(3) =~= ee + seq![255u8]);
                    assert(spec_parse(p0, piece1) == StepV::Progress {
                        p: pstart,
                        buf: ee + seq![255u8],
                    });
                    assert(spec_decode(p0, piece1) == spec_decode(pstart, ee + seq![255u8]));
                    assert(spec_drain(p0, piece1) == spec_drain(pstart, ee + seq![255u8]));
                    lemma_drain_sb_escaped_half(o, Seq::empty(), p);
                    assert(Seq::<u8>::empty() + p =~= p);
                    assert(w.skip(k) =~= seq![240u8]);
                    assert(seq![255u8] + w.skip(k) =~= Seq::<u8>::empty() + tail);
                    assert(escape(Seq::<u8>::empty()) == Seq::<u8>::empty());
                    assert(seq![255u8] + w.skip(k) =~= escape(Seq::<u8>::empty()) + tail);
                    lemma_drain_sb_finish(o, p, Seq::empty());
                    assert(p + Seq::<u8>::empty() =~= p);
                    assert(Seq::<EventV>::empty() + seq![ev] =~= seq![ev]);
                }
            },
        }
    }
}

/// Partial-buffer equivalence for data: feeding escaped data whole, or
/// split at any byte boundary across two calls, decodes to data events
/// only, carrying exactly the source bytes in order, consuming
/// everything and leaving the parser fresh.
pub proof fn lemma_split_feed_data(d: Seq<u8>, k: int)
    requires
        d.len() > 0,
        0 <= k <= encode_event(EventV::Data(d)).len(),
    ensures
        ({
            let w = encode_event(EventV::Data(d));
            match spec_drain(ParserV::init(), w.take(k)) {
                DrainV::Done { p: p1, buf: b1, evs: evs1 } => match spec_drain(p1, b1 + w.skip(k)) {
                    DrainV::Done { p: p2, buf: b2, evs: evs2 } => p2 == ParserV::init() && b2
                        == Seq::<u8>::empty() && all_data(evs1 + evs2) && data_contents(
                        evs1 + evs2,
                    ) == d,
                    _ => false,
                },
                _ => false,
            }
        }),
{
    let p0 = ParserV::init();
    let w = encode_event(EventV::Data(d));
    assert(w == escape(d));
    let piece1 = w.take(k);
    crate::escape::lemma_escape_split(d, k);
    let j = crate::escape::esc_count(d, k);
    let d1 = d.take(j);
    if !crate::escape::esc_half(d, k) {
        let d2 = d.skip(j);
        lemma_drain_escaped(d1);
        assert(spec_drain(p0, piece1) == (DrainV::Done {
            p: p0,
            buf: Seq::<u8>::empty(),
            evs: if d1.len() == 0 {
                Seq::<EventV>::empty()
            } else {
                seq![EventV::Data(d1)]
            },
        }));
        assert(Seq::<u8>::empty() + w.skip(k) =~= escape(d2));
        lemma_drain_escaped(d2);
        let evs1 = if d1.len() == 0 {
            Seq::<EventV>::empty()
        } else {
            seq![EventV::Data(d1)]
        };
        let evs2 = if d2.len() == 0 {
            Seq::<EventV>::empty()
        } else {
            seq![EventV::Data(d2)]
        };
        lemma_data_contents_pair(d1, d2, evs1 + evs2);
        assert(d1 + d2 =~= d);
    } else {
        let d2 = d.skip(j);
        lemma_drain_escaped_half(d1);
        assert(spec_drain(p0, piece1) == (DrainV::Done {
            p: p0,
            buf: seq![255u8],
            evs: if d1.len() == 0 {
                Seq::<EventV>::empty()
            } else {
                seq![EventV::Data(d1)]
            },
        }));
        assert(w.skip(k) == seq![255u8] + escape(d.skip(j + 1)));
        assert(d2[0] == 255);
        assert(escape(d2) == seq![255u8, 255u8] + escape(d2.skip(1)));
        assert(d2.skip(1) =~= d.skip(j + 1));
        assert(seq![255u8] + w.skip(k) =~= escape(d2));
        lemma_drain_escaped(d2);
        let evs1 = if d1.len() == 0 {
            Seq::<EventV>::empty()
        } else {
            seq![EventV::Data(d1)]
        };
        assert(d2.len() > 0);
        let evs2 = seq![EventV::Data(d2)];
        lemma_data_contents_pair(d1, d2, evs1 + evs2);
        assert(d1 + d2 =~= d);
    }
}

/// A run made of the data events for two byte runs, empty runs omitted,
/// is all data and carries their concatenation.
proof fn lemma_data_contents_pair(d1: Seq<u8>, d2: Seq<u8>, evs: Seq<EventV>)
    requires
        evs == (if d1.len() == 0 {
            Seq::<EventV>::empty()
        } else {
            seq![EventV::Data(d1)]
        }) + (if d2.len() == 0 {
            Seq::<EventV>::empty()
        } else {
            seq![EventV::Data(d2)]
        }),
    ensures
        all_data(evs),
        data_contents(evs) == d1 + d2,
{
    assert(data_contents(Seq::<EventV>::empty()) == Seq::<u8>::empty());
    if d1.len() == 0 && d2.len() == 0 {
        assert(evs =~= Seq::<EventV>::empty());
        assert(data_contents(evs) =~= d1 + d2);
    } else if d1.len() == 0 {
        assert(evs =~= seq![EventV::Data(d2)]);
        assert(evs.skip(1) =~= Seq::<EventV>::empty());
        assert(data_contents(evs.skip(1)) == Seq::<u8>::empty());
        assert(data_contents(evs) =~= d2 + Seq::<u8>::empty());
        assert(data_contents(evs) =~= d1 + d2);
    } else if d2.len() == 0 {
        assert(evs =~= seq![EventV::Data(d1)]);
        assert(evs.skip(1) =~= Seq::<EventV>::empty());
        assert(data_contents(evs.skip(1)) == Seq::<u8>::empty());
        assert(data_contents(evs) =~= d1 + Seq::<u8>::empty());
        assert(data_contents(evs) =~= d1 + d2);
    } else {
        assert(evs =~= seq![EventV::Data(d1), EventV::Data(d2)]);
        assert(evs.skip(1) =~= seq![EventV::Data(d2)]);
        assert(evs.skip(1).skip(1) =~= Seq::<EventV>::empty());
        assert(data_contents(evs.skip(1).skip(1)) == Seq::<u8>::empty());
        assert(data_contents(evs.skip(1)) =~= d2 + Seq::<u8>::empty());
        assert(data_contents(evs) =~= d1 + (d2 + Seq::<u8>::empty()));
        assert(data_contents(evs) =~= d1 + d2);
    }
}

} // verus!
