//! The incremental decoder: a state machine over an incoming byte buffer,
//! invoked repeatedly until it cannot make progress with the bytes at hand.
use vstd::prelude::*;

use crate::escape::{unescape, Escape};
use crate::event::{Event, EventV};
use crate::op::{cmd_from_byte, opt_from_byte, Cmd, Opt};

verus! {

/// Errors arising while parsing the byte stream. Both are fatal to decoding
/// the current connection.
#[derive(Copy, Clone, Debug, PartialEq, Eq, Structural)]
pub enum Error {
    /// A command byte following the interpret-as-command marker that is not
    /// in the registry.
    UnknownCommand(u8),
    /// An end of subnegotiation with none open, or a new subnegotiation
    /// begun while one is already open.
    MalformedSub,
}

/// The incremental telnet decoder. Between calls it carries at most one open
/// subnegotiation: the option it concerns and the payload gathered so far.
#[derive(Debug)]
pub struct Parser {
    sb_opt: Option<Opt>,
    sb_params: Option<Vec<u8>>,
}

/// The mathematical shape of the parser state.
pub struct ParserV {
    /// The option of the open subnegotiation, if one is open.
    pub sb_opt: Option<Opt>,
    /// The payload gathered so far, if a subnegotiation is open.
    pub sb_params: Option<Seq<u8>>,
}

impl ParserV {
    /// Both halves of the subnegotiation state are present or absent
    /// together; a violation at end-of-subnegotiation time is a protocol
    /// error.
    pub open spec fn wf(self) -> bool {
        self.sb_opt is Some <==> self.sb_params is Some
    }

    /// The state with no subnegotiation open.
    pub open spec fn init() -> ParserV {
        ParserV { sb_opt: None, sb_params: None }
    }
}

impl View for Parser {
    type V = ParserV;

    closed spec fn view(&self) -> ParserV {
        ParserV {
            sb_opt: self.sb_opt,
            sb_params: match self.sb_params {
                Some(v) => Some(v@),
                None => None,
            },
        }
    }
}

/// One decode outcome, as the caller sees it: wait for more bytes, internal
/// progress (call again), or one complete event.
#[derive(Debug)]
pub enum Parsed {
    /// Nothing decodable yet: stop calling until new bytes arrive.
    NeedMore,
    /// Bytes were consumed but no complete event formed: call again.
    Progress,
    /// One complete event.
    Event(Event),
}

/// The offset of the first 0xFF byte that is not immediately followed by
/// another 0xFF, skipping over doubled pairs; a lone trailing 0xFF counts,
/// so that it is left in the buffer for re-evaluation once more bytes
/// arrive.
pub open spec fn find_iac(s: Seq<u8>) -> Option<int>
    decreases s.len(),
{
    if s.len() == 0 {
        None
    } else if s[0] == 255 {
        if s.len() >= 2 && s[1] == 255 {
            match find_iac(s.skip(2)) {
                None => None,
                Some(j) => Some(j + 2),
            }
        } else {
            Some(0)
        }
    } else {
        match find_iac(s.skip(1)) {
            None => None,
            Some(j) => Some(j + 1),
        }
    }
}

/// Where the scan points, it points at an unescaped marker inside the
/// buffer.
pub proof fn lemma_find_iac_bounds(s: Seq<u8>)
    ensures
        match find_iac(s) {
            Some(i) => 0 <= i < s.len() && s[i] == 255 && (i + 1 == s.len() || s[i + 1] != 255),
            None => true,
        },
    decreases s.len(),
{
    if s.len() == 0 {
    } else if s[0] == 255 {
        if s.len() >= 2 && s[1] == 255 {
            lemma_find_iac_bounds(s.skip(2));
        }
    } else {
        lemma_find_iac_bounds(s.skip(1));
    }
}

/// One decode step of the abstract machine: the successor state, the
/// remaining buffer, and what came of the step.
pub enum StepV {
    /// No progress is possible with the bytes at hand; nothing changes.
    NeedMore,
    /// Bytes were consumed into the parser state; no event formed.
    Progress {
        /// The successor parser state.
        p: ParserV,
        /// The remaining buffer.
        buf: Seq<u8>,
    },
    /// One complete event formed.
    Emitted {
        /// The successor parser state.
        p: ParserV,
        /// The remaining buffer.
        buf: Seq<u8>,
        /// The event.
        ev: EventV,
    },
    /// A fatal protocol error.
    Failed {
        /// The parser state after the failing step.
        p: ParserV,
        /// The buffer after the failing step.
        buf: Seq<u8>,
        /// The error.
        err: Error,
    },
}

/// The plain-data half of a decode step: everything before the first
/// unescaped marker (`data_len` bytes) is split off; inside a subnegotiation
/// it is unescaped into the accumulator, otherwise it is unescaped and
/// emitted as data.
pub open spec fn spec_parse_data(p: ParserV, b: Seq<u8>, data_len: int) -> StepV {
    if data_len == 0 {
        StepV::NeedMore
    } else {
        let data = b.take(data_len);
        let rest = b.skip(data_len);
        match p.sb_params {
            Some(params) => StepV::Progress {
                p: ParserV { sb_opt: p.sb_opt, sb_params: Some(params + unescape(data)) },
                buf: rest,
            },
            None => StepV::Emitted { p, buf: rest, ev: EventV::Data(unescape(data)) },
        }
    }
}

/// The command half of a decode step, entered when an unescaped marker
/// stands at offset 0.
pub open spec fn spec_parse_iac(p: ParserV, b: Seq<u8>) -> StepV {
    if b.len() < 2 {
        StepV::NeedMore
    } else {
        match cmd_from_byte(b[1]) {
            None => StepV::Failed { p, buf: b, err: Error::UnknownCommand(b[1]) },
            Some(cmd) => {
                if cmd == Cmd::SB {
                    if b.len() < 3 {
                        StepV::NeedMore
                    } else if p.sb_opt is Some || p.sb_params is Some {
                        StepV::Failed { p, buf: b.skip(3), err: Error::MalformedSub }
                    } else {
                        StepV::Progress {
                            p: ParserV {
                                sb_opt: Some(opt_from_byte(b[2])),
                                sb_params: Some(Seq::empty()),
                            },
                            buf: b.skip(3),
                        }
                    }
                } else if cmd == Cmd::SE {
                    match (p.sb_opt, p.sb_params) {
                        (Some(o), Some(ps)) => StepV::Emitted {
                            p: ParserV::init(),
                            buf: b.skip(2),
                            ev: EventV::Subnegotiation(o, ps),
                        },
                        _ => StepV::Failed {
                            p: ParserV::init(),
                            buf: b.skip(2),
                            err: Error::MalformedSub,
                        },
                    }
                } else if cmd == Cmd::WILL || cmd == Cmd::WONT || cmd == Cmd::DO || cmd
                    == Cmd::DONT {
                    if b.len() < 3 {
                        StepV::NeedMore
                    } else {
                        StepV::Emitted {
                            p,
                            buf: b.skip(3),
                            ev: EventV::Negotiation(cmd, opt_from_byte(b[2])),
                        }
                    }
                } else {
                    StepV::Emitted { p, buf: b.skip(2), ev: EventV::Cmd(cmd) }
                }
            },
        }
    }
}

/// One decode step: scan for the first unescaped marker; at offset 0 take
/// the command path, otherwise split off the data before it (or the whole
/// buffer when there is none).
pub open spec fn spec_parse(p: ParserV, b: Seq<u8>) -> StepV {
    match find_iac(b) {
        Some(k) => if k == 0 {
            spec_parse_iac(p, b)
        } else {
            spec_parse_data(p, b, k)
        },
        None => spec_parse_data(p, b, b.len() as int),
    }
}

/// How one `parse` call relates its outcome `r` and the successor state
/// `(p1, b1)` to the abstract step on `(p0, b0)`.
pub open spec fn parse_post(
    p0: ParserV,
    b0: Seq<u8>,
    p1: ParserV,
    b1: Seq<u8>,
    r: Result<Parsed, Error>,
) -> bool {
    match spec_parse(p0, b0) {
        StepV::NeedMore => r matches Ok(Parsed::NeedMore) && p1 == p0 && b1 == b0,
        StepV::Progress { p, buf } => r matches Ok(Parsed::Progress) && p1 == p && b1 == buf,
        StepV::Emitted { p, buf, ev } => (r matches Ok(Parsed::Event(e)) && e@ == ev) && p1 == p
            && b1 == buf,
        StepV::Failed { p, buf, err } => r matches Err(e) && e == err && p1 == p && b1 == buf,
    }
}

/// Drop the first `k` bytes of the buffer.
fn advance(buf: &mut Vec<u8>, k: usize)
    requires
        k <= old(buf)@.len(),
    ensures
        final(buf)@ == old(buf)@.skip(k as int),
{
    let mut rest = buf.split_off(k);
    core::mem::swap(buf, &mut rest);
}

impl Default for Parser {
    /// A fresh parser with no subnegotiation open.
    fn default() -> (p: Parser)
        ensures
            p@ == ParserV::init(),
    {
        Parser { sb_opt: None, sb_params: None }
    }
}

impl Parser {
    /// A fresh parser with no subnegotiation open.
    pub fn new() -> (p: Parser)
        ensures
            p@ == ParserV::init(),
    {
        Parser { sb_opt: None, sb_params: None }
    }

    /// One incremental decode step over the caller's buffer: consume what
    /// can be consumed and report whether to wait, call again, or take one
    /// complete event.
    pub fn parse(&mut self, buf: &mut Vec<u8>) -> (r: Result<Parsed, Error>)
        requires
            old(self)@.wf(),
        ensures
            final(self)@.wf(),
            parse_post(old(self)@, old(buf)@, final(self)@, final(buf)@, r),
    {
        let n = buf.len();
        let mut i: usize = 0;
        let mut found: bool = false;
        let mut off: usize = 0;
        proof {
            assert(buf@.skip(0) =~= buf@);
        }
        while i < n && !found
            invariant
                i <= n,
                n == buf@.len(),
                !found ==> find_iac(buf@) == (match find_iac(buf@.skip(i as int)) {
                    None => None,
                    Some(j) => Some(i + j),
                }),
                found ==> find_iac(buf@) == Some(off as int) && off < n,
            decreases n - i + (if found { 0int } else { 1int }),
        {
            let b = buf[i];
            proof {
                assert(buf@.skip(i as int)[0] == buf@[i as int]);
                assert(buf@.skip(i as int).len() == n - i);
            }
            if b == 255 {
                let pair = if n - i >= 2 {
                    buf[i + 1] == 255
                } else {
                    false
                };
                proof {
                    if n - i >= 2 {
                        assert(buf@.skip(i as int)[1] == buf@[i + 1]);
                    }
                }
                if pair {
                    proof {
                        crate::escape::lemma_skip_skip(buf@, i as int, 2);
                        assert(find_iac(buf@.skip(i as int)) == (match find_iac(buf@.skip(i + 2)) {
                            None => None,
                            Some(j) => Some(j + 2),
                        }));
                    }
                    i += 2;
                } else {
                    found = true;
                    off = i;
                    proof {
                        assert(find_iac(buf@.skip(i as int)) == Some(0int));
                    }
                }
            } else {
                proof {
                    crate::escape::lemma_skip_skip(buf@, i as int, 1);
                    assert(find_iac(buf@.skip(i as int)) == (match find_iac(buf@.skip(i + 1)) {
                        None => None,
                        Some(j) => Some(j + 1),
                    }));
                }
                i += 1;
            }
        }
        proof {
            if !found {
                assert(i == n);
                assert(buf@.skip(n as int) =~= Seq::<u8>::empty());
                assert(find_iac(Seq::<u8>::empty()) is None);
                assert(find_iac(buf@) is None);
            }
        }
        if found && off == 0 {
            return self.parse_iac(buf);
        }
        let data_len = if found {
            off
        } else {
            n
        };
        if data_len == 0 {
            return Ok(Parsed::NeedMore);
        }
        let mut rest = buf.split_off(data_len);
        core::mem::swap(buf, &mut rest);
        let mut data = rest;
        let mut taken: Option<Vec<u8>> = None;
        core::mem::swap(&mut self.sb_params, &mut taken);
        match taken {
            Some(mut params) => {
                data.unescape_to(&mut params);
                self.sb_params = Some(params);
                Ok(Parsed::Progress)
            },
            None => {
                data.unescape_inplace();
                Ok(Parsed::Event(Event::Data(data)))
            },
        }
    }

    /// The command path: an unescaped marker stands at offset 0.
    fn parse_iac(&mut self, buf: &mut Vec<u8>) -> (r: Result<Parsed, Error>)
        requires
            old(self)@.wf(),
        ensures
            final(self)@.wf(),
            ({
                let s = spec_parse_iac(old(self)@, old(buf)@);
                match s {
                    StepV::NeedMore => r matches Ok(Parsed::NeedMore) && final(self)@ == old(self)@
                        && final(buf)@ == old(buf)@,
                    StepV::Progress { p, buf: b } => r matches Ok(Parsed::Progress) && final(self)@
                        == p && final(buf)@ == b,
                    StepV::Emitted { p, buf: b, ev } => (r matches Ok(Parsed::Event(e)) && e@ == ev)
                        && final(self)@ == p && final(buf)@ == b,
                    StepV::Failed { p, buf: b, err } => r matches Err(e) && e == err
                        && final(self)@ == p && final(buf)@ == b,
                }
            }),
    {
        if buf.len() < 2 {
            return Ok(Parsed::NeedMore);
        }
        let cmd_op = buf[1];
        let cmd = match Cmd::from_byte(cmd_op) {
            Some(c) => c,
            None => {
                return Err(Error::UnknownCommand(cmd_op));
            },
        };
        match cmd {
            Cmd::SB => {
                if buf.len() < 3 {
                    return Ok(Parsed::NeedMore);
                }
                let opt_op = buf[2];
                advance(buf, 3);
                let opt = Opt::from_byte(opt_op);
                if self.sb_opt.is_some() || self.sb_params.is_some() {
                    return Err(Error::MalformedSub);
                }
                self.sb_opt = Some(opt);
                self.sb_params = Some(Vec::new());
                Ok(Parsed::Progress)
            },
            Cmd::SE => {
                advance(buf, 2);
                let opt = self.sb_opt.take();
                let params = self.sb_params.take();
                match (opt, params) {
                    (Some(o), Some(ps)) => Ok(Parsed::Event(Event::Subnegotiation(o, ps))),
                    _ => Err(Error::MalformedSub),
                }
            },
            Cmd::WILL | Cmd::WONT | Cmd::DO | Cmd::DONT => {
                if buf.len() < 3 {
                    return Ok(Parsed::NeedMore);
                }
                let opt_op = buf[2];
                advance(buf, 3);
                Ok(Parsed::Event(Event::Negotiation(cmd, Opt::from_byte(opt_op))))
            },
            _ => {
                advance(buf, 2);
                Ok(Parsed::Event(Event::Cmd(cmd)))
            },
        }
    }
}

} // verus!
