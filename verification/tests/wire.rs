//! Wire-level behavior: escaping, parsing, encoding, and their round trips.
use telnet::escape::Escape;
use telnet::parser::Parsed;
use telnet::{Cmd, Event, KnownOpt, Opt, Parser};

fn decode_all(parser: &mut Parser, buf: &mut Vec<u8>) -> Vec<Event> {
    let mut out = Vec::new();
    loop {
        match parser.decode(buf) {
            Ok(Some(ev)) => out.push(ev),
            Ok(None) => break,
            Err(e) => panic!("unexpected decode error: {:?}", e),
        }
    }
    out
}

#[test]
fn escape_doubles_iac() {
    let src: Vec<u8> = vec![1, 255, 2, 255, 255];
    let mut dst: Vec<u8> = Vec::new();
    src.escape_to(&mut dst);
    assert_eq!(dst, vec![1, 255, 255, 2, 255, 255, 255, 255]);
}

#[test]
fn escape_empty_is_empty() {
    let src: Vec<u8> = Vec::new();
    let mut dst: Vec<u8> = Vec::new();
    src.escape_to(&mut dst);
    assert!(dst.is_empty());
}

#[test]
fn unescape_collapses_pairs() {
    let src: Vec<u8> = vec![1, 255, 255, 2];
    let mut dst: Vec<u8> = Vec::new();
    src.unescape_to(&mut dst);
    assert_eq!(dst, vec![1, 255, 2]);
}

#[test]
fn unescape_inplace_matches_unescape_to() {
    let mut buf: Vec<u8> = vec![255, 255, 65, 255, 255, 255, 255, 66];
    buf.unescape_inplace();
    assert_eq!(buf, vec![255, 65, 255, 255, 66]);
}

#[test]
fn unescape_escape_round_trip() {
    let cases: Vec<Vec<u8>> = vec![
        vec![],
        vec![255],
        vec![255, 255],
        vec![0, 255, 1, 255],
        vec![255, 0, 255],
        vec![10, 20, 30],
    ];
    for src in cases {
        let mut escaped: Vec<u8> = Vec::new();
        src.escape_to(&mut escaped);
        let mut back: Vec<u8> = Vec::new();
        escaped.unescape_to(&mut back);
        assert_eq!(back, src);
    }
}

#[test]
fn cmd_byte_round_trip() {
    assert_eq!(Cmd::IAC.byte(), 255);
    assert_eq!(Cmd::SB.byte(), 250);
    assert_eq!(Cmd::SE.byte(), 240);
    assert_eq!(Cmd::WILL.byte(), 251);
    assert_eq!(Cmd::EOR.byte(), 239);
    for b in 239..=255u8 {
        let cmd = Cmd::from_byte(b).expect("command in range");
        assert_eq!(cmd.byte(), b);
    }
    assert_eq!(Cmd::from_byte(238), None);
    assert_eq!(Cmd::from_byte(0), None);
}

#[test]
fn opt_byte_round_trip_is_total() {
    for b in 0..=255u8 {
        let opt = Opt::from_byte(b);
        assert_eq!(opt.byte(), b);
    }
    assert_eq!(Opt::from_byte(1), Opt::Known(KnownOpt::ECHO));
    assert_eq!(Opt::from_byte(24), Opt::Known(KnownOpt::TERMINAL_TYPE));
    assert_eq!(Opt::from_byte(0xF5), Opt::Unknown(0xF5));
}

#[test]
fn decode_plain_data() {
    let mut parser = Parser::new();
    let mut buf: Vec<u8> = vec![104, 101, 108, 108, 111];
    let evs = decode_all(&mut parser, &mut buf);
    assert_eq!(evs, vec![Event::Data(vec![104, 101, 108, 108, 111])]);
    assert!(buf.is_empty());
}

#[test]
fn decode_data_with_escaped_iac() {
    let mut parser = Parser::new();
    let mut buf: Vec<u8> = vec![65, 255, 255, 66];
    let evs = decode_all(&mut parser, &mut buf);
    let data: Vec<u8> = evs
        .iter()
        .flat_map(|e| match e {
            Event::Data(d) => d.clone(),
            other => panic!("expected data, got {:?}", other),
        })
        .collect();
    assert_eq!(data, vec![65, 255, 66]);
    assert!(buf.is_empty());
}

#[test]
fn negotiation_known_option() {
    let mut parser = Parser::new();
    let mut buf: Vec<u8> = vec![255, 251, 0x01];
    let evs = decode_all(&mut parser, &mut buf);
    assert_eq!(evs, vec![Event::Negotiation(Cmd::WILL, Opt::Known(KnownOpt::ECHO))]);
    assert!(buf.is_empty());
}

#[test]
fn negotiation_unknown_option() {
    let mut parser = Parser::new();
    let mut buf: Vec<u8> = vec![255, 251, 0xF5];
    let evs = decode_all(&mut parser, &mut buf);
    assert_eq!(evs, vec![Event::Negotiation(Cmd::WILL, Opt::Unknown(0xF5))]);
}

#[test]
fn bare_command() {
    let mut parser = Parser::new();
    let mut buf: Vec<u8> = vec![255, 241];
    let evs = decode_all(&mut parser, &mut buf);
    assert_eq!(evs, vec![Event::Cmd(Cmd::NOP)]);
}

#[test]
fn subnegotiation_accumulates_escaped_payload() {
    let mut parser = Parser::new();
    let mut buf: Vec<u8> = vec![255, 250, 0x18, 0x01, 255, 255, 0x02, 255, 240];
    let evs = decode_all(&mut parser, &mut buf);
    assert_eq!(
        evs,
        vec![Event::Subnegotiation(
            Opt::Known(KnownOpt::TERMINAL_TYPE),
            vec![0x01, 255, 0x02]
        )]
    );
    assert!(buf.is_empty());
}

#[test]
fn se_without_sb_is_malformed() {
    let mut parser = Parser::new();
    let mut buf: Vec<u8> = vec![255, 240];
    match parser.decode(&mut buf) {
        Err(telnet::Error::Parse(e)) => {
            assert_eq!(e, telnet::parser::Error::MalformedSub);
        }
        other => panic!("expected malformed subnegotiation, got {:?}", other),
    }
}

#[test]
fn nested_sb_is_malformed() {
    let mut parser = Parser::new();
    let mut buf: Vec<u8> = vec![255, 250, 0x18, 255, 250, 0x18];
    match parser.decode(&mut buf) {
        Err(telnet::Error::Parse(e)) => {
            assert_eq!(e, telnet::parser::Error::MalformedSub);
        }
        other => panic!("expected malformed subnegotiation, got {:?}", other),
    }
}

#[test]
fn unknown_command_is_fatal() {
    let mut parser = Parser::new();
    let mut buf: Vec<u8> = vec![255, 100];
    match parser.decode(&mut buf) {
        Err(telnet::Error::Parse(e)) => {
            assert_eq!(e, telnet::parser::Error::UnknownCommand(100));
        }
        other => panic!("expected unknown command, got {:?}", other),
    }
}

#[test]
fn trailing_lone_iac_waits_for_more() {
    let mut parser = Parser::new();
    let mut buf: Vec<u8> = vec![65, 255];
    let evs = decode_all(&mut parser, &mut buf);
    assert_eq!(evs, vec![Event::Data(vec![65])]);
    assert_eq!(buf, vec![255]);
    buf.push(255);
    buf.push(66);
    let evs = decode_all(&mut parser, &mut buf);
    assert_eq!(evs, vec![Event::Data(vec![255, 66])]);
    assert!(buf.is_empty());
}

#[test]
fn parse_reports_progress_inside_subnegotiation() {
    let mut parser = Parser::new();
    let mut buf: Vec<u8> = vec![255, 250, 0x18, 0x01];
    assert!(matches!(parser.parse(&mut buf), Ok(Parsed::Progress)));
    assert!(matches!(parser.parse(&mut buf), Ok(Parsed::Progress)));
    assert!(matches!(parser.parse(&mut buf), Ok(Parsed::NeedMore)));
}

#[test]
fn encoder_wire_forms() {
    let parser = Parser::new();
    let mut dst: Vec<u8> = Vec::new();
    parser.encode(Event::Data(vec![1, 255, 2]), &mut dst);
    assert_eq!(dst, vec![1, 255, 255, 2]);

    let mut dst: Vec<u8> = Vec::new();
    parser.encode(Event::Cmd(Cmd::GA), &mut dst);
    assert_eq!(dst, vec![255, 249]);

    let mut dst: Vec<u8> = Vec::new();
    parser.encode(Event::Negotiation(Cmd::DONT, Opt::Known(KnownOpt::ECHO)), &mut dst);
    assert_eq!(dst, vec![255, 254, 1]);

    let mut dst: Vec<u8> = Vec::new();
    parser.encode(
        Event::Subnegotiation(Opt::Known(KnownOpt::NAWS), vec![0, 255, 80]),
        &mut dst,
    );
    assert_eq!(dst, vec![255, 250, 31, 0, 255, 255, 80, 255, 240]);
}

#[test]
fn encode_decode_round_trip_each_kind() {
    let events = vec![
        Event::Data(vec![10, 255, 20]),
        Event::Cmd(Cmd::AYT),
        Event::Negotiation(Cmd::DO, Opt::Known(KnownOpt::SUPPRESS_GA)),
        Event::Negotiation(Cmd::WONT, Opt::Unknown(0x99)),
        Event::Subnegotiation(Opt::Known(KnownOpt::TERMINAL_TYPE), vec![1, 255, 2]),
        Event::Subnegotiation(Opt::Unknown(0xAA), vec![]),
    ];
    for ev in events {
        let mut parser = Parser::new();
        let mut wire: Vec<u8> = Vec::new();
        parser.encode(ev.clone(), &mut wire);
        let evs = decode_all(&mut parser, &mut wire);
        assert_eq!(evs, vec![ev]);
        assert!(wire.is_empty());
    }
}

#[test]
fn split_feeding_is_equivalent_to_whole() {
    let events = vec![
        Event::Cmd(Cmd::AYT),
        Event::Negotiation(Cmd::DO, Opt::Known(KnownOpt::SUPPRESS_GA)),
        Event::Subnegotiation(Opt::Known(KnownOpt::TERMINAL_TYPE), vec![1, 255, 2]),
    ];
    for ev in events {
        let parser = Parser::new();
        let mut wire: Vec<u8> = Vec::new();
        parser.encode(ev.clone(), &mut wire);
        for cut in 0..=wire.len() {
            let mut parser = Parser::new();
            let mut buf: Vec<u8> = wire[..cut].to_vec();
            let mut evs = decode_all(&mut parser, &mut buf);
            buf.extend_from_slice(&wire[cut..]);
            evs.extend(decode_all(&mut parser, &mut buf));
            assert_eq!(evs, vec![ev.clone()], "cut at {}", cut);
            assert!(buf.is_empty());
        }
    }
}

#[test]
fn split_feeding_data_carries_same_bytes() {
    let data: Vec<u8> = vec![65, 255, 255, 66, 255];
    let parser = Parser::new();
    let mut wire: Vec<u8> = Vec::new();
    parser.encode(Event::Data(data.clone()), &mut wire);
    for cut in 0..=wire.len() {
        let mut parser = Parser::new();
        let mut buf: Vec<u8> = wire[..cut].to_vec();
        let mut evs = decode_all(&mut parser, &mut buf);
        buf.extend_from_slice(&wire[cut..]);
        evs.extend(decode_all(&mut parser, &mut buf));
        let got: Vec<u8> = evs
            .iter()
            .flat_map(|e| match e {
                Event::Data(d) => d.clone(),
                other => panic!("expected data, got {:?}", other),
            })
            .collect();
        assert_eq!(got, data, "cut at {}", cut);
        assert!(buf.is_empty());
    }
}

#[test]
fn from_conversions_match_byte_methods() {
    let opt = Opt::from(24u8);
    assert_eq!(opt, Opt::Known(KnownOpt::TERMINAL_TYPE));
    assert_eq!(u8::from(opt), 24);
    assert_eq!(u8::from(Opt::Unknown(0xF5)), 0xF5);
}

#[test]
fn default_parser_decodes_like_a_fresh_one() {
    let mut parser = Parser::default();
    let mut buf: Vec<u8> = vec![255, 249];
    let evs = decode_all(&mut parser, &mut buf);
    assert_eq!(evs, vec![Event::Cmd(Cmd::GA)]);
}
