//! Telnet commands and negotiable options, with their one-byte wire codes.
use vstd::prelude::*;

verus! {

/// A telnet command: one of the 17 single-byte control codes (values 239-255)
/// that may follow the interpret-as-command marker.
#[derive(Copy, Clone, Debug, PartialEq, Eq, Structural)]
pub enum Cmd {
    /// End of Record.
    EOR,
    /// End of subnegotiation parameters.
    SE,
    /// No operation.
    NOP,
    /// Data Mark: the data stream portion of a Synch.
    DM,
    /// NVT character BRK.
    Break,
    /// The function IP.
    IP,
    /// The function AO.
    AO,
    /// The function AYT.
    AYT,
    /// The function EC.
    EC,
    /// The function EL.
    EL,
    /// The GA signal.
    GA,
    /// What follows is subnegotiation of the indicated option.
    SB,
    /// Desire to begin performing the indicated option, or confirmation that
    /// it is now being performed.
    WILL,
    /// Refusal to perform, or continue performing, the indicated option.
    WONT,
    /// Request that the other party perform the indicated option.
    DO,
    /// Demand that the other party stop performing the indicated option.
    DONT,
    /// The interpret-as-command marker itself (data byte 255).
    IAC,
}

/// The wire code of each command.
pub open spec fn cmd_byte(c: Cmd) -> u8 {
    match c {
        Cmd::EOR => 239,
        Cmd::SE => 240,
        Cmd::NOP => 241,
        Cmd::DM => 242,
        Cmd::Break => 243,
        Cmd::IP => 244,
        Cmd::AO => 245,
        Cmd::AYT => 246,
        Cmd::EC => 247,
        Cmd::EL => 248,
        Cmd::GA => 249,
        Cmd::SB => 250,
        Cmd::WILL => 251,
        Cmd::WONT => 252,
        Cmd::DO => 253,
        Cmd::DONT => 254,
        Cmd::IAC => 255,
    }
}

/// The command a wire byte stands for, if any: the inverse of `cmd_byte`.
pub open spec fn cmd_from_byte(b: u8) -> Option<Cmd> {
    if b == 239 {
        Some(Cmd::EOR)
    } else if b == 240 {
        Some(Cmd::SE)
    } else if b == 241 {
        Some(Cmd::NOP)
    } else if b == 242 {
        Some(Cmd::DM)
    } else if b == 243 {
        Some(Cmd::Break)
    } else if b == 244 {
        Some(Cmd::IP)
    } else if b == 245 {
        Some(Cmd::AO)
    } else if b == 246 {
        Some(Cmd::AYT)
    } else if b == 247 {
        Some(Cmd::EC)
    } else if b == 248 {
        Some(Cmd::EL)
    } else if b == 249 {
        Some(Cmd::GA)
    } else if b == 250 {
        Some(Cmd::SB)
    } else if b == 251 {
        Some(Cmd::WILL)
    } else if b == 252 {
        Some(Cmd::WONT)
    } else if b == 253 {
        Some(Cmd::DO)
    } else if b == 254 {
        Some(Cmd::DONT)
    } else if b == 255 {
        Some(Cmd::IAC)
    } else {
        None
    }
}

impl Cmd {
    /// The wire code of this command.
    pub fn byte(self) -> (b: u8)
        ensures
            b == cmd_byte(self),
    {
        match self {
            Cmd::EOR => 239,
            Cmd::SE => 240,
            Cmd::NOP => 241,
            Cmd::DM => 242,
            Cmd::Break => 243,
            Cmd::IP => 244,
            Cmd::AO => 245,
            Cmd::AYT => 246,
            Cmd::EC => 247,
            Cmd::EL => 248,
            Cmd::GA => 249,
            Cmd::SB => 250,
            Cmd::WILL => 251,
            Cmd::WONT => 252,
            Cmd::DO => 253,
            Cmd::DONT => 254,
            Cmd::IAC => 255,
        }
    }

    /// Look a wire byte up in the command registry.
    pub fn from_byte(b: u8) -> (r: Option<Cmd>)
        ensures
            r == cmd_from_byte(b),
    {
        match b {
            239 => Some(Cmd::EOR),
            240 => Some(Cmd::SE),
            241 => Some(Cmd::NOP),
            242 => Some(Cmd::DM),
            243 => Some(Cmd::Break),
            244 => Some(Cmd::IP),
            245 => Some(Cmd::AO),
            246 => Some(Cmd::AYT),
            247 => Some(Cmd::EC),
            248 => Some(Cmd::EL),
            249 => Some(Cmd::GA),
            250 => Some(Cmd::SB),
            251 => Some(Cmd::WILL),
            252 => Some(Cmd::WONT),
            253 => Some(Cmd::DO),
            254 => Some(Cmd::DONT),
            255 => Some(Cmd::IAC),
            _ => None,
        }
    }
}

/// Looking a command's own wire code up yields that command back.
pub proof fn lemma_cmd_roundtrip(c: Cmd)
    ensures
        cmd_from_byte(cmd_byte(c)) == Some(c),
{
}

/// Every command byte lies in the command range.
pub proof fn lemma_cmd_byte_range(c: Cmd)
    ensures
        239 <= cmd_byte(c),
{
}

/// A registered telnet option code.
#[derive(Copy, Clone, Debug, PartialEq, Eq, Structural)]
#[allow(non_camel_case_types)]
#[allow(missing_docs)]
pub enum KnownOpt {
    TRANSMIT_BINARY,
    ECHO,
    RECONNECTION,
    SUPPRESS_GA,
    MESSAGE_SIZE,
    STATUS,
    TIMING_MARK,
    RC_TRANS,
    LINE_WIDTH,
    PAGE_SIZE,
    NAOCRD,
    NAOHTS,
    NAOHTD,
    NAOFFD,
    NAOVTS,
    NAOVTD,
    NAOLFD,
    EXTENDED_ASCII,
    LOGOUT,
    BYTE_MACRO,
    DATA_ENTRY_TERMINAL,
    SUPDUP,
    SUPDUP_OUT,
    SEND_LOC,
    TERMINAL_TYPE,
    EOR,
    TACACS,
    OUT_MARK,
    TERM_LOC_NO,
    TN3270,
    X3_PAD,
    NAWS,
    TERMINAL_SPEED,
    TOGGLE_FLOW_CONTROL,
    LINEMODE,
    AUTHENTICATION,
    ENCRYPTION,
    NEW_ENVIRONMENT,
    TN2370E,
    XAUTH,
    CHARSET,
    RSP,
    CPC,
    SLE,
    STARTTLS,
    KERMIT,
    SEND_URL,
    FORWARD_X,
    MSDP,
    MSSP,
    MCCPV1,
    MCCPV2,
    MSP,
    MXP,
    XMP,
    LOGON,
    SSPI_LOGON,
    HEARTBEAT,
    ATCP,
    GMCP,
    EOL,
}

/// The wire code of each registered option.
pub open spec fn known_opt_byte(o: KnownOpt) -> u8 {
    match o {
        KnownOpt::TRANSMIT_BINARY => 0,
        KnownOpt::ECHO => 1,
        KnownOpt::RECONNECTION => 2,
        KnownOpt::SUPPRESS_GA => 3,
        KnownOpt::MESSAGE_SIZE => 4,
        KnownOpt::STATUS => 5,
        KnownOpt::TIMING_MARK => 6,
        KnownOpt::RC_TRANS => 7,
        KnownOpt::LINE_WIDTH => 8,
        KnownOpt::PAGE_SIZE => 9,
        KnownOpt::NAOCRD => 10,
        KnownOpt::NAOHTS => 11,
        KnownOpt::NAOHTD => 12,
        KnownOpt::NAOFFD => 13,
        KnownOpt::NAOVTS => 14,
        KnownOpt::NAOVTD => 15,
        KnownOpt::NAOLFD => 16,
        KnownOpt::EXTENDED_ASCII => 17,
        KnownOpt::LOGOUT => 18,
        KnownOpt::BYTE_MACRO => 19,
        KnownOpt::DATA_ENTRY_TERMINAL => 20,
        KnownOpt::SUPDUP => 21,
        KnownOpt::SUPDUP_OUT => 22,
        KnownOpt::SEND_LOC => 23,
        KnownOpt::TERMINAL_TYPE => 24,
        KnownOpt::EOR => 25,
        KnownOpt::TACACS => 26,
        KnownOpt::OUT_MARK => 27,
        KnownOpt::TERM_LOC_NO => 28,
        KnownOpt::TN3270 => 29,
        KnownOpt::X3_PAD => 30,
        KnownOpt::NAWS => 31,
        KnownOpt::TERMINAL_SPEED => 32,
        KnownOpt::TOGGLE_FLOW_CONTROL => 33,
        KnownOpt::LINEMODE => 34,
        KnownOpt::AUTHENTICATION => 37,
        KnownOpt::ENCRYPTION => 38,
        KnownOpt::NEW_ENVIRONMENT => 39,
        KnownOpt::TN2370E => 40,
        KnownOpt::XAUTH => 41,
        KnownOpt::CHARSET => 42,
        KnownOpt::RSP => 43,
        KnownOpt::CPC => 44,
        KnownOpt::SLE => 45,
        KnownOpt::STARTTLS => 46,
        KnownOpt::KERMIT => 47,
        KnownOpt::SEND_URL => 48,
        KnownOpt::FORWARD_X => 49,
        KnownOpt::MSDP => 69,
        KnownOpt::MSSP => 70,
        KnownOpt::MCCPV1 => 85,
        KnownOpt::MCCPV2 => 86,
        KnownOpt::MSP => 90,
        KnownOpt::MXP => 91,
        KnownOpt::XMP => 93,
        KnownOpt::LOGON => 138,
        KnownOpt::SSPI_LOGON => 139,
        KnownOpt::HEARTBEAT => 140,
        KnownOpt::ATCP => 200,
        KnownOpt::GMCP => 201,
        KnownOpt::EOL => 255,
    }
}

/// The registered option a wire byte stands for, if any: the inverse of
/// `known_opt_byte`.
pub open spec fn known_opt_from_byte(b: u8) -> Option<KnownOpt> {
    if b == 0 {
        Some(KnownOpt::TRANSMIT_BINARY)
    } else if b == 1 {
        Some(KnownOpt::ECHO)
    } else if b == 2 {
        Some(KnownOpt::RECONNECTION)
    } else if b == 3 {
        Some(KnownOpt::SUPPRESS_GA)
    } else if b == 4 {
        Some(KnownOpt::MESSAGE_SIZE)
    } else if b == 5 {
        Some(KnownOpt::STATUS)
    } else if b == 6 {
        Some(KnownOpt::TIMING_MARK)
    } else if b == 7 {
        Some(KnownOpt::RC_TRANS)
    } else if b == 8 {
        Some(KnownOpt::LINE_WIDTH)
    } else if b == 9 {
        Some(KnownOpt::PAGE_SIZE)
    } else if b == 10 {
        Some(KnownOpt::NAOCRD)
    } else if b == 11 {
        Some(KnownOpt::NAOHTS)
    } else if b == 12 {
        Some(KnownOpt::NAOHTD)
    } else if b == 13 {
        Some(KnownOpt::NAOFFD)
    } else if b == 14 {
        Some(KnownOpt::NAOVTS)
    } else if b == 15 {
        Some(KnownOpt::NAOVTD)
    } else if b == 16 {
        Some(KnownOpt::NAOLFD)
    } else if b == 17 {
        Some(KnownOpt::EXTENDED_ASCII)
    } else if b == 18 {
        Some(KnownOpt::LOGOUT)
    } else if b == 19 {
        Some(KnownOpt::BYTE_MACRO)
    } else if b == 20 {
        Some(KnownOpt::DATA_ENTRY_TERMINAL)
    } else if b == 21 {
        Some(KnownOpt::SUPDUP)
    } else if b == 22 {
        Some(KnownOpt::SUPDUP_OUT)
    } else if b == 23 {
        Some(KnownOpt::SEND_LOC)
    } else if b == 24 {
        Some(KnownOpt::TERMINAL_TYPE)
    } else if b == 25 {
        Some(KnownOpt::EOR)
    } else if b == 26 {
        Some(KnownOpt::TACACS)
    } else if b == 27 {
        Some(KnownOpt::OUT_MARK)
    } else if b == 28 {
        Some(KnownOpt::TERM_LOC_NO)
    } else if b == 29 {
        Some(KnownOpt::TN3270)
    } else if b == 30 {
        Some(KnownOpt::X3_PAD)
    } else if b == 31 {
        Some(KnownOpt::NAWS)
    } else if b == 32 {
        Some(KnownOpt::TERMINAL_SPEED)
    } else if b == 33 {
        Some(KnownOpt::TOGGLE_FLOW_CONTROL)
    } else if b == 34 {
        Some(KnownOpt::LINEMODE)
    } else if b == 37 {
        Some(KnownOpt::AUTHENTICATION)
    } else if b == 38 {
        Some(KnownOpt::ENCRYPTION)
    } else if b == 39 {
        Some(KnownOpt::NEW_ENVIRONMENT)
    } else if b == 40 {
        Some(KnownOpt::TN2370E)
    } else if b == 41 {
        Some(KnownOpt::XAUTH)
    } else if b == 42 {
        Some(KnownOpt::CHARSET)
    } else if b == 43 {
        Some(KnownOpt::RSP)
    } else if b == 44 {
        Some(KnownOpt::CPC)
    } else if b == 45 {
        Some(KnownOpt::SLE)
    } else if b == 46 {
        Some(KnownOpt::STARTTLS)
    } else if b == 47 {
        Some(KnownOpt::KERMIT)
    } else if b == 48 {
        Some(KnownOpt::SEND_URL)
    } else if b == 49 {
        Some(KnownOpt::FORWARD_X)
    } else if b == 69 {
        Some(KnownOpt::MSDP)
    } else if b == 70 {
        Some(KnownOpt::MSSP)
    } else if b == 85 {
        Some(KnownOpt::MCCPV1)
    } else if b == 86 {
        Some(KnownOpt::MCCPV2)
    } else if b == 90 {
        Some(KnownOpt::MSP)
    } else if b == 91 {
        Some(KnownOpt::MXP)
    } else if b == 93 {
        Some(KnownOpt::XMP)
    } else if b == 138 {
        Some(KnownOpt::LOGON)
    } else if b == 139 {
        Some(KnownOpt::SSPI_LOGON)
    } else if b == 140 {
        Some(KnownOpt::HEARTBEAT)
    } else if b == 200 {
        Some(KnownOpt::ATCP)
    } else if b == 201 {
        Some(KnownOpt::GMCP)
    } else if b == 255 {
        Some(KnownOpt::EOL)
    } else {
        None
    }
}

impl KnownOpt {
    /// The wire code of this option.
    pub fn byte(self) -> (b: u8)
        ensures
            b == known_opt_byte(self),
    {
        match self {
            KnownOpt::TRANSMIT_BINARY => 0,
            KnownOpt::ECHO => 1,
            KnownOpt::RECONNECTION => 2,
            KnownOpt::SUPPRESS_GA => 3,
            KnownOpt::MESSAGE_SIZE => 4,
            KnownOpt::STATUS => 5,
            KnownOpt::TIMING_MARK => 6,
            KnownOpt::RC_TRANS => 7,
            KnownOpt::LINE_WIDTH => 8,
            KnownOpt::PAGE_SIZE => 9,
            KnownOpt::NAOCRD => 10,
            KnownOpt::NAOHTS => 11,
            KnownOpt::NAOHTD => 12,
            KnownOpt::NAOFFD => 13,
            KnownOpt::NAOVTS => 14,
            KnownOpt::NAOVTD => 15,
            KnownOpt::NAOLFD => 16,
            KnownOpt::EXTENDED_ASCII => 17,
            KnownOpt::LOGOUT => 18,
            KnownOpt::BYTE_MACRO => 19,
            KnownOpt::DATA_ENTRY_TERMINAL => 20,
            KnownOpt::SUPDUP => 21,
            KnownOpt::SUPDUP_OUT => 22,
            KnownOpt::SEND_LOC => 23,
            KnownOpt::TERMINAL_TYPE => 24,
            KnownOpt::EOR => 25,
            KnownOpt::TACACS => 26,
            KnownOpt::OUT_MARK => 27,
            KnownOpt::TERM_LOC_NO => 28,
            KnownOpt::TN3270 => 29,
            KnownOpt::X3_PAD => 30,
            KnownOpt::NAWS => 31,
            KnownOpt::TERMINAL_SPEED => 32,
            KnownOpt::TOGGLE_FLOW_CONTROL => 33,
            KnownOpt::LINEMODE => 34,
            KnownOpt::AUTHENTICATION => 37,
            KnownOpt::ENCRYPTION => 38,
            KnownOpt::NEW_ENVIRONMENT => 39,
            KnownOpt::TN2370E => 40,
            KnownOpt::XAUTH => 41,
            KnownOpt::CHARSET => 42,
            KnownOpt::RSP => 43,
            KnownOpt::CPC => 44,
            KnownOpt::SLE => 45,
            KnownOpt::STARTTLS => 46,
            KnownOpt::KERMIT => 47,
            KnownOpt::SEND_URL => 48,
            KnownOpt::FORWARD_X => 49,
            KnownOpt::MSDP => 69,
            KnownOpt::MSSP => 70,
            KnownOpt::MCCPV1 => 85,
            KnownOpt::MCCPV2 => 86,
            KnownOpt::MSP => 90,
            KnownOpt::MXP => 91,
            KnownOpt::XMP => 93,
            KnownOpt::LOGON => 138,
            KnownOpt::SSPI_LOGON => 139,
            KnownOpt::HEARTBEAT => 140,
            KnownOpt::ATCP => 200,
            KnownOpt::GMCP => 201,
            KnownOpt::EOL => 255,
        }
    }

    /// Look a wire byte up in the option registry.
    pub fn from_byte(b: u8) -> (r: Option<KnownOpt>)
        ensures
            r == known_opt_from_byte(b),
    {
        match b {
            0 => Some(KnownOpt::TRANSMIT_BINARY),
            1 => Some(KnownOpt::ECHO),
            2 => Some(KnownOpt::RECONNECTION),
            3 => Some(KnownOpt::SUPPRESS_GA),
            4 => Some(KnownOpt::MESSAGE_SIZE),
            5 => Some(KnownOpt::STATUS),
            6 => Some(KnownOpt::TIMING_MARK),
            7 => Some(KnownOpt::RC_TRANS),
            8 => Some(KnownOpt::LINE_WIDTH),
            9 => Some(KnownOpt::PAGE_SIZE),
            10 => Some(KnownOpt::NAOCRD),
            11 => Some(KnownOpt::NAOHTS),
            12 => Some(KnownOpt::NAOHTD),
            13 => Some(KnownOpt::NAOFFD),
            14 => Some(KnownOpt::NAOVTS),
            15 => Some(KnownOpt::NAOVTD),
            16 => Some(KnownOpt::NAOLFD),
            17 => Some(KnownOpt::EXTENDED_ASCII),
            18 => Some(KnownOpt::LOGOUT),
            19 => Some(KnownOpt::BYTE_MACRO),
            20 => Some(KnownOpt::DATA_ENTRY_TERMINAL),
            21 => Some(KnownOpt::SUPDUP),
            22 => Some(KnownOpt::SUPDUP_OUT),
            23 => Some(KnownOpt::SEND_LOC),
            24 => Some(KnownOpt::TERMINAL_TYPE),
            25 => Some(KnownOpt::EOR),
            26 => Some(KnownOpt::TACACS),
            27 => Some(KnownOpt::OUT_MARK),
            28 => Some(KnownOpt::TERM_LOC_NO),
            29 => Some(KnownOpt::TN3270),
            30 => Some(KnownOpt::X3_PAD),
            31 => Some(KnownOpt::NAWS),
            32 => Some(KnownOpt::TERMINAL_SPEED),
            33 => Some(KnownOpt::TOGGLE_FLOW_CONTROL),
            34 => Some(KnownOpt::LINEMODE),
            37 => Some(KnownOpt::AUTHENTICATION),
            38 => Some(KnownOpt::ENCRYPTION),
            39 => Some(KnownOpt::NEW_ENVIRONMENT),
            40 => Some(KnownOpt::TN2370E),
            41 => Some(KnownOpt::XAUTH),
            42 => Some(KnownOpt::CHARSET),
            43 => Some(KnownOpt::RSP),
            44 => Some(KnownOpt::CPC),
            45 => Some(KnownOpt::SLE),
            46 => Some(KnownOpt::STARTTLS),
            47 => Some(KnownOpt::KERMIT),
            48 => Some(KnownOpt::SEND_URL),
            49 => Some(KnownOpt::FORWARD_X),
            69 => Some(KnownOpt::MSDP),
            70 => Some(KnownOpt::MSSP),
            85 => Some(KnownOpt::MCCPV1),
            86 => Some(KnownOpt::MCCPV2),
            90 => Some(KnownOpt::MSP),
            91 => Some(KnownOpt::MXP),
            93 => Some(KnownOpt::XMP),
            138 => Some(KnownOpt::LOGON),
            139 => Some(KnownOpt::SSPI_LOGON),
            140 => Some(KnownOpt::HEARTBEAT),
            200 => Some(KnownOpt::ATCP),
            201 => Some(KnownOpt::GMCP),
            255 => Some(KnownOpt::EOL),
            _ => None,
        }
    }
}

/// A telnet option: either a registered code or any other byte, carried as is.
#[derive(Copy, Clone, Debug, PartialEq, Eq, Structural)]
pub enum Opt {
    /// A recognized telnet option.
    Known(KnownOpt),
    /// A valid, but unrecognized option.
    Unknown(u8),
}

/// The wire code of an option.
pub open spec fn opt_byte(o: Opt) -> u8 {
    match o {
        Opt::Known(k) => known_opt_byte(k),
        Opt::Unknown(b) => b,
    }
}

/// The option a wire byte stands for. Total: unregistered bytes are carried
/// through `Opt::Unknown`.
pub open spec fn opt_from_byte(b: u8) -> Opt {
    match known_opt_from_byte(b) {
        Some(k) => Opt::Known(k),
        None => Opt::Unknown(b),
    }
}

/// An option is canonical when an unregistered code is not hidden in the
/// `Unknown` variant of a registered one: exactly the options the parser
/// itself produces.
pub open spec fn wf_opt(o: Opt) -> bool {
    match o {
        Opt::Known(_) => true,
        Opt::Unknown(b) => known_opt_from_byte(b) is None,
    }
}

impl Opt {
    /// The wire code of this option.
    pub fn byte(self) -> (b: u8)
        ensures
            b == opt_byte(self),
    {
        match self {
            Opt::Known(k) => k.byte(),
            Opt::Unknown(b) => b,
        }
    }

    /// Resolve a wire byte against the option registry; never fails.
    pub fn from_byte(b: u8) -> (r: Opt)
        ensures
            r == opt_from_byte(b),
    {
        match KnownOpt::from_byte(b) {
            Some(k) => Opt::Known(k),
            None => Opt::Unknown(b),
        }
    }
}


impl From<u8> for Opt {
    /// Resolve a wire byte against the option registry; never fails.
    fn from(other: u8) -> (r: Opt) {
        Opt::from_byte(other)
    }
}

impl vstd::std_specs::convert::FromSpecImpl<u8> for Opt {
    open spec fn obeys_from_spec() -> bool {
        true
    }

    open spec fn from_spec(other: u8) -> Opt {
        opt_from_byte(other)
    }
}

impl From<Opt> for u8 {
    /// The wire code of an option.
    fn from(other: Opt) -> (r: u8) {
        other.byte()
    }
}

impl vstd::std_specs::convert::FromSpecImpl<Opt> for u8 {
    open spec fn obeys_from_spec() -> bool {
        true
    }

    open spec fn from_spec(other: Opt) -> u8 {
        opt_byte(other)
    }
}

/// Looking a registered option's own wire code up yields that option back.
pub proof fn lemma_known_opt_roundtrip(o: KnownOpt)
    ensures
        known_opt_from_byte(known_opt_byte(o)) == Some(o),
{
}

/// Option codes are total and lossless: every byte round-trips through the
/// option model unchanged.
pub proof fn lemma_opt_byte_roundtrip(b: u8)
    ensures
        opt_byte(opt_from_byte(b)) == b,
{
}

/// A canonical option round-trips through its wire code.
pub proof fn lemma_opt_roundtrip(o: Opt)
    requires
        wf_opt(o),
    ensures
        opt_from_byte(opt_byte(o)) == o,
{
    if let Opt::Known(k) = o {
        lemma_known_opt_roundtrip(k);
    }
}

} // verus!
