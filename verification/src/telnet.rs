//! The Telnet layer: command and option codes, the decoder that separates
//! application data from in-band negotiation and answers it, and the
//! escaping of outbound data.

use crate::com::{Com, ComError, Queues};
use std::collections::VecDeque;
use vstd::prelude::*;

verus! {

/// "Interpret as command": the byte that introduces a control sequence.
pub const IAC: u8 = 0xFF;

/// A byte that the decoder could not interpret.
#[derive(Debug, Clone, Copy, PartialEq, Eq, Structural)]
pub enum TelnetError {
    /// The byte is no command code.
    UnknownCommand(u8),
    /// The byte after a negotiation verb is no registered option code.
    UnknownOption(u8),
}

/// The commands that may follow `IAC`.
#[derive(Debug, Clone, Copy, PartialEq, Eq, Structural)]
pub enum TelnetCmd {
    /// End of subnegotiation parameters.
    SE,
    /// No operation.
    NOP,
    /// The data stream portion of a Synch.
    DataMark,
    /// NVT character BRK.
    Break,
    /// Interrupt process.
    IP,
    /// Abort output.
    AO,
    /// Are you there.
    AYT,
    /// Erase character.
    EC,
    /// Erase line.
    EL,
    /// Go ahead.
    GA,
    /// Start of the subnegotiation of an option.
    SB,
    /// The sender wants to begin performing an option, or confirms that it does.
    WILL,
    /// The sender refuses to perform an option, or to go on with it.
    WONT,
    /// The sender asks the other party to perform an option, or confirms that it expects it to.
    DO,
    /// The sender demands that the other party stop performing an option.
    DONT,
    /// Data byte 255.
    IAC,
}

impl TelnetCmd {
    /// The command's code on the wire.
    pub open spec fn code(self) -> u8 {
        match self {
            TelnetCmd::SE => 0xF0,
            TelnetCmd::NOP => 0xF1,
            TelnetCmd::DataMark => 0xF2,
            TelnetCmd::Break => 0xF3,
            TelnetCmd::IP => 0xF4,
            TelnetCmd::AO => 0xF5,
            TelnetCmd::AYT => 0xF6,
            TelnetCmd::EC => 0xF7,
            TelnetCmd::EL => 0xF8,
            TelnetCmd::GA => 0xF9,
            TelnetCmd::SB => 0xFA,
            TelnetCmd::WILL => 0xFB,
            TelnetCmd::WONT => 0xFC,
            TelnetCmd::DO => 0xFD,
            TelnetCmd::DONT => 0xFE,
            TelnetCmd::IAC => 0xFF,
        }
    }

    /// The command's code on the wire.
    pub fn to_u8(self) -> (r: u8)
        ensures
            r == self.code(),
    {
        match self {
            TelnetCmd::SE => 0xF0,
            TelnetCmd::NOP => 0xF1,
            TelnetCmd::DataMark => 0xF2,
            TelnetCmd::Break => 0xF3,
            TelnetCmd::IP => 0xF4,
            TelnetCmd::AO => 0xF5,
            TelnetCmd::AYT => 0xF6,
            TelnetCmd::EC => 0xF7,
            TelnetCmd::EL => 0xF8,
            TelnetCmd::GA => 0xF9,
            TelnetCmd::SB => 0xFA,
            TelnetCmd::WILL => 0xFB,
            TelnetCmd::WONT => 0xFC,
            TelnetCmd::DO => 0xFD,
            TelnetCmd::DONT => 0xFE,
            TelnetCmd::IAC => 0xFF,
        }
    }

    /// Reads a command code. Exactly the bytes from `0xF0` up are commands.
    pub fn get(byte: u8) -> (r: Result<TelnetCmd, TelnetError>)
        ensures
            byte >= 0xF0 ==> r is Ok && r->Ok_0.code() == byte,
            byte < 0xF0 ==> r == Err::<TelnetCmd, TelnetError>(TelnetError::UnknownCommand(byte)),
    {
        let cmd = match byte {
            0xF0 => TelnetCmd::SE,
            0xF1 => TelnetCmd::NOP,
            0xF2 => TelnetCmd::DataMark,
            0xF3 => TelnetCmd::Break,
            0xF4 => TelnetCmd::IP,
            0xF5 => TelnetCmd::AO,
            0xF6 => TelnetCmd::AYT,
            0xF7 => TelnetCmd::EC,
            0xF8 => TelnetCmd::EL,
            0xF9 => TelnetCmd::GA,
            0xFA => TelnetCmd::SB,
            0xFB => TelnetCmd::WILL,
            0xFC => TelnetCmd::WONT,
            0xFD => TelnetCmd::DO,
            0xFE => TelnetCmd::DONT,
            0xFF => TelnetCmd::IAC,
            _ => {
                return Err(TelnetError::UnknownCommand(byte));
            },
        };
        Ok(cmd)
    }

    /// The two-byte sequence `IAC`, command.
    pub fn to_bytes(&self) -> (r: [u8; 2])
        ensures
            r@ == seq![IAC, self.code()],
    {
        let r = [IAC, self.to_u8()];
        proof {
            assert(r@ =~= seq![IAC, self.code()]);
        }
        r
    }

    /// The three-byte sequence `IAC`, command, option.
    pub fn to_bytes_opt(&self, opt: TelnetOption) -> (r: [u8; 3])
        ensures
            r@ == seq![IAC, self.code(), opt.code()],
    {
        let r = [IAC, self.to_u8(), opt.to_u8()];
        proof {
            assert(r@ =~= seq![IAC, self.code(), opt.code()]);
        }
        r
    }
}

/// The options of the IANA Telnet option registry.
#[derive(Debug, Clone, Copy, PartialEq, Eq, Structural)]
pub enum TelnetOption {
    TransmitBinary,
    Echo,
    Reconnection,
    SuppressGoAhead,
    ApproxMessageSizeNegotiation,
    Status,
    TimingMark,
    RemoteControlledTransAndEcho,
    OutputLineWidth,
    OutputPageSize,
    OutputCarriageReturnDisposition,
    OutputHorizontalTabStops,
    OutputHorizontalTabDisposition,
    OutputFormfeedDisposition,
    OutputVerticalTabstops,
    OutputVerticalTabDisposition,
    OutputLinefeedDisposition,
    ExtendedASCII,
    Logout,
    ByteMacro,
    DataEntryTerminal,
    SUPDUP,
    SUPDUPOutput,
    SendLocation,
    TerminalType,
    EndOfRecord,
    TacacsUserIdentification,
    OutputMarking,
    TerminalLocationNumber,
    Telnet3270Regime,
    X3Pad,
    NegotiateAboutWindowSize,
    TerminalSpeed,
    ToggleFlowControl,
    LineMode,
    XDisplayLocation,
    EnvironmentOption,
    Authentication,
    Encrypt,
    NewEnviron,
    TN3270E,
    XAuth,
    CharSet,
    TelnetRemoteSerialPortRSP,
    ComPortControlOption,
    TelnetSuppressLocalEcho,
    TelnetStartTLS,
    Kermit,
    SendURL,
    ForwardX,
    TelOptPragmaLogon,
    TelOptSSPILogon,
    TelOptPragmaHeartbeat,
    ExtendedOptionsList,
}

/// Whether `byte` is a registered option code.
pub open spec fn is_option_code(byte: u8) -> bool {
    byte <= 49 || (138 <= byte && byte <= 140) || byte == 255
}

impl TelnetOption {
    /// The option's code on the wire.
    pub open spec fn code(self) -> u8 {
        match self {
            TelnetOption::TransmitBinary => 0,
            TelnetOption::Echo => 1,
            TelnetOption::Reconnection => 2,
            TelnetOption::SuppressGoAhead => 3,
            TelnetOption::ApproxMessageSizeNegotiation => 4,
            TelnetOption::Status => 5,
            TelnetOption::TimingMark => 6,
            TelnetOption::RemoteControlledTransAndEcho => 7,
            TelnetOption::OutputLineWidth => 8,
            TelnetOption::OutputPageSize => 9,
            TelnetOption::OutputCarriageReturnDisposition => 10,
            TelnetOption::OutputHorizontalTabStops => 11,
            TelnetOption::OutputHorizontalTabDisposition => 12,
            TelnetOption::OutputFormfeedDisposition => 13,
            TelnetOption::OutputVerticalTabstops => 14,
            TelnetOption::OutputVerticalTabDisposition => 15,
            TelnetOption::OutputLinefeedDisposition => 16,
            TelnetOption::ExtendedASCII => 17,
            TelnetOption::Logout => 18,
            TelnetOption::ByteMacro => 19,
            TelnetOption::DataEntryTerminal => 20,
            TelnetOption::SUPDUP => 21,
            TelnetOption::SUPDUPOutput => 22,
            TelnetOption::SendLocation => 23,
            TelnetOption::TerminalType => 24,
            TelnetOption::EndOfRecord => 25,
            TelnetOption::TacacsUserIdentification => 26,
            TelnetOption::OutputMarking => 27,
            TelnetOption::TerminalLocationNumber => 28,
            TelnetOption::Telnet3270Regime => 29,
            TelnetOption::X3Pad => 30,
            TelnetOption::NegotiateAboutWindowSize => 31,
            TelnetOption::TerminalSpeed => 32,
            TelnetOption::ToggleFlowControl => 33,
            TelnetOption::LineMode => 34,
            TelnetOption::XDisplayLocation => 35,
            TelnetOption::EnvironmentOption => 36,
            TelnetOption::Authentication => 37,
            TelnetOption::Encrypt => 38,
            TelnetOption::NewEnviron => 39,
            TelnetOption::TN3270E => 40,
            TelnetOption::XAuth => 41,
            TelnetOption::CharSet => 42,
            TelnetOption::TelnetRemoteSerialPortRSP => 43,
            TelnetOption::ComPortControlOption => 44,
            TelnetOption::TelnetSuppressLocalEcho => 45,
            TelnetOption::TelnetStartTLS => 46,
            TelnetOption::Kermit => 47,
            TelnetOption::SendURL => 48,
            TelnetOption::ForwardX => 49,
            TelnetOption::TelOptPragmaLogon => 138,
            TelnetOption::TelOptSSPILogon => 139,
            TelnetOption::TelOptPragmaHeartbeat => 140,
            TelnetOption::ExtendedOptionsList => 255,
        }
    }

    /// The option's code on the wire.
    pub fn to_u8(self) -> (r: u8)
        ensures
            r == self.code(),
    {
        match self {
            TelnetOption::TransmitBinary => 0,
            TelnetOption::Echo => 1,
            TelnetOption::Reconnection => 2,
            TelnetOption::SuppressGoAhead => 3,
            TelnetOption::ApproxMessageSizeNegotiation => 4,
            TelnetOption::Status => 5,
            TelnetOption::TimingMark => 6,
            TelnetOption::RemoteControlledTransAndEcho => 7,
            TelnetOption::OutputLineWidth => 8,
            TelnetOption::OutputPageSize => 9,
            TelnetOption::OutputCarriageReturnDisposition => 10,
            TelnetOption::OutputHorizontalTabStops => 11,
            TelnetOption::OutputHorizontalTabDisposition => 12,
            TelnetOption::OutputFormfeedDisposition => 13,
            TelnetOption::OutputVerticalTabstops => 14,
            TelnetOption::OutputVerticalTabDisposition => 15,
            TelnetOption::OutputLinefeedDisposition => 16,
            TelnetOption::ExtendedASCII => 17,
            TelnetOption::Logout => 18,
            TelnetOption::ByteMacro => 19,
            TelnetOption::DataEntryTerminal => 20,
            TelnetOption::SUPDUP => 21,
            TelnetOption::SUPDUPOutput => 22,
            TelnetOption::SendLocation => 23,
            TelnetOption::TerminalType => 24,
            TelnetOption::EndOfRecord => 25,
            TelnetOption::TacacsUserIdentification => 26,
            TelnetOption::OutputMarking => 27,
            TelnetOption::TerminalLocationNumber => 28,
            TelnetOption::Telnet3270Regime => 29,
            TelnetOption::X3Pad => 30,
            TelnetOption::NegotiateAboutWindowSize => 31,
            TelnetOption::TerminalSpeed => 32,
            TelnetOption::ToggleFlowControl => 33,
            TelnetOption::LineMode => 34,
            TelnetOption::XDisplayLocation => 35,
            TelnetOption::EnvironmentOption => 36,
            TelnetOption::Authentication => 37,
            TelnetOption::Encrypt => 38,
            TelnetOption::NewEnviron => 39,
            TelnetOption::TN3270E => 40,
            TelnetOption::XAuth => 41,
            TelnetOption::CharSet => 42,
            TelnetOption::TelnetRemoteSerialPortRSP => 43,
            TelnetOption::ComPortControlOption => 44,
            TelnetOption::TelnetSuppressLocalEcho => 45,
            TelnetOption::TelnetStartTLS => 46,
            TelnetOption::Kermit => 47,
            TelnetOption::SendURL => 48,
            TelnetOption::ForwardX => 49,
            TelnetOption::TelOptPragmaLogon => 138,
            TelnetOption::TelOptSSPILogon => 139,
            TelnetOption::TelOptPragmaHeartbeat => 140,
            TelnetOption::ExtendedOptionsList => 255,
        }
    }

    /// Reads an option code. The registered codes are 0 to 49, 138 to 140
    /// and 255.
    pub fn get(byte: u8) -> (r: Result<TelnetOption, TelnetError>)
        ensures
            is_option_code(byte) ==> r is Ok && r->Ok_0.code() == byte,
            !is_option_code(byte) ==> r == Err::<TelnetOption, TelnetError>(
                TelnetError::UnknownOption(byte),
            ),
    {
        let opt = match byte {
            0 => TelnetOption::TransmitBinary,
            1 => TelnetOption::Echo,
            2 => TelnetOption::Reconnection,
            3 => TelnetOption::SuppressGoAhead,
            4 => TelnetOption::ApproxMessageSizeNegotiation,
            5 => TelnetOption::Status,
            6 => TelnetOption::TimingMark,
            7 => TelnetOption::RemoteControlledTransAndEcho,
            8 => TelnetOption::OutputLineWidth,
            9 => TelnetOption::OutputPageSize,
            10 => TelnetOption::OutputCarriageReturnDisposition,
            11 => TelnetOption::OutputHorizontalTabStops,
            12 => TelnetOption::OutputHorizontalTabDisposition,
            13 => TelnetOption::OutputFormfeedDisposition,
            14 => TelnetOption::OutputVerticalTabstops,
            15 => TelnetOption::OutputVerticalTabDisposition,
            16 => TelnetOption::OutputLinefeedDisposition,
            17 => TelnetOption::ExtendedASCII,
            18 => TelnetOption::Logout,
            19 => TelnetOption::ByteMacro,
            20 => TelnetOption::DataEntryTerminal,
            21 => TelnetOption::SUPDUP,
            22 => TelnetOption::SUPDUPOutput,
            23 => TelnetOption::SendLocation,
            24 => TelnetOption::TerminalType,
            25 => TelnetOption::EndOfRecord,
            26 => TelnetOption::TacacsUserIdentification,
            27 => TelnetOption::OutputMarking,
            28 => TelnetOption::TerminalLocationNumber,
            29 => TelnetOption::Telnet3270Regime,
            30 => TelnetOption::X3Pad,
            31 => TelnetOption::NegotiateAboutWindowSize,
            32 => TelnetOption::TerminalSpeed,
            33 => TelnetOption::ToggleFlowControl,
            34 => TelnetOption::LineMode,
            35 => TelnetOption::XDisplayLocation,
            36 => TelnetOption::EnvironmentOption,
            37 => TelnetOption::Authentication,
            38 => TelnetOption::Encrypt,
            39 => TelnetOption::NewEnviron,
            40 => TelnetOption::TN3270E,
            41 => TelnetOption::XAuth,
            42 => TelnetOption::CharSet,
            43 => TelnetOption::TelnetRemoteSerialPortRSP,
            44 => TelnetOption::ComPortControlOption,
            45 => TelnetOption::TelnetSuppressLocalEcho,
            46 => TelnetOption::TelnetStartTLS,
            47 => TelnetOption::Kermit,
            48 => TelnetOption::SendURL,
            49 => TelnetOption::ForwardX,
            138 => TelnetOption::TelOptPragmaLogon,
            139 => TelnetOption::TelOptSSPILogon,
            140 => TelnetOption::TelOptPragmaHeartbeat,
            255 => TelnetOption::ExtendedOptionsList,
            _ => {
                return Err(TelnetError::UnknownOption(byte));
            },
        };
        Ok(opt)
    }
}

/// Where the decoder stands in the inbound byte stream.
#[derive(Debug, Clone, Copy, PartialEq, Eq, Structural)]
pub enum ParserState {
    /// In application data.
    Data,
    /// After `IAC`: the next byte is a command.
    Iac,
    /// After `IAC WILL`: the next byte is the option that the peer offers.
    Will,
    /// After `IAC WONT`: the next byte is the option that the peer refuses.
    Wont,
    /// After `IAC DO`: the next byte is the option that the peer asks for.
    Do,
    /// After `IAC DONT`: the next byte is the option that the peer forbids.
    Dont,
}

/// What one inbound byte brings about: the next parser state, the
/// application bytes it yields (none or one) and the bytes to send back.
pub struct Step {
    pub state: ParserState,
    pub data: Seq<u8>,
    pub reply: Seq<u8>,
}

/// The decoder's transition on one inbound byte.
///
/// After `IAC`, a byte that asks nothing of the decoder is passed over and
/// the decoder is back in application data: a command that needs no answer,
/// and a byte that is no command at all. Only the binary-transmission
/// option (code 0) is ever agreed to; every other registered option is
/// refused, and an unregistered one is an error.
pub open spec fn step(state: ParserState, b: u8) -> Result<Step, TelnetError> {
    match state {
        ParserState::Data => if b == IAC {
            Ok(Step { state: ParserState::Iac, data: seq![], reply: seq![] })
        } else {
            Ok(Step { state: ParserState::Data, data: seq![b], reply: seq![] })
        },
        ParserState::Iac => if b == TelnetCmd::AYT.code() {
            Ok(
                Step {
                    state: ParserState::Data,
                    data: seq![],
                    reply: seq![IAC, TelnetCmd::NOP.code()],
                },
            )
        } else if b == IAC {
            Ok(Step { state: ParserState::Data, data: seq![IAC], reply: seq![] })
        } else if b == TelnetCmd::WILL.code() {
            Ok(Step { state: ParserState::Will, data: seq![], reply: seq![] })
        } else if b == TelnetCmd::WONT.code() {
            Ok(Step { state: ParserState::Wont, data: seq![], reply: seq![] })
        } else if b == TelnetCmd::DO.code() {
            Ok(Step { state: ParserState::Do, data: seq![], reply: seq![] })
        } else if b == TelnetCmd::DONT.code() {
            Ok(Step { state: ParserState::Dont, data: seq![], reply: seq![] })
        } else {
            Ok(Step { state: ParserState::Data, data: seq![], reply: seq![] })
        },
        ParserState::Will => if !is_option_code(b) {
            Err(TelnetError::UnknownOption(b))
        } else if b == TelnetOption::TransmitBinary.code() {
            Ok(
                Step {
                    state: ParserState::Data,
                    data: seq![],
                    reply: seq![IAC, TelnetCmd::DO.code(), b],
                },
            )
        } else {
            Ok(
                Step {
                    state: ParserState::Data,
                    data: seq![],
                    reply: seq![IAC, TelnetCmd::DONT.code(), b],
                },
            )
        },
        ParserState::Do => if !is_option_code(b) {
            Err(TelnetError::UnknownOption(b))
        } else if b == TelnetOption::TransmitBinary.code() {
            Ok(
                Step {
                    state: ParserState::Data,
                    data: seq![],
                    reply: seq![IAC, TelnetCmd::WILL.code(), b],
                },
            )
        } else {
            Ok(
                Step {
                    state: ParserState::Data,
                    data: seq![],
                    reply: seq![IAC, TelnetCmd::WONT.code(), b],
                },
            )
        },
        ParserState::Wont | ParserState::Dont => if !is_option_code(b) {
            Err(TelnetError::UnknownOption(b))
        } else {
            Ok(Step { state: ParserState::Data, data: seq![], reply: seq![] })
        },
    }
}

/// The decoder as a value: its parser state, the application bytes decoded
/// and not yet read, and the wire bytes waiting to be sent.
pub struct TelnetView {
    pub state: ParserState,
    pub decoded: Seq<u8>,
    pub outgoing: Seq<u8>,
}

/// What the decoder makes of a run of inbound wire bytes: each byte takes one
/// `step`, its data goes to the back of `decoded` and its reply to the back
/// of `outgoing`. The first byte that `step` rejects stops the run: the
/// decoder stays as the bytes before it left it, the rejected byte and those
/// after it are dropped, and the error is reported.
pub open spec fn run(v: TelnetView, wire: Seq<u8>) -> (TelnetView, Option<TelnetError>)
    decreases wire.len(),
{
    if wire.len() == 0 {
        (v, None)
    } else {
        match step(v.state, wire[0]) {
            Err(e) => (v, Some(e)),
            Ok(s) => run(
                TelnetView {
                    state: s.state,
                    decoded: v.decoded + s.data,
                    outgoing: v.outgoing + s.reply,
                },
                wire.skip(1),
            ),
        }
    }
}

/// Outbound application data as it goes on the wire: every `IAC` byte
/// doubled, every other byte as it is.
pub open spec fn escaped(data: Seq<u8>) -> Seq<u8>
    decreases data.len(),
{
    if data.len() == 0 {
        seq![]
    } else if data.last() == IAC {
        escaped(data.drop_last()).push(IAC).push(IAC)
    } else {
        escaped(data.drop_last()).push(data.last())
    }
}

/// Escapes outbound application data for the wire.
pub fn escape(buf: &[u8]) -> (r: Vec<u8>)
    ensures
        r@ == escaped(buf@),
{
    let mut data: Vec<u8> = Vec::with_capacity(buf.len());
    let mut i: usize = 0;
    while i < buf.len()
        invariant
            i <= buf.len(),
            data@ == escaped(buf@.take(i as int)),
        decreases buf.len() - i,
    {
        proof {
            assert(buf@.take(i + 1).drop_last() =~= buf@.take(i as int));
        }
        let b = buf[i];
        if b == IAC {
            data.push(IAC);
            data.push(IAC);
        } else {
            data.push(b);
        }
        i = i + 1;
    }
    proof {
        assert(buf@.take(i as int) =~= buf@);
    }
    data
}

/// The Telnet transport without its socket: it is fed the bytes that came
/// off the wire and collects the bytes that must go onto it. Whoever owns
/// the socket moves the bytes.
pub struct TelnetCom {
    state: ParserState,
    buf: VecDeque<u8>,
    outgoing: Vec<u8>,
    consumed: Ghost<Seq<u8>>,
    written: Ghost<Seq<u8>>,
}

impl View for TelnetCom {
    type V = TelnetView;

    closed spec fn view(&self) -> TelnetView {
        TelnetView { state: self.state, decoded: self.buf@, outgoing: self.outgoing@ }
    }
}

impl TelnetCom {
    /// A decoder in application data, with nothing decoded and nothing to
    /// send.
    pub fn new() -> (r: Self)
        ensures
            r@ == (TelnetView { state: ParserState::Data, decoded: seq![], outgoing: seq![] }),
            r.consumed() == Seq::<u8>::empty(),
            r.written() == Seq::<u8>::empty(),
    {
        let r = TelnetCom {
            state: ParserState::Data,
            buf: VecDeque::new(),
            outgoing: Vec::new(),
            consumed: Ghost(Seq::empty()),
            written: Ghost(Seq::empty()),
        };
        proof {
            assert(r.buf@ =~= seq![]);
            assert(r.outgoing@ =~= seq![]);
        }
        r
    }

    /// Decodes one inbound wire byte.
    fn parse_byte(&mut self, b: u8) -> (r: Result<(), TelnetError>)
        ensures
            final(self).consumed() == old(self).consumed(),
            final(self).written() == old(self).written(),
            match step(old(self)@.state, b) {
                Ok(s) => r is Ok && final(self)@ == (TelnetView {
                    state: s.state,
                    decoded: old(self)@.decoded + s.data,
                    outgoing: old(self)@.outgoing + s.reply,
                }),
                Err(e) => r == Err::<(), TelnetError>(e) && final(self)@ == old(self)@,
            },
    {
        match self.state {
            ParserState::Data => {
                if b == IAC {
                    self.state = ParserState::Iac;
                } else {
                    self.buf.push_back(b);
                }
            },
            ParserState::Iac => {
                match TelnetCmd::get(b) {
                    Err(_) => {
                        self.state = ParserState::Data;
                    },
                    Ok(TelnetCmd::AYT) => {
                        self.outgoing.push(IAC);
                        self.outgoing.push(TelnetCmd::NOP.to_u8());
                        self.state = ParserState::Data;
                    },
                    Ok(TelnetCmd::SE) | Ok(TelnetCmd::NOP) | Ok(TelnetCmd::GA) => {
                        self.state = ParserState::Data;
                    },
                    Ok(TelnetCmd::IAC) => {
                        self.buf.push_back(IAC);
                        self.state = ParserState::Data;
                    },
                    Ok(TelnetCmd::WILL) => {
                        self.state = ParserState::Will;
                    },
                    Ok(TelnetCmd::WONT) => {
                        self.state = ParserState::Wont;
                    },
                    Ok(TelnetCmd::DO) => {
                        self.state = ParserState::Do;
                    },
                    Ok(TelnetCmd::DONT) => {
                        self.state = ParserState::Dont;
                    },
                    Ok(_) => {
                        self.state = ParserState::Data;
                    },
                }
            },
            ParserState::Will => {
                match TelnetOption::get(b) {
                    Err(e) => {
                        return Err(e);
                    },
                    Ok(opt) => {
                        let verb = if opt == TelnetOption::TransmitBinary {
                            TelnetCmd::DO
                        } else {
                            TelnetCmd::DONT
                        };
                        self.outgoing.push(IAC);
                        self.outgoing.push(verb.to_u8());
                        self.outgoing.push(opt.to_u8());
                        self.state = ParserState::Data;
                    },
                }
            },
            ParserState::Do => {
                match TelnetOption::get(b) {
                    Err(e) => {
                        return Err(e);
                    },
                    Ok(opt) => {
                        let verb = if opt == TelnetOption::TransmitBinary {
                            TelnetCmd::WILL
                        } else {
                            TelnetCmd::WONT
                        };
                        self.outgoing.push(IAC);
                        self.outgoing.push(verb.to_u8());
                        self.outgoing.push(opt.to_u8());
                        self.state = ParserState::Data;
                    },
                }
            },
            ParserState::Wont | ParserState::Dont => {
                match TelnetOption::get(b) {
                    Err(e) => {
                        return Err(e);
                    },
                    Ok(_) => {
                        self.state = ParserState::Data;
                    },
                }
            },
        }
        proof {
            let s = step(old(self)@.state, b)->Ok_0;
            assert(self@.decoded =~= old(self)@.decoded + s.data);
            assert(self@.outgoing =~= old(self)@.outgoing + s.reply);
        }
        Ok(())
    }

    /// Decodes a run of bytes that came off the wire. Application data is
    /// buffered for reading, negotiation is answered into the outgoing wire
    /// bytes. A byte after `IAC` that is no command is passed over. Decoding
    /// stops at the first option byte that is not registered.
    pub fn parse(&mut self, data: &[u8]) -> (r: Result<(), TelnetError>)
        ensures
            final(self)@ == run(old(self)@, data@).0,
            r == (match run(old(self)@, data@).1 {
                None => Ok::<(), TelnetError>(()),
                Some(e) => Err::<(), TelnetError>(e),
            }),
            final(self).consumed() == old(self).consumed(),
            final(self).written() == old(self).written(),
    {
        let mut i: usize = 0;
        proof {
            assert(data@.skip(0) =~= data@);
        }
        while i < data.len()
            invariant
                i <= data.len(),
                run(self@, data@.skip(i as int)) == run(old(self)@, data@),
                self.consumed() == old(self).consumed(),
                self.written() == old(self).written(),
            decreases data.len() - i,
        {
            let ghost before = self@;
            proof {
                assert(data@.skip(i as int)[0] == data@[i as int]);
                assert(data@.skip(i as int).skip(1) =~= data@.skip(i + 1));
            }
            match self.parse_byte(data[i]) {
                Err(e) => {
                    return Err(e);
                },
                Ok(()) => {},
            }
            i = i + 1;
        }
        Ok(())
    }

    /// Takes in a run of bytes that came off the wire, as `parse` does, for
    /// a caller that speaks of channel failures: an option byte that is
    /// not registered is reported as an unsupported negotiation.
    pub fn fill(&mut self, data: &[u8]) -> (r: Result<(), ComError>)
        ensures
            final(self)@ == run(old(self)@, data@).0,
            r == (match run(old(self)@, data@).1 {
                None => Ok::<(), ComError>(()),
                Some(_) => Err::<(), ComError>(ComError::UnsupportedNegotiation),
            }),
            final(self).consumed() == old(self).consumed(),
            final(self).written() == old(self).written(),
    {
        match self.parse(data) {
            Ok(()) => Ok(()),
            Err(_) => Err(ComError::UnsupportedNegotiation),
        }
    }

    /// Hands over the wire bytes that wait to be sent and forgets them.
    pub fn take_outgoing(&mut self) -> (r: Vec<u8>)
        ensures
            r@ == old(self)@.outgoing,
            final(self)@ == (TelnetView { outgoing: seq![], ..old(self)@ }),
            final(self).consumed() == old(self).consumed(),
            final(self).written() == old(self).written(),
    {
        let mut out: Vec<u8> = Vec::new();
        std::mem::swap(&mut out, &mut self.outgoing);
        proof {
            assert(self.outgoing@ =~= seq![]);
        }
        out
    }

    /// The number of decoded bytes that can be read now.
    pub fn pending(&self) -> (r: usize)
        ensures
            r == self@.decoded.len(),
    {
        self.buf.len()
    }
}

impl Com for TelnetCom {
    closed spec fn consumed(&self) -> Seq<u8> {
        self.consumed@
    }

    closed spec fn written(&self) -> Seq<u8> {
        self.written@
    }

    /// Inbound is what is decoded and unread. Outbound is all that was
    /// written: the decoder never takes that back, and what stands on the
    /// wire for it, escaped and between the decoder's own answers, is the
    /// view's `outgoing`.
    open spec fn queues(&self) -> Option<Queues> {
        Some(Queues { inbound: self@.decoded, outbound: self.written() })
    }

    fn get_name(&self) -> (r: &'static str)
        ensures
            r@ == "Telnet"@,
    {
        "Telnet"
    }

    /// Queues `buf` for the wire, escaped.
    fn write(&mut self, buf: &[u8]) -> (r: Result<usize, ComError>)
        ensures
            r is Ok,
            final(self)@ == (TelnetView {
                outgoing: old(self)@.outgoing + escaped(buf@),
                ..old(self)@
            }),
    {
        let data = escape(buf);
        let mut i: usize = 0;
        while i < data.len()
            invariant
                i <= data.len(),
                self.outgoing@ == old(self).outgoing@ + data@.take(i as int),
                self.buf == old(self).buf,
                self.state == old(self).state,
                self.consumed == old(self).consumed,
                self.written == old(self).written,
            decreases data.len() - i,
        {
            self.outgoing.push(data[i]);
            proof {
                assert(data@.take(i + 1) =~= data@.take(i as int).push(data@[i as int]));
                assert(self.outgoing@ =~= old(self).outgoing@ + data@.take(i + 1));
            }
            i = i + 1;
        }
        proof {
            assert(data@.take(i as int) =~= data@);
            self.written@ = self.written@ + buf@;
        }
        Ok(buf.len())
    }

    /// Takes the oldest decoded byte. Without a socket there is nothing to
    /// wait for: with nothing decoded the read times out at once.
    fn read_char(&mut self, timeout_ms: u64) -> (r: Result<u8, ComError>)
        ensures
            r == (if old(self)@.decoded.len() == 0 {
                Err::<u8, ComError>(ComError::TimedOut)
            } else {
                Ok::<u8, ComError>(old(self)@.decoded[0])
            }),
            final(self)@ == (if r is Ok {
                TelnetView { decoded: old(self)@.decoded.skip(1), ..old(self)@ }
            } else {
                old(self)@
            }),
    {
        match self.buf.pop_front() {
            Some(b) => {
                proof {
                    self.consumed@ = self.consumed@.push(b);
                    assert(self.buf@ =~= old(self).buf@.skip(1));
                }
                Ok(b)
            },
            None => Err(ComError::TimedOut),
        }
    }

    /// Takes the oldest decoded byte, or reports that there is none.
    fn read_char_nonblocking(&mut self) -> (r: Result<u8, ComError>)
        ensures
            r == (if old(self)@.decoded.len() == 0 {
                Err::<u8, ComError>(ComError::WouldBlock)
            } else {
                Ok::<u8, ComError>(old(self)@.decoded[0])
            }),
            final(self)@ == (if r is Ok {
                TelnetView { decoded: old(self)@.decoded.skip(1), ..old(self)@ }
            } else {
                old(self)@
            }),
    {
        match self.buf.pop_front() {
            Some(b) => {
                proof {
                    self.consumed@ = self.consumed@.push(b);
                    assert(self.buf@ =~= old(self).buf@.skip(1));
                }
                Ok(b)
            },
            None => Err(ComError::WouldBlock),
        }
    }

    /// Takes the `bytes` oldest decoded bytes if that many are there, and
    /// times out at once, taking nothing, if they are not.
    fn read_exact(&mut self, timeout_ms: u64, bytes: usize) -> (r: Result<Vec<u8>, ComError>)
        ensures
            old(self)@.decoded.len() < bytes ==> r == Err::<Vec<u8>, ComError>(ComError::TimedOut)
                && final(self)@ == old(self)@,
            old(self)@.decoded.len() >= bytes ==> r is Ok && r->Ok_0@ == old(self)@.decoded.take(
                bytes as int,
            ) && final(self)@ == (TelnetView {
                decoded: old(self)@.decoded.skip(bytes as int),
                ..old(self)@
            }),
    {
        if self.buf.len() < bytes {
            return Err(ComError::TimedOut);
        }
        let mut out: Vec<u8> = Vec::new();
        let mut i: usize = 0;
        while i < bytes
            invariant
                i <= bytes,
                bytes <= old(self).buf@.len(),
                out@ == old(self).buf@.take(i as int),
                self.buf@ == old(self).buf@.skip(i as int),
                self.outgoing == old(self).outgoing,
                self.state == old(self).state,
                self.consumed == old(self).consumed,
                self.written == old(self).written,
            decreases bytes - i,
        {
            let ghost before = self.buf@;
            match self.buf.pop_front() {
                Some(b) => {
                    out.push(b);
                    proof {
                        assert(b == old(self).buf@[i as int]);
                        assert(out@ =~= old(self).buf@.take(i + 1));
                        assert(self.buf@ =~= old(self).buf@.skip(i + 1));
                    }
                },
                None => {
                    proof {
                        assert(before.len() == old(self).buf@.len() - i);
                        assert(false);
                    }
                },
            }
            i = i + 1;
        }
        proof {
            self.consumed@ = self.consumed@ + out@;
        }
        Ok(out)
    }

    /// Whether a decoded byte is waiting.
    fn is_data_available(&mut self) -> (r: Result<bool, ComError>)
        ensures
            r == Ok::<bool, ComError>(old(self)@.decoded.len() > 0),
            final(self)@ == old(self)@,
    {
        Ok(self.buf.len() > 0)
    }

    /// Drops the decoded bytes that were not read. The parser state and the
    /// outgoing wire bytes stay.
    fn discard_buffer(&mut self) -> (r: Result<(), ComError>)
        ensures
            r is Ok,
            final(self)@ == (TelnetView { decoded: seq![], ..old(self)@ }),
    {
        self.buf.clear();
        proof {
            assert(self.buf@ =~= seq![]);
        }
        Ok(())
    }

    /// Nothing to close here: the socket belongs to the caller.
    fn disconnect(&mut self) -> (r: Result<(), ComError>)
        ensures
            r is Ok,
            final(self)@ == old(self)@,
    {
        Ok(())
    }
}

/// Decoding a run of bytes in two parts gives what decoding it whole gives:
/// if the first part decodes without error, the second part continues from
/// where the first one ended; if not, the run stops in the first part.
pub proof fn lemma_run_concat(v: TelnetView, a: Seq<u8>, b: Seq<u8>)
    ensures
        run(v, a + b) == (if run(v, a).1 is None {
            run(run(v, a).0, b)
        } else {
            run(v, a)
        }),
    decreases a.len(),
{
    if a.len() == 0 {
        assert(a + b =~= b);
    } else {
        assert((a + b)[0] == a[0]);
        assert((a + b).skip(1) =~= a.skip(1) + b);
        match step(v.state, a[0]) {
            Err(e) => {},
            Ok(s) => {
                lemma_run_concat(
                    TelnetView {
                        state: s.state,
                        decoded: v.decoded + s.data,
                        outgoing: v.outgoing + s.reply,
                    },
                    a.skip(1),
                    b,
                );
            },
        }
    }
}

/// Escaping and decoding are inverse: a decoder that stands in application
/// data and is fed the escaped form of `data` decodes exactly `data`, sends
/// nothing back, reports no error and stands in application data again.
pub proof fn lemma_escape_round_trip(v: TelnetView, data: Seq<u8>)
    requires
        v.state == ParserState::Data,
    ensures
        run(v, escaped(data)) == (TelnetView { decoded: v.decoded + data, ..v }, None::<
            TelnetError,
        >),
    decreases data.len(),
{
    if data.len() == 0 {
        assert(v.decoded + data =~= v.decoded);
    } else {
        let front = data.drop_last();
        let b = data.last();
        lemma_escape_round_trip(v, front);
        let mid = TelnetView { decoded: v.decoded + front, ..v };
        let tail = if b == IAC {
            seq![IAC, IAC]
        } else {
            seq![b]
        };
        assert(escaped(data) =~= escaped(front) + tail);
        lemma_run_concat(v, escaped(front), tail);
        assert(v.decoded + front + seq![b] =~= v.decoded + data);
        let none = Seq::<u8>::empty();
        assert(mid.decoded + none =~= mid.decoded);
        assert(mid.outgoing + none =~= mid.outgoing);
        let done = TelnetView { decoded: v.decoded + data, ..v };
        assert(mid.decoded + seq![b] =~= done.decoded);
        assert(run(v, escaped(data)) == run(mid, tail));
        if b == IAC {
            let after = TelnetView { state: ParserState::Iac, ..mid };
            assert(tail[0] == IAC);
            assert(tail.skip(1) =~= seq![IAC]);
            assert(tail.skip(1)[0] == IAC);
            assert(tail.skip(1).skip(1) =~= none);
            assert(step(ParserState::Data, IAC) == Ok::<Step, TelnetError>(
                Step { state: ParserState::Iac, data: none, reply: none },
            ));
            assert(run(mid, tail) == run(after, tail.skip(1)));
            assert(step(ParserState::Iac, IAC) == Ok::<Step, TelnetError>(
                Step { state: ParserState::Data, data: seq![IAC], reply: none },
            ));
            assert(run(after, tail.skip(1)) == run(done, tail.skip(1).skip(1)));
            assert(run(done, none) == (done, None::<TelnetError>));
        } else {
            assert(tail[0] == b);
            assert(tail.skip(1) =~= none);
            assert(step(ParserState::Data, b) == Ok::<Step, TelnetError>(
                Step { state: ParserState::Data, data: seq![b], reply: none },
            ));
            assert(run(mid, tail) == run(done, tail.skip(1)));
            assert(run(done, none) == (done, None::<TelnetError>));
        }
    }
}

/// What a decoder in application data makes of a three-byte negotiation
/// `IAC`, verb, option: nothing is decoded, `reply` is queued, and the
/// decoder is back in application data.
pub open spec fn answers(v: TelnetView, verb: TelnetCmd, opt: u8, reply: Seq<u8>) -> bool {
    run(v, seq![IAC, verb.code(), opt]) == (TelnetView { outgoing: v.outgoing + reply, ..v }, None::<
        TelnetError,
    >)
}

proof fn lemma_negotiation(v: TelnetView, verb: TelnetCmd, opt: u8)
    requires
        v.state == ParserState::Data,
        is_option_code(opt),
        verb == TelnetCmd::WILL || verb == TelnetCmd::WONT || verb == TelnetCmd::DO || verb
            == TelnetCmd::DONT,
    ensures
        answers(
            v,
            verb,
            opt,
            step(
                match verb {
                    TelnetCmd::WILL => ParserState::Will,
                    TelnetCmd::WONT => ParserState::Wont,
                    TelnetCmd::DO => ParserState::Do,
                    _ => ParserState::Dont,
                },
                opt,
            )->Ok_0.reply,
        ),
{
    let wire = seq![IAC, verb.code(), opt];
    let none = Seq::<u8>::empty();
    assert(v.decoded + none =~= v.decoded);
    assert(v.outgoing + none =~= v.outgoing);
    let v1 = TelnetView { state: ParserState::Iac, ..v };
    assert(wire.skip(1) =~= seq![verb.code(), opt]);
    assert(wire.skip(1).skip(1) =~= seq![opt]);
    assert(wire.skip(1).skip(1).skip(1) =~= none);
    assert(run(v, wire) == run(v1, wire.skip(1)));
    let st = match verb {
        TelnetCmd::WILL => ParserState::Will,
        TelnetCmd::WONT => ParserState::Wont,
        TelnetCmd::DO => ParserState::Do,
        _ => ParserState::Dont,
    };
    let v2 = TelnetView { state: st, ..v };
    assert(run(v1, wire.skip(1)) == run(v2, wire.skip(1).skip(1)));
    let s = step(st, opt)->Ok_0;
    let v3 = TelnetView { state: ParserState::Data, outgoing: v.outgoing + s.reply, ..v };
    assert(run(v2, wire.skip(1).skip(1)) == run(v3, wire.skip(1).skip(1).skip(1)));
}

/// An offered option is refused unless it is binary transmission: to
/// `IAC WILL opt` the decoder answers `IAC DONT opt` for every registered
/// option but binary transmission, which it accepts with `IAC DO`.
pub proof fn lemma_will_is_answered(v: TelnetView, opt: u8)
    requires
        v.state == ParserState::Data,
        is_option_code(opt),
    ensures
        opt != TelnetOption::TransmitBinary.code() ==> answers(
            v,
            TelnetCmd::WILL,
            opt,
            seq![IAC, TelnetCmd::DONT.code(), opt],
        ),
        opt == TelnetOption::TransmitBinary.code() ==> answers(
            v,
            TelnetCmd::WILL,
            opt,
            seq![IAC, TelnetCmd::DO.code(), opt],
        ),
{
    lemma_negotiation(v, TelnetCmd::WILL, opt);
}

/// A requested option is declined unless it is binary transmission: to
/// `IAC DO opt` the decoder answers `IAC WONT opt` for every registered
/// option but binary transmission, which it agrees to with `IAC WILL`.
pub proof fn lemma_do_is_answered(v: TelnetView, opt: u8)
    requires
        v.state == ParserState::Data,
        is_option_code(opt),
    ensures
        opt != TelnetOption::TransmitBinary.code() ==> answers(
            v,
            TelnetCmd::DO,
            opt,
            seq![IAC, TelnetCmd::WONT.code(), opt],
        ),
        opt == TelnetOption::TransmitBinary.code() ==> answers(
            v,
            TelnetCmd::DO,
            opt,
            seq![IAC, TelnetCmd::WILL.code(), opt],
        ),
{
    lemma_negotiation(v, TelnetCmd::DO, opt);
}

/// A refusal or a prohibition of a registered option is taken note of and
/// not answered.
pub proof fn lemma_wont_and_dont_are_not_answered(v: TelnetView, opt: u8)
    requires
        v.state == ParserState::Data,
        is_option_code(opt),
    ensures
        answers(v, TelnetCmd::WONT, opt, seq![]),
        answers(v, TelnetCmd::DONT, opt, seq![]),
{
    lemma_negotiation(v, TelnetCmd::WONT, opt);
    lemma_negotiation(v, TelnetCmd::DONT, opt);
}

/// A byte after `IAC` that is no command is passed over: a decoder in
/// application data that is fed `IAC` and a byte below the command codes
/// decodes nothing, queues nothing, reports no error and is back in
/// application data.
pub proof fn lemma_unknown_command_is_skipped(v: TelnetView, c: u8)
    requires
        v.state == ParserState::Data,
        c < 0xF0,
    ensures
        run(v, seq![IAC, c]) == (v, None::<TelnetError>),
{
    let wire = seq![IAC, c];
    let none = Seq::<u8>::empty();
    assert(v.decoded + none =~= v.decoded);
    assert(v.outgoing + none =~= v.outgoing);
    let v1 = TelnetView { state: ParserState::Iac, ..v };
    assert(wire.skip(1) =~= seq![c]);
    assert(wire.skip(1).skip(1) =~= none);
    assert(run(v, wire) == run(v1, wire.skip(1)));
    assert(run(v1, wire.skip(1)) == run(v, wire.skip(1).skip(1)));
}

/// "Are you there" is answered with "no operation": a decoder in
/// application data that is fed `IAC AYT` queues `IAC NOP`, decodes nothing
/// and is back in application data.
pub proof fn lemma_ayt_is_answered(v: TelnetView)
    requires
        v.state == ParserState::Data,
    ensures
        run(v, seq![IAC, TelnetCmd::AYT.code()]) == (
            TelnetView { outgoing: v.outgoing + seq![IAC, TelnetCmd::NOP.code()], ..v },
            None::<TelnetError>,
        ),
{
    let wire = seq![IAC, TelnetCmd::AYT.code()];
    let none = Seq::<u8>::empty();
    assert(v.decoded + none =~= v.decoded);
    assert(v.outgoing + none =~= v.outgoing);
    let v1 = TelnetView { state: ParserState::Iac, ..v };
    assert(wire.skip(1) =~= seq![TelnetCmd::AYT.code()]);
    assert(wire.skip(1).skip(1) =~= none);
    assert(run(v, wire) == run(v1, wire.skip(1)));
    let v2 = TelnetView {
        state: ParserState::Data,
        outgoing: v.outgoing + seq![IAC, TelnetCmd::NOP.code()],
        ..v
    };
    assert(run(v1, wire.skip(1)) == run(v2, wire.skip(1).skip(1)));
}

} // verus!
