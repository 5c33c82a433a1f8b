use icy_term::com::{Com, ComError};
use icy_term::telnet::{escape, TelnetCmd, TelnetCom, TelnetError, TelnetOption, IAC};

fn decoder_with(wire: &[u8]) -> TelnetCom {
    let mut com = TelnetCom::new();
    com.parse(wire).expect("the wire bytes decode");
    com
}

#[test]
fn commands_are_the_bytes_from_f0_up() {
    assert_eq!(Ok(TelnetCmd::SE), TelnetCmd::get(0xF0));
    assert_eq!(Ok(TelnetCmd::NOP), TelnetCmd::get(0xF1));
    assert_eq!(Ok(TelnetCmd::AYT), TelnetCmd::get(0xF6));
    assert_eq!(Ok(TelnetCmd::SB), TelnetCmd::get(0xFA));
    assert_eq!(Ok(TelnetCmd::WILL), TelnetCmd::get(0xFB));
    assert_eq!(Ok(TelnetCmd::WONT), TelnetCmd::get(0xFC));
    assert_eq!(Ok(TelnetCmd::DO), TelnetCmd::get(0xFD));
    assert_eq!(Ok(TelnetCmd::DONT), TelnetCmd::get(0xFE));
    assert_eq!(Ok(TelnetCmd::IAC), TelnetCmd::get(0xFF));
    assert_eq!(Err(TelnetError::UnknownCommand(0xEF)), TelnetCmd::get(0xEF));
    assert_eq!(Err(TelnetError::UnknownCommand(0)), TelnetCmd::get(0));
}

#[test]
fn every_command_reads_back_from_its_code() {
    for byte in 0xF0..=0xFFu8 {
        let cmd = TelnetCmd::get(byte).expect("a command");
        assert_eq!(byte, cmd.to_u8());
        assert_eq!([IAC, byte], cmd.to_bytes());
    }
}

#[test]
fn command_sequences() {
    assert_eq!([0xFF, 0xF1], TelnetCmd::NOP.to_bytes());
    assert_eq!([0xFF, 0xFD, 0x00], TelnetCmd::DO.to_bytes_opt(TelnetOption::TransmitBinary));
    assert_eq!([0xFF, 0xFE, 0x01], TelnetCmd::DONT.to_bytes_opt(TelnetOption::Echo));
    assert_eq!([0xFF, 0xFC, 0x1F], TelnetCmd::WONT.to_bytes_opt(TelnetOption::NegotiateAboutWindowSize));
}

#[test]
fn registered_options_are_recognized() {
    assert_eq!(Ok(TelnetOption::TransmitBinary), TelnetOption::get(0));
    assert_eq!(Ok(TelnetOption::Echo), TelnetOption::get(1));
    assert_eq!(Ok(TelnetOption::SuppressGoAhead), TelnetOption::get(3));
    assert_eq!(Ok(TelnetOption::ApproxMessageSizeNegotiation), TelnetOption::get(4));
    assert_eq!(Ok(TelnetOption::TerminalType), TelnetOption::get(24));
    assert_eq!(Ok(TelnetOption::X3Pad), TelnetOption::get(30));
    assert_eq!(Ok(TelnetOption::NegotiateAboutWindowSize), TelnetOption::get(31));
    assert_eq!(Ok(TelnetOption::ForwardX), TelnetOption::get(49));
    assert_eq!(Ok(TelnetOption::TelOptPragmaLogon), TelnetOption::get(138));
    assert_eq!(Ok(TelnetOption::TelOptPragmaHeartbeat), TelnetOption::get(140));
    assert_eq!(Ok(TelnetOption::ExtendedOptionsList), TelnetOption::get(255));
}

#[test]
fn unregistered_options_are_rejected() {
    for byte in [50u8, 100, 137, 141, 200, 254] {
        assert_eq!(Err(TelnetError::UnknownOption(byte)), TelnetOption::get(byte));
    }
}

#[test]
fn every_option_reads_back_from_its_code() {
    let mut count = 0;
    for byte in 0..=255u8 {
        if let Ok(opt) = TelnetOption::get(byte) {
            assert_eq!(byte, opt.to_u8());
            count += 1;
        }
    }
    assert_eq!(54, count);
}

#[test]
fn escaping_doubles_iac_and_nothing_else() {
    assert_eq!(vec![0xFF, 0xFF], escape(&[0xFF]));
    assert_eq!(vec![1, 0xFF, 0xFF, 2, 0xFE, 0xFF, 0xFF, 0xFF, 0xFF], escape(&[1, 0xFF, 2, 0xFE, 0xFF, 0xFF]));
    assert_eq!(Vec::<u8>::new(), escape(&[]));
    assert_eq!(b"plain text".to_vec(), escape(b"plain text"));
}

#[test]
fn writing_iac_puts_two_on_the_wire() {
    let mut com = TelnetCom::new();
    assert_eq!(Ok(1), com.write(&[0xFF]));
    assert_eq!(vec![0xFF, 0xFF], com.take_outgoing());
    assert_eq!(Vec::<u8>::new(), com.take_outgoing());
}

#[test]
fn escaped_iac_decodes_to_one() {
    let mut com = decoder_with(&[0xFF, 0xFF]);
    assert_eq!(1, com.pending());
    assert_eq!(Ok(0xFF), com.read_char(0));
    assert_eq!(Vec::<u8>::new(), com.take_outgoing());
}

#[test]
fn what_is_written_decodes_to_itself() {
    let mut data = Vec::new();
    for i in 0..600u32 {
        data.push((i * 7 % 256) as u8);
        data.push(0xFF);
    }
    let mut near = TelnetCom::new();
    let mut far = TelnetCom::new();
    assert_eq!(Ok(data.len()), near.write(&data));
    let wire = near.take_outgoing();
    assert_eq!(data.len() + 600 + 3, wire.len());
    far.parse(&wire).expect("escaped data decodes");
    assert_eq!(Ok(data.clone()), far.read_exact(0, data.len()));
    assert_eq!(Vec::<u8>::new(), far.take_outgoing());
}

#[test]
fn an_offered_option_is_refused() {
    let mut com = decoder_with(&[0xFF, 0xFB, 0x01]);
    assert_eq!(vec![0xFF, 0xFE, 0x01], com.take_outgoing());
    assert_eq!(0, com.pending());
    let mut com = decoder_with(&[0xFF, 0xFB, 24]);
    assert_eq!(vec![0xFF, 0xFE, 24], com.take_outgoing());
}

#[test]
fn offered_binary_transmission_is_accepted() {
    let mut com = decoder_with(&[0xFF, 0xFB, 0x00]);
    assert_eq!(vec![0xFF, 0xFD, 0x00], com.take_outgoing());
}

#[test]
fn requested_binary_transmission_is_agreed_to() {
    let mut com = decoder_with(&[0xFF, 0xFD, 0x00]);
    assert_eq!(vec![0xFF, 0xFB, 0x00], com.take_outgoing());
}

#[test]
fn a_requested_option_is_declined() {
    let mut com = decoder_with(&[0xFF, 0xFD, 31]);
    assert_eq!(vec![0xFF, 0xFC, 31], com.take_outgoing());
}

#[test]
fn are_you_there_is_answered_with_no_operation() {
    let mut com = decoder_with(&[0xFF, 0xF6]);
    assert_eq!(vec![0xFF, 0xF1], com.take_outgoing());
    assert_eq!(0, com.pending());
}

#[test]
fn wont_and_dont_are_not_answered() {
    let mut com = decoder_with(&[0xFF, 0xFC, 0x01, 0xFF, 0xFE, 0x03, b'x']);
    assert_eq!(Vec::<u8>::new(), com.take_outgoing());
    assert_eq!(Ok(b'x'), com.read_char_nonblocking());
}

#[test]
fn silent_commands_are_consumed() {
    let mut com = decoder_with(&[b'a', 0xFF, 0xF0, 0xFF, 0xF1, 0xFF, 0xF9, 0xFF, 0xF2, 0xFF, 0xFA, b'b']);
    assert_eq!(Vec::<u8>::new(), com.take_outgoing());
    assert_eq!(Ok(vec![b'a', b'b']), com.read_exact(0, 2));
}

#[test]
fn negotiation_is_cut_out_of_the_data() {
    let mut com = decoder_with(b"he\xFF\xFB\x01llo\xFF\xFF!\xFF\xFD\x00");
    assert_eq!(vec![0xFF, 0xFE, 0x01, 0xFF, 0xFB, 0x00], com.take_outgoing());
    assert_eq!(Ok(b"hello\xFF!".to_vec()), com.read_exact(0, 7));
}

#[test]
fn a_sequence_may_be_split_between_reads() {
    let mut com = TelnetCom::new();
    assert_eq!(Ok(()), com.parse(&[b'a', 0xFF]));
    assert_eq!(Ok(()), com.parse(&[0xFB]));
    assert_eq!(Vec::<u8>::new(), com.take_outgoing());
    assert_eq!(Ok(()), com.parse(&[0x03, b'b']));
    assert_eq!(vec![0xFF, 0xFE, 0x03], com.take_outgoing());
    assert_eq!(Ok(vec![b'a', b'b']), com.read_exact(0, 2));
}

#[test]
fn an_unknown_command_is_skipped() {
    let mut com = TelnetCom::new();
    assert_eq!(Ok(()), com.parse(&[b'a', 0xFF, 0x41, b'b']));
    assert_eq!(Vec::<u8>::new(), com.take_outgoing());
    assert_eq!(Ok(vec![b'a', b'b']), com.read_exact(0, 2));
    // The decoder is back in application data.
    assert_eq!(Ok(()), com.parse(&[0xFF, 0x00, 0xFF, 0xEF, 0xFF, 0xFF, b'c']));
    assert_eq!(Vec::<u8>::new(), com.take_outgoing());
    assert_eq!(Ok(vec![0xFF, b'c']), com.read_exact(0, 2));
    assert_eq!(0, com.pending());
}

#[test]
fn an_unknown_option_stops_the_decoder() {
    let mut com = TelnetCom::new();
    assert_eq!(Err(TelnetError::UnknownOption(60)), com.parse(&[0xFF, 0xF6, 0xFF, 0xFB, 60, b'b']));
    assert_eq!(vec![0xFF, 0xF1], com.take_outgoing());
    assert_eq!(0, com.pending());
    assert_eq!(Err(TelnetError::UnknownOption(200)), com.parse(&[200]));
    assert_eq!(Ok(()), com.parse(&[1]));
    assert_eq!(vec![0xFF, 0xFE, 1], com.take_outgoing());
}

#[test]
fn reads_on_an_empty_decoder() {
    let mut com = TelnetCom::new();
    assert_eq!("Telnet", com.get_name());
    assert_eq!(Ok(false), com.is_data_available());
    assert_eq!(Err(ComError::TimedOut), com.read_char(10));
    assert_eq!(Err(ComError::WouldBlock), com.read_char_nonblocking());
    assert_eq!(Err(ComError::TimedOut), com.read_exact(10, 1));
    assert_eq!(Ok(Vec::new()), com.read_exact(10, 0));
    assert_eq!(Ok(()), com.disconnect());
}

#[test]
fn read_exact_takes_all_or_nothing() {
    let mut com = decoder_with(b"abc");
    assert_eq!(Ok(true), com.is_data_available());
    assert_eq!(Err(ComError::TimedOut), com.read_exact(0, 4));
    assert_eq!(3, com.pending());
    assert_eq!(Ok(b"ab".to_vec()), com.read_exact(0, 2));
    assert_eq!(Ok(b'c'), com.read_char_nonblocking());
    assert_eq!(Ok(false), com.is_data_available());
}

#[test]
fn discarding_drops_decoded_bytes_only() {
    let mut com = decoder_with(&[b'a', 0xFF, 0xF6, b'b', 0xFF]);
    assert_eq!(Ok(()), com.discard_buffer());
    assert_eq!(0, com.pending());
    assert_eq!(vec![0xFF, 0xF1], com.take_outgoing());
    // The parser state survives: the next byte is still a command.
    assert_eq!(Ok(()), com.parse(&[0xFF, b'c']));
    assert_eq!(Ok(vec![0xFF, b'c']), com.read_exact(0, 2));
}

#[test]
fn filling_reports_an_unregistered_option_as_a_channel_failure() {
    let mut com = TelnetCom::new();
    assert_eq!(Ok(()), com.fill(&[b'a', 0xFF, 0xFB, 0x01]));
    assert_eq!(vec![0xFF, 0xFE, 0x01], com.take_outgoing());
    assert_eq!(Ok(()), com.fill(&[b'b', 0xFF, 0x10, b'c']));
    assert_eq!(Ok(vec![b'a', b'b', b'c']), com.read_exact(0, 3));
    assert_eq!(Err(ComError::UnsupportedNegotiation), com.fill(&[0xFF, 0xFB, 0x32, b'd']));
    assert_eq!(0, com.pending());
    // The decoder still waits for the option.
    assert_eq!(Err(ComError::UnsupportedNegotiation), com.fill(&[200]));
    assert_eq!(Ok(()), com.fill(&[0x00]));
    assert_eq!(vec![0xFF, 0xFD, 0x00], com.take_outgoing());
    assert_eq!(Err(ComError::UnsupportedNegotiation), com.fill(&[0xFF, 0xFD, 77]));
    assert_eq!(Vec::<u8>::new(), com.take_outgoing());
}

#[test]
fn a_read_that_has_less_than_it_asks_for_times_out() {
    let mut com = decoder_with(b"ab");
    assert_eq!(Ok(vec![]), icy_term::com::read_input(&mut com, 0, 3));
    assert_eq!(Ok(vec![b'a']), icy_term::com::read_input(&mut com, 0, 1));
    assert_eq!(Ok(()), icy_term::com::answer(&mut com, true, &[0xFF, 6]));
    assert_eq!(0, com.pending());
    assert_eq!(vec![0xFF, 0xFF, 6], com.take_outgoing());
}
