use icy_term::com::{Com, ComError, TestCom};
use icy_term::protocol::xymodem::frame::build_frame;
use icy_term::protocol::xymodem::header::{build_end_of_batch, build_header};
use icy_term::protocol::xymodem::sy::{SendState, Sy};
use icy_term::protocol::xymodem::{Checksum, XYModemVariant};
use icy_term::protocol::{FileDescriptor, TransferError, TransferState};

const EOT: u8 = 0x04;
const ACK: u8 = 0x06;
const NAK: u8 = 0x15;
const CAN: u8 = 0x18;

fn padded(data: &[u8], len: usize) -> Vec<u8> {
    let mut v = data.to_vec();
    while v.len() < len {
        v.push(0x1A);
    }
    v
}

fn file(name: &str, data: &[u8]) -> FileDescriptor {
    FileDescriptor::create_test(name.to_string(), data.to_vec())
}

fn sender(variant: XYModemVariant, files: Vec<FileDescriptor>) -> Sy {
    let mut sy = Sy::new();
    sy.send(variant, files).expect("the files can be sent");
    sy
}

fn quiet(sy: &mut Sy, input: &[u8]) {
    let action = sy.step(input);
    assert_eq!(Vec::<u8>::new(), action.reply);
    assert_eq!(Ok(()), action.result);
}

#[test]
fn a_new_sender_is_idle() {
    let mut sy = Sy::new();
    assert!(sy.is_finished());
    assert_eq!(SendState::Idle, sy.state());
    assert_eq!(0, sy.error_count());
    quiet(&mut sy, &[b'C']);
    quiet(&mut sy, &[]);
    assert!(sy.is_finished());
}

#[test]
fn sending_waits_for_the_probe() {
    let mut sy = sender(XYModemVariant::XModem, vec![file("a", b"abc")]);
    assert_eq!(SendState::InitiateSend, sy.state());
    assert!(sy.state().awaits_input());
    assert_eq!(128, sy.block_length);
    quiet(&mut sy, &[]);
    quiet(&mut sy, &[b'x']);
    quiet(&mut sy, &[ACK]);
    assert_eq!(SendState::InitiateSend, sy.state());
    quiet(&mut sy, &[b'C']);
    assert_eq!(SendState::SendData(0, 0), sy.state());
    assert!(!sy.state().awaits_input());
}

#[test]
fn nothing_to_send_outside_a_batch_is_done_at_once() {
    let sy = sender(XYModemVariant::XModem1k, vec![]);
    assert!(sy.is_finished());
    let sy = sender(XYModemVariant::YModem, vec![]);
    assert_eq!(SendState::InitiateSend, sy.state());
}

#[test]
fn a_batch_refuses_names_that_cannot_be_announced() {
    for name in ["", "a\0b"] {
        let mut sy = Sy::new();
        assert_eq!(
            Err(TransferError::InvalidFileName),
            sy.send(XYModemVariant::YModem, vec![file("ok", b"1"), file(name, b"2")])
        );
        assert!(sy.is_finished());
        assert_eq!(XYModemVariant::XModem, sy.variant);
        // Outside a batch no name is sent.
        assert_eq!(Ok(()), sy.send(XYModemVariant::XModem, vec![file(name, b"2")]));
    }
    let long = "n".repeat(126);
    let mut sy = Sy::new();
    assert_eq!(Err(TransferError::InvalidFileName), sy.send(XYModemVariant::YModemG, vec![file(&long, b"2")]));
    assert_eq!(Ok(()), sy.send(XYModemVariant::YModemG, vec![file(&long[1..], b"2")]));
}

#[test]
fn the_probe_selects_the_checksum() {
    let mut sy = sender(XYModemVariant::XModem, vec![file("a", &[1, 2, 5, 10])]);
    quiet(&mut sy, &[b'C']);
    let action = sy.step(&[]);
    assert_eq!(build_frame(Checksum::CRC16, 1, &padded(&[1, 2, 5, 10], 128)), action.reply);
    assert_eq!(133, action.reply.len());
    assert_eq!(SendState::AckSendData(0, 0), sy.state());

    let mut sy = sender(XYModemVariant::XModem, vec![file("a", &[1, 2, 5, 10])]);
    quiet(&mut sy, &[NAK]);
    let action = sy.step(&[]);
    assert_eq!(build_frame(Checksum::Default, 1, &padded(&[1, 2, 5, 10], 128)), action.reply);
    assert_eq!(132, action.reply.len());
    assert_eq!(170, action.reply[131]);
}

#[test]
fn an_xmodem_file_goes_block_by_block() {
    let data: Vec<u8> = (0..300u32).map(|i| i as u8).collect();
    let mut sy = sender(XYModemVariant::XModem, vec![file("a", &data)]);
    quiet(&mut sy, &[b'C']);
    for (i, chunk) in data.chunks(128).enumerate() {
        assert_eq!(SendState::SendData(i * 128, 0), sy.state());
        let action = sy.step(&[]);
        assert_eq!(build_frame(Checksum::CRC16, i as u8 + 1, &padded(chunk, 128)), action.reply);
        assert_eq!(SendState::AckSendData(i * 128, 0), sy.state());
        quiet(&mut sy, &[b'C']);
        quiet(&mut sy, &[b'?']);
        assert_eq!(SendState::AckSendData(i * 128, 0), sy.state());
        quiet(&mut sy, &[ACK]);
    }
    assert_eq!(384, sy.bytes_send);
    assert_eq!(SendState::SendData(384, 0), sy.state());
    let action = sy.step(&[]);
    assert_eq!(vec![EOT], action.reply);
    assert_eq!(SendState::AckEndOfFile(0), sy.state());
    quiet(&mut sy, &[ACK]);
    assert!(sy.is_finished());
    assert_eq!(0, sy.error_count());
}

#[test]
fn a_file_of_whole_blocks_gets_no_filler_block() {
    let data = vec![7u8; 2048];
    let mut sy = sender(XYModemVariant::XModem1k, vec![file("a", &data)]);
    quiet(&mut sy, &[b'C']);
    for i in 0..2 {
        let action = sy.step(&[]);
        assert_eq!(build_frame(Checksum::CRC16, i + 1, &[7u8; 1024]), action.reply);
        assert_eq!(0x02, action.reply[0]);
        quiet(&mut sy, &[ACK]);
    }
    assert_eq!(vec![EOT], sy.step(&[]).reply);
}

#[test]
fn block_numbers_wrap_modulo_256() {
    let data = vec![1u8; 128 * 258];
    let mut sy = sender(XYModemVariant::XModem, vec![file("a", &data)]);
    quiet(&mut sy, &[b'C']);
    let mut numbers = Vec::new();
    for _ in 0..258 {
        let action = sy.step(&[]);
        assert_eq!(action.reply[1] ^ 0xFF, action.reply[2]);
        numbers.push(action.reply[1]);
        quiet(&mut sy, &[ACK]);
    }
    assert_eq!(&[1, 2, 3], &numbers[..3]);
    assert_eq!(&[254, 255, 0, 1, 2], &numbers[253..]);
}

#[test]
fn a_negative_acknowledgement_brings_the_same_block_again() {
    let mut sy = sender(XYModemVariant::XModem, vec![file("a", b"abcdef")]);
    quiet(&mut sy, &[b'C']);
    let first = sy.step(&[]).reply;
    for retries in 1..=5 {
        quiet(&mut sy, &[NAK]);
        assert_eq!(SendState::SendData(0, retries), sy.state());
        assert_eq!(first, sy.step(&[]).reply);
        assert_eq!(SendState::AckSendData(0, retries), sy.state());
    }
    assert_eq!(5, sy.error_count());
    let action = sy.step(&[NAK]);
    assert_eq!(vec![CAN, CAN], action.reply);
    assert_eq!(Err(TransferError::TooManyRetries), action.result);
    assert!(sy.is_finished());
    assert_eq!(6, sy.error_count());
}

#[test]
fn an_acknowledgement_resets_the_retry_counter() {
    let data = vec![3u8; 200];
    let mut sy = sender(XYModemVariant::XModem, vec![file("a", &data)]);
    quiet(&mut sy, &[b'C']);
    sy.step(&[]);
    quiet(&mut sy, &[NAK]);
    sy.step(&[]);
    quiet(&mut sy, &[ACK]);
    assert_eq!(SendState::SendData(128, 0), sy.state());
}

#[test]
fn silence_counts_as_a_negative_acknowledgement() {
    let mut sy = sender(XYModemVariant::XModem, vec![file("a", b"abcdef")]);
    quiet(&mut sy, &[b'C']);
    let first = sy.step(&[]).reply;
    quiet(&mut sy, &[]);
    assert_eq!(SendState::SendData(0, 1), sy.state());
    assert_eq!(first, sy.step(&[]).reply);
    quiet(&mut sy, &[ACK]);
    assert_eq!(vec![EOT], sy.step(&[]).reply);
    let action = sy.step(&[]);
    assert_eq!(vec![EOT], action.reply);
    assert_eq!(SendState::AckEndOfFile(1), sy.state());
}

#[test]
fn the_cancel_byte_ends_the_transfer() {
    for steps in 0..4 {
        let mut sy = sender(XYModemVariant::XModem, vec![file("a", b"abcdef")]);
        let script: [&[u8]; 4] = [b"C", b"", b"\x06", b""];
        for input in &script[..steps] {
            sy.step(input);
        }
        if sy.state().awaits_input() {
            let action = sy.step(&[CAN]);
            assert_eq!(Vec::<u8>::new(), action.reply);
            assert_eq!(Err(TransferError::Cancelled), action.result);
            assert!(sy.is_finished());
        }
    }
}

#[test]
fn a_rejected_end_of_transmission_is_sent_again() {
    let mut sy = sender(XYModemVariant::XModem, vec![file("a", b"abc")]);
    quiet(&mut sy, &[b'C']);
    sy.step(&[]);
    quiet(&mut sy, &[ACK]);
    assert_eq!(vec![EOT], sy.step(&[]).reply);
    for retries in 1..=5 {
        let action = sy.step(&[NAK]);
        assert_eq!(vec![EOT], action.reply);
        assert_eq!(SendState::AckEndOfFile(retries), sy.state());
    }
    let action = sy.step(&[NAK]);
    assert_eq!(vec![CAN, CAN], action.reply);
    assert_eq!(Err(TransferError::TooManyRetries), action.result);
}

#[test]
fn a_batch_announces_each_file_and_ends_with_an_empty_header() {
    let mut sy = sender(
        XYModemVariant::YModem,
        vec![file("foo.bar", &[1, 2, 5, 10]), file("baz", &[1, 42, 18, 19])],
    );
    quiet(&mut sy, &[b'C']);
    for (name, data) in [("foo.bar", [1u8, 2, 5, 10]), ("baz", [1, 42, 18, 19])] {
        assert_eq!(SendState::SendYModemHeader(0), sy.state());
        let header = sy.step(&[]).reply;
        assert_eq!(
            build_frame(Checksum::CRC16, 0, &build_header(name.as_bytes(), 4).expect("fits")),
            header
        );
        assert_eq!(0x01, header[0]);
        assert_eq!(SendState::AckSendYmodemHeader(0), sy.state());
        quiet(&mut sy, &[ACK]);
        assert_eq!(SendState::SendData(0, 0), sy.state());
        let block = sy.step(&[]).reply;
        assert_eq!(build_frame(Checksum::CRC16, 1, &padded(&data, 1024)), block);
        quiet(&mut sy, &[b'C']);
        quiet(&mut sy, &[ACK]);
        assert_eq!(vec![EOT], sy.step(&[]).reply);
        quiet(&mut sy, &[ACK]);
        assert_eq!(SendState::AckEndOfFile(0), sy.state());
        let again = sy.step(&[NAK]);
        assert_eq!(vec![EOT], again.reply);
        assert_eq!(SendState::AckSecondEndOfFile(0), sy.state());
        quiet(&mut sy, &[ACK]);
        assert_eq!(SendState::AwaitNextFile, sy.state());
        quiet(&mut sy, &[ACK]);
        assert_eq!(SendState::AwaitNextFile, sy.state());
        quiet(&mut sy, &[b'C']);
    }
    let last = sy.step(&[]).reply;
    assert_eq!(build_frame(Checksum::CRC16, 0, &build_end_of_batch()), last);
    assert_eq!(SendState::AckSendYmodemHeader(0), sy.state());
    quiet(&mut sy, &[ACK]);
    assert!(sy.is_finished());
}

#[test]
fn a_rejected_header_is_sent_again() {
    let mut sy = sender(XYModemVariant::YModem, vec![file("foo.bar", &[1, 2, 5, 10])]);
    quiet(&mut sy, &[b'C']);
    let header = sy.step(&[]).reply;
    for retries in 1..=5 {
        quiet(&mut sy, &[NAK]);
        assert_eq!(SendState::SendYModemHeader(retries), sy.state());
        assert_eq!(header, sy.step(&[]).reply);
    }
    let action = sy.step(&[NAK]);
    assert_eq!(vec![CAN, CAN], action.reply);
    assert_eq!(Err(TransferError::TooManyRetries), action.result);
}

#[test]
fn streaming_does_not_wait_for_acknowledgements() {
    let data: Vec<u8> = (0..2500u32).map(|i| i as u8).collect();
    for (variant, batch) in [(XYModemVariant::XModem1kG, false), (XYModemVariant::YModemG, true)] {
        let mut sy = sender(variant, vec![file("a", &data)]);
        quiet(&mut sy, &[b'C']);
        if batch {
            sy.step(&[]);
            quiet(&mut sy, &[ACK]);
        }
        for (i, chunk) in data.chunks(1024).enumerate() {
            assert_eq!(SendState::SendData(i * 1024, 0), sy.state());
            let action = sy.step(&[NAK]);
            assert_eq!(build_frame(Checksum::CRC16, i as u8 + 1, &padded(chunk, 1024)), action.reply);
        }
        assert_eq!(3 * 1024, sy.bytes_send);
        assert_eq!(vec![EOT], sy.step(&[]).reply);
        assert_eq!(SendState::AckEndOfFile(0), sy.state());
    }
}

#[test]
fn a_file_without_contents_is_only_ended() {
    let mut sy = Sy::new();
    assert_eq!(
        Err(TransferError::InvalidFileName),
        sy.send(XYModemVariant::YModem, vec![FileDescriptor::new()])
    );
    let mut empty = FileDescriptor::new();
    empty.file_name = "empty".to_string();
    assert_eq!(Ok(()), sy.send(XYModemVariant::YModem, vec![empty]));
    quiet(&mut sy, &[b'C']);
    let header = sy.step(&[]).reply;
    assert_eq!(b"empty\x000\0", &header[3..11]);
    quiet(&mut sy, &[ACK]);
    assert_eq!(vec![EOT], sy.step(&[]).reply);
}

#[test]
fn ticks_of_the_sender() {
    let mut com = TestCom::new();
    let mut state = TransferState::new();
    let mut sy = sender(XYModemVariant::XModem, vec![file("foo.bar", &[1, 2, 5, 10])]);
    assert_eq!(Ok(()), sy.update(&mut com, &mut state));
    assert_eq!("", state.current_state);
    assert!(!state.is_finished);
    let progress = state.send_state.clone().expect("the tick reports");
    assert_eq!("InitiateSend", progress.engine_state);
    assert_eq!("foo.bar", progress.file.expect("a file is in transfer").file_name);
    assert!(state.recieve_state.is_none());

    com.deliver(b"C");
    assert_eq!(Ok(()), sy.update(&mut com, &mut state));
    assert_eq!("Initiate send...", state.current_state);
    assert_eq!(Vec::<u8>::new(), com.take_outgoing());
    assert_eq!(Ok(()), sy.update(&mut com, &mut state));
    assert_eq!("Send data...", state.current_state);
    assert_eq!(build_frame(Checksum::CRC16, 1, &padded(&[1, 2, 5, 10], 128)), com.take_outgoing());
    assert_eq!(Ok(()), sy.update(&mut com, &mut state));
    assert_eq!(Vec::<u8>::new(), com.take_outgoing());
    com.deliver(&[ACK]);
    assert_eq!(Ok(()), sy.update(&mut com, &mut state));
    assert_eq!(Ok(()), sy.update(&mut com, &mut state));
    assert_eq!(vec![EOT], com.take_outgoing());
    com.deliver(&[ACK]);
    assert_eq!(Ok(()), sy.update(&mut com, &mut state));
    assert_eq!("End of file...", state.current_state);
    assert!(state.is_finished);
    assert!(sy.is_finished());
    assert_eq!(128, state.send_state.clone().expect("reported").bytes_transfered);
    assert_eq!(Ok(()), sy.update(&mut com, &mut state));
    assert_eq!("Idle", state.send_state.clone().expect("reported").engine_state);
}

#[test]
fn a_tick_passes_errors_on() {
    let mut com = TestCom::new();
    let mut state = TransferState::new();
    let mut sy = sender(XYModemVariant::XModem, vec![file("a", b"abc")]);
    com.deliver(&[CAN]);
    assert_eq!(Err(TransferError::Cancelled), sy.update(&mut com, &mut state));
    assert!(state.is_finished);

    let mut sy = sender(XYModemVariant::XModem, vec![file("a", b"abc")]);
    com.deliver(b"C");
    sy.update(&mut com, &mut state).expect("the probe is read");
    com.disconnect().expect("closing works");
    assert_eq!(Err(TransferError::Transport(ComError::TransportFailure)), sy.update(&mut com, &mut state));
    assert_eq!(SendState::AckSendData(0, 0), sy.state());
    assert_eq!(Err(TransferError::Transport(ComError::TransportFailure)), sy.cancel(&mut com));
    assert!(sy.is_finished());
}

#[test]
fn cancelling_the_sender() {
    let mut com = TestCom::new();
    let mut sy = sender(XYModemVariant::YModem, vec![file("a", b"abc")]);
    assert_eq!(Ok(()), sy.cancel(&mut com));
    assert_eq!(vec![CAN, CAN], com.take_outgoing());
    assert!(sy.is_finished());
}

#[test]
fn sender_state_labels() {
    assert_eq!("Idle", SendState::Idle.label());
    assert_eq!("InitiateSend", SendState::InitiateSend.label());
    assert_eq!("SendYModemHeader", SendState::SendYModemHeader(0).label());
    assert_eq!("AckSendYmodemHeader", SendState::AckSendYmodemHeader(0).label());
    assert_eq!("SendData", SendState::SendData(0, 0).label());
    assert_eq!("AckSendData", SendState::AckSendData(0, 0).label());
    assert_eq!("AckEndOfFile", SendState::AckEndOfFile(0).label());
    assert_eq!("AckSecondEndOfFile", SendState::AckSecondEndOfFile(0).label());
    assert_eq!("AwaitNextFile", SendState::AwaitNextFile.label());
}

#[test]
fn an_idle_sender_does_not_touch_the_channel() {
    let mut com = TestCom::new();
    let mut state = TransferState::new();
    let mut sy = Sy::new();
    com.deliver(&[ACK, b'C']);
    assert_eq!(Ok(()), sy.update(&mut com, &mut state));
    assert_eq!(2, com.pending());
    assert_eq!(Vec::<u8>::new(), com.take_outgoing());
    assert_eq!("", state.current_state);
    com.disconnect().expect("closing works");
    assert_eq!(Ok(()), sy.update(&mut com, &mut state));
    assert!(state.is_finished);
}

#[test]
fn a_sender_with_something_to_send_does_not_read() {
    let mut com = TestCom::new();
    let mut state = TransferState::new();
    let mut sy = sender(XYModemVariant::XModem1kG, vec![file("a", &[7u8; 1500])]);
    com.deliver(b"C");
    sy.update(&mut com, &mut state).expect("the probe is read");
    com.deliver(&[NAK, CAN]);
    assert_eq!(Ok(()), sy.update(&mut com, &mut state));
    assert_eq!(Ok(()), sy.update(&mut com, &mut state));
    assert_eq!(2, com.pending());
    assert_eq!(2 * 1029, com.take_outgoing().len());
    assert_eq!(SendState::SendData(2048, 0), sy.state());
}

#[test]
fn what_the_sender_says_of_itself() {
    let mut sy = sender(XYModemVariant::YModemG, vec![file("a", b"abc")]);
    assert_eq!(XYModemVariant::YModemG, sy.get_variant());
    assert_eq!(1024, sy.get_block_length());
    assert_eq!(0, sy.get_bytes_send());
    sy.step(b"C");
    sy.step(&[]);
    sy.step(&[ACK]);
    sy.step(&[]);
    assert_eq!(1024, sy.get_bytes_send());
}
