use icy_term::com::{Com, TestCom};
use icy_term::protocol::xymodem::frame::build_frame;
use icy_term::protocol::xymodem::header::{build_end_of_batch, build_header};
use icy_term::protocol::xymodem::ry::{RecvState, Ry};
use icy_term::protocol::xymodem::{Checksum, XYModemVariant};
use icy_term::protocol::{TransferError, TransferState};

const SOH: u8 = 0x01;
const STX: u8 = 0x02;
const EOT: u8 = 0x04;
const ACK: u8 = 0x06;
const NAK: u8 = 0x15;
const CAN: u8 = 0x18;

fn padded(data: &[u8], len: usize) -> Vec<u8> {
    let mut v = data.to_vec();
    while v.len() < len {
        v.push(0x1A);
    }
    v
}

fn receiver(variant: XYModemVariant) -> Ry {
    let mut com = TestCom::new();
    let mut ry = Ry::new();
    ry.recv(&mut com, variant).expect("the probe is sent");
    assert_eq!(b"C".to_vec(), com.take_outgoing());
    ry
}

/// Feeds a whole block, start byte first, and returns the reply to the body.
fn feed_block(ry: &mut Ry, frame: &[u8]) -> Vec<u8> {
    let start = ry.feed(&frame[..1]);
    assert_eq!(Vec::<u8>::new(), start.reply);
    assert_eq!(Ok(()), start.result);
    assert_eq!(frame.len() - 1, ry.needed());
    let body = ry.feed(&frame[1..]);
    assert_eq!(Ok(()), body.result);
    body.reply
}

#[test]
fn a_new_receiver_is_idle() {
    let mut ry = Ry::new();
    assert!(ry.is_finished());
    assert_eq!(RecvState::Idle, ry.state());
    assert_eq!(0, ry.needed());
    assert_eq!(128, ry.block_length);
    assert_eq!(0, ry.bytes_send);
    assert_eq!(0, ry.error_count());
    assert!(ry.files.is_empty());
    // An idle receiver ignores what it is fed.
    let action = ry.feed(&[SOH]);
    assert_eq!(Vec::<u8>::new(), action.reply);
    assert!(!action.discard);
    assert_eq!(Ok(()), action.result);
    assert!(ry.is_finished());
}

#[test]
fn receiving_begins_with_the_probe() {
    for (variant, len) in [
        (XYModemVariant::XModem, 128),
        (XYModemVariant::XModem1k, 1024),
        (XYModemVariant::XModem1kG, 1024),
        (XYModemVariant::YModem, 1024),
        (XYModemVariant::YModemG, 1024),
    ] {
        let mut com = TestCom::new();
        let mut ry = Ry::new();
        assert_eq!(Ok(()), ry.recv(&mut com, variant));
        assert_eq!(vec![b'C'], com.take_outgoing());
        assert_eq!(RecvState::StartReceive(0), ry.state());
        assert_eq!(variant, ry.variant);
        assert_eq!(len, ry.block_length);
        assert!(!ry.is_finished());
        assert_eq!(1, ry.needed());
    }
}

#[test]
fn a_probe_that_cannot_be_sent_begins_nothing() {
    let mut com = TestCom::new();
    com.disconnect().expect("closing works");
    let mut ry = Ry::new();
    assert_eq!(
        Err(TransferError::Transport(icy_term::com::ComError::TransportFailure)),
        ry.recv(&mut com, XYModemVariant::YModem)
    );
    assert!(ry.is_finished());
    assert_eq!(XYModemVariant::XModem, ry.variant);
    assert_eq!(128, ry.block_length);
}

#[test]
fn the_probe_is_repeated_three_times_then_nak_then_cancel() {
    let mut ry = receiver(XYModemVariant::XModem);
    for retries in 0..3 {
        let action = ry.feed(&[b'?']);
        assert_eq!(vec![b'C'], action.reply);
        assert_eq!(Ok(()), action.result);
        assert!(!action.discard);
        assert_eq!(RecvState::StartReceive(retries + 1), ry.state());
    }
    let action = ry.feed(&[b'?']);
    assert_eq!(vec![NAK], action.reply);
    assert_eq!(Ok(()), action.result);
    assert_eq!(RecvState::StartReceive(4), ry.state());
    assert_eq!(4, ry.error_count());
    let action = ry.feed(&[b'?']);
    assert_eq!(vec![CAN, CAN], action.reply);
    assert_eq!(Err(TransferError::TooManyRetries), action.result);
    assert!(ry.is_finished());
    assert_eq!(5, ry.error_count());
}

#[test]
fn the_start_byte_selects_the_block_length() {
    let mut ry = receiver(XYModemVariant::XModem);
    ry.feed(&[SOH]);
    assert_eq!(RecvState::ReadBlock(128, 0), ry.state());
    assert_eq!(2 + 128 + 2, ry.needed());
    let mut ry = receiver(XYModemVariant::XModem1k);
    ry.feed(&[STX]);
    assert_eq!(RecvState::ReadBlock(1024, 0), ry.state());
    assert_eq!(2 + 1024 + 2, ry.needed());
    let mut ry = receiver(XYModemVariant::XModem1k);
    ry.feed(&[SOH]);
    assert_eq!(RecvState::ReadBlock(128, 0), ry.state());
    for variant in [XYModemVariant::YModem, XYModemVariant::YModemG] {
        let mut ry = receiver(variant);
        ry.feed(&[SOH]);
        assert_eq!(RecvState::ReadYModemHeader(0), ry.state());
        assert_eq!(2 + 128 + 2, ry.needed());
        let mut ry = receiver(variant);
        ry.feed(&[STX]);
        assert_eq!(RecvState::ReadBlock(1024, 0), ry.state());
    }
}

#[test]
fn the_retry_counter_is_carried_into_the_block() {
    let mut ry = receiver(XYModemVariant::XModem);
    ry.feed(&[b'?']);
    ry.feed(&[b'?']);
    ry.feed(&[SOH]);
    assert_eq!(RecvState::ReadBlock(128, 2), ry.state());
}

#[test]
fn a_file_is_collected_block_by_block() {
    let data: Vec<u8> = (0..300u32).map(|i| i as u8).collect();
    let mut ry = receiver(XYModemVariant::XModem);
    let mut num = 1u8;
    for chunk in data.chunks(128) {
        let frame = build_frame(Checksum::CRC16, num, &padded(chunk, 128));
        assert_eq!(vec![ACK], feed_block(&mut ry, &frame));
        assert_eq!(RecvState::ReadBlockStart(0, 0), ry.state());
        num = num.wrapping_add(1);
    }
    assert_eq!(3 * 128, ry.bytes_send);
    assert!(ry.files.is_empty());
    let end = ry.feed(&[EOT]);
    assert_eq!(vec![ACK], end.reply);
    assert_eq!(Ok(()), end.result);
    assert!(ry.is_finished());
    let files = ry.received_files();
    assert_eq!(1, files.len());
    assert_eq!("", files[0].file_name);
    assert_eq!(300, files[0].size);
    assert_eq!(data, files[0].get_data());
    assert_eq!(0, ry.error_count());
}

#[test]
fn the_block_number_is_not_compared_with_a_count() {
    let mut ry = receiver(XYModemVariant::XModem);
    let frame = build_frame(Checksum::CRC16, 77, &padded(b"x", 128));
    assert_eq!(vec![ACK], feed_block(&mut ry, &frame));
}

#[test]
fn a_rejected_block_is_answered_with_nak() {
    let mut ry = receiver(XYModemVariant::XModem);
    let good = build_frame(Checksum::CRC16, 1, &padded(b"abc", 128));
    let mut bad = good.clone();
    bad[40] ^= 0x20;
    ry.feed(&bad[..1]);
    let action = ry.feed(&bad[1..]);
    assert_eq!(vec![NAK], action.reply);
    assert!(action.discard);
    assert_eq!(Ok(()), action.result);
    assert_eq!(RecvState::ReadBlockStart(0, 1), ry.state());
    assert_eq!(1, ry.error_count());
    assert_eq!(0, ry.bytes_send);
    // The counter is carried into the next try and reset by success.
    ry.feed(&good[..1]);
    assert_eq!(RecvState::ReadBlock(128, 1), ry.state());
    let action = ry.feed(&good[1..]);
    assert_eq!(vec![ACK], action.reply);
    assert_eq!(RecvState::ReadBlockStart(0, 0), ry.state());
    ry.feed(&[EOT]);
    assert_eq!(b"abc".to_vec(), ry.received_files()[0].get_data());
}

#[test]
fn a_block_number_without_its_complement_is_rejected() {
    let mut ry = receiver(XYModemVariant::XModem);
    let mut bad = build_frame(Checksum::CRC16, 1, &padded(b"abc", 128));
    bad[2] = 0xFF;
    ry.feed(&bad[..1]);
    let action = ry.feed(&bad[1..]);
    assert_eq!(vec![NAK], action.reply);
    assert!(action.discard);
    assert_eq!(RecvState::ReadBlockStart(0, 1), ry.state());
}

#[test]
fn repeated_checksum_failures_cancel_the_transfer() {
    let mut ry = receiver(XYModemVariant::XModem);
    let mut bad = build_frame(Checksum::CRC16, 1, &padded(b"abc", 128));
    bad[131] ^= 1;
    for failures in 1..=5 {
        ry.feed(&bad[..1]);
        let action = ry.feed(&bad[1..]);
        assert_eq!(vec![NAK], action.reply);
        assert_eq!(Ok(()), action.result);
        assert_eq!(RecvState::ReadBlockStart(0, failures), ry.state());
    }
    ry.feed(&bad[..1]);
    assert_eq!(RecvState::ReadBlock(128, 5), ry.state());
    let action = ry.feed(&bad[1..]);
    assert_eq!(vec![CAN, CAN], action.reply);
    assert_eq!(Err(TransferError::TooManyRetries), action.result);
    assert!(action.discard);
    assert!(ry.is_finished());
    assert_eq!(RecvState::Idle, ry.state());
    assert_eq!(6, ry.error_count());
    assert!(ry.received_files().is_empty());
}

#[test]
fn an_unexpected_byte_between_blocks_is_answered_with_nak() {
    let mut ry = receiver(XYModemVariant::XModem);
    let frame = build_frame(Checksum::CRC16, 1, &padded(b"abc", 128));
    feed_block(&mut ry, &frame);
    for retries in 0..5 {
        let action = ry.feed(&[b'?']);
        assert_eq!(vec![NAK], action.reply);
        assert!(!action.discard);
        assert_eq!(RecvState::ReadBlockStart(0, retries + 1), ry.state());
    }
    let action = ry.feed(&[b'?']);
    assert_eq!(vec![CAN, CAN], action.reply);
    assert_eq!(Err(TransferError::TooManyRetries), action.result);
    assert!(ry.is_finished());
}

#[test]
fn input_of_the_wrong_length_counts_as_no_response() {
    let mut ry = receiver(XYModemVariant::XModem);
    let action = ry.feed(&[]);
    assert_eq!(vec![b'C'], action.reply);
    assert_eq!(RecvState::StartReceive(1), ry.state());
    let action = ry.feed(&[SOH, 1]);
    assert_eq!(vec![b'C'], action.reply);
    assert_eq!(RecvState::StartReceive(2), ry.state());
    ry.feed(&[SOH]);
    let action = ry.feed(&[1, 0xFE, 0]);
    assert_eq!(vec![NAK], action.reply);
    assert!(action.discard);
    assert_eq!(RecvState::ReadBlockStart(0, 3), ry.state());
    let action = ry.feed(&[]);
    assert_eq!(vec![NAK], action.reply);
    assert!(!action.discard);
    assert_eq!(RecvState::ReadBlockStart(0, 4), ry.state());
}

#[test]
fn a_header_announces_a_file() {
    let mut ry = receiver(XYModemVariant::YModem);
    let header = build_frame(Checksum::CRC16, 0, &build_header(b"foo.bar", 4).expect("fits"));
    assert_eq!(vec![ACK, b'C'], feed_block(&mut ry, &header));
    assert_eq!(RecvState::ReadBlockStart(0, 0), ry.state());
    assert_eq!(1, ry.files.len());
    assert_eq!("foo.bar", ry.files[0].file_name);
    assert_eq!(4, ry.files[0].size);
    assert_eq!(None, ry.files[0].data);
    let block = build_frame(Checksum::CRC16, 1, &padded(&[1, 2, 5, 10], 1024));
    assert_eq!(vec![ACK], feed_block(&mut ry, &block));
    let end = ry.feed(&[EOT]);
    assert_eq!(vec![NAK], end.reply);
    assert_eq!(RecvState::ReadBlockStart(1, 0), ry.state());
    assert_eq!(Some(vec![1, 2, 5, 10]), ry.files[0].data);
    assert_eq!(4, ry.files[0].size);
    let confirm = ry.feed(&[EOT]);
    assert_eq!(vec![ACK, b'C'], confirm.reply);
    assert_eq!(RecvState::StartReceive(0), ry.state());
    let last = build_frame(Checksum::CRC16, 0, &build_end_of_batch());
    assert_eq!(vec![ACK], feed_block(&mut ry, &last));
    assert!(ry.is_finished());
    assert_eq!(1, ry.received_files().len());
}

#[test]
fn a_missing_second_end_of_transmission_ends_the_transfer() {
    let mut ry = receiver(XYModemVariant::YModem);
    let header = build_frame(Checksum::CRC16, 0, &build_header(b"a", 0).expect("fits"));
    feed_block(&mut ry, &header);
    ry.feed(&[EOT]);
    let action = ry.feed(&[ACK]);
    assert_eq!(Vec::<u8>::new(), action.reply);
    assert_eq!(Ok(()), action.result);
    assert!(ry.is_finished());
    assert_eq!(Some(Vec::new()), ry.files[0].data);
}

#[test]
fn a_rejected_header_is_asked_for_again() {
    let mut ry = receiver(XYModemVariant::YModem);
    let good = build_frame(Checksum::CRC16, 0, &build_header(b"foo.bar", 4).expect("fits"));
    let mut bad = good.clone();
    bad[5] ^= 1;
    ry.feed(&bad[..1]);
    let action = ry.feed(&bad[1..]);
    assert_eq!(vec![NAK], action.reply);
    assert!(action.discard);
    assert_eq!(RecvState::StartReceive(1), ry.state());
    assert!(ry.files.is_empty());
    ry.feed(&good[..1]);
    assert_eq!(RecvState::ReadYModemHeader(1), ry.state());
    let action = ry.feed(&good[1..]);
    assert_eq!(vec![ACK, b'C'], action.reply);
    assert_eq!("foo.bar", ry.files[0].file_name);
}

#[test]
fn repeated_header_failures_cancel_the_transfer() {
    let mut ry = receiver(XYModemVariant::YModemG);
    let mut bad = build_frame(Checksum::CRC16, 0, &build_header(b"foo.bar", 4).expect("fits"));
    bad[1] = 9;
    for failures in 1..=5 {
        ry.feed(&bad[..1]);
        let action = ry.feed(&bad[1..]);
        assert_eq!(vec![NAK], action.reply);
        assert_eq!(RecvState::StartReceive(failures), ry.state());
    }
    ry.feed(&bad[..1]);
    let action = ry.feed(&bad[1..]);
    assert_eq!(vec![CAN, CAN], action.reply);
    assert_eq!(Err(TransferError::TooManyRetries), action.result);
    assert!(ry.is_finished());
}

#[test]
fn a_name_that_is_not_text_arrives_empty() {
    let mut ry = receiver(XYModemVariant::YModem);
    let header = build_frame(Checksum::CRC16, 0, &build_header(&[0xC3, 0x28], 7).expect("fits"));
    assert_eq!(vec![ACK, b'C'], feed_block(&mut ry, &header));
    assert_eq!("", ry.files[0].file_name);
    assert_eq!(7, ry.files[0].size);
}

#[test]
fn a_name_in_utf8_arrives_as_text() {
    let mut ry = receiver(XYModemVariant::YModem);
    let name = "gr\u{fc}\u{df}e \u{4e16}\u{754c}.txt";
    let header = build_frame(Checksum::CRC16, 0, &build_header(name.as_bytes(), 1).expect("fits"));
    feed_block(&mut ry, &header);
    assert_eq!(name, ry.files[0].file_name);
}

#[test]
fn filler_at_the_end_of_a_file_is_stripped() {
    let mut ry = receiver(XYModemVariant::XModem);
    let frame = build_frame(Checksum::CRC16, 1, &padded(&[1, 0x1A, 2, 0x1A, 0x1A], 128));
    feed_block(&mut ry, &frame);
    ry.feed(&[EOT]);
    let files = ry.received_files();
    assert_eq!(vec![1, 0x1A, 2], files[0].get_data());
    assert_eq!(3, files[0].size);
}

#[test]
fn the_receiver_checks_blocks_in_its_mode() {
    let ry = Ry::new();
    assert!(ry.check_crc(b"123456789\xC3\x31"));
    assert!(!ry.check_crc(b"123456789\xC3\x32"));
    assert!(!ry.check_crc(&[0, 0]));
}

#[test]
fn cancelling_sends_the_cancel_sequence() {
    let mut com = TestCom::new();
    let mut ry = Ry::new();
    ry.recv(&mut com, XYModemVariant::XModem).expect("open");
    com.take_outgoing();
    assert_eq!(Ok(()), ry.cancel(&mut com));
    assert_eq!(vec![CAN, CAN], com.take_outgoing());
    assert!(ry.is_finished());
}

#[test]
fn a_tick_without_data_does_nothing() {
    let mut com = TestCom::new();
    let mut state = TransferState::new();
    let mut ry = Ry::new();
    assert_eq!(Ok(()), ry.update(&mut com, &mut state));
    assert!(state.is_finished);
    ry.recv(&mut com, XYModemVariant::XModem).expect("open");
    com.take_outgoing();
    assert_eq!(Ok(()), ry.update(&mut com, &mut state));
    assert!(!state.is_finished);
    assert_eq!("", state.current_state);
    assert_eq!(RecvState::StartReceive(0), ry.state());
    assert_eq!(Vec::<u8>::new(), com.take_outgoing());
    let progress = state.recieve_state.expect("the tick reports");
    assert_eq!("StartReceive", progress.engine_state);
    assert_eq!(0, progress.bytes_transfered);
    assert_eq!(0, progress.errors);
    assert!(progress.file.is_none());
    assert!(state.send_state.is_none());
}

#[test]
fn ticks_take_one_step_each() {
    let mut com = TestCom::new();
    let mut state = TransferState::new();
    let mut ry = Ry::new();
    ry.recv(&mut com, XYModemVariant::YModem).expect("open");
    com.take_outgoing();
    com.deliver(&build_frame(Checksum::CRC16, 0, &build_header(b"foo.bar", 4).expect("fits")));
    com.deliver(&build_frame(Checksum::CRC16, 1, &padded(&[1, 2, 5, 10], 1024)));
    com.deliver(&[EOT]);

    assert_eq!(Ok(()), ry.update(&mut com, &mut state));
    assert_eq!("Start receiving...", state.current_state);
    assert_eq!(RecvState::ReadYModemHeader(0), ry.state());
    assert_eq!(Ok(()), ry.update(&mut com, &mut state));
    assert_eq!("Get header...", state.current_state);
    assert_eq!(vec![ACK, b'C'], com.take_outgoing());
    assert_eq!(Ok(()), ry.update(&mut com, &mut state));
    assert_eq!(RecvState::ReadBlock(1024, 0), ry.state());
    let progress = state.recieve_state.clone().expect("the tick reports");
    assert_eq!("ReadBlockStart", progress.engine_state);
    let file = progress.file.expect("a file is in transfer");
    assert_eq!("foo.bar", file.file_name);
    assert_eq!(4, file.size);
    assert!(file.data.is_none());
    assert_eq!(Ok(()), ry.update(&mut com, &mut state));
    assert_eq!("Receiving data...", state.current_state);
    assert_eq!(vec![ACK], com.take_outgoing());
    assert_eq!(Ok(()), ry.update(&mut com, &mut state));
    assert_eq!(vec![NAK], com.take_outgoing());
    assert_eq!(0, com.pending());
    assert_eq!(Ok(()), ry.update(&mut com, &mut state));
    let progress = state.recieve_state.clone().expect("the tick reports");
    assert_eq!(1024, progress.bytes_transfered);
    assert!(progress.file.is_none());
    assert!(!state.is_finished);
}

#[test]
fn a_block_that_did_not_arrive_whole_counts_as_no_response() {
    let mut com = TestCom::new();
    let mut state = TransferState::new();
    let mut ry = Ry::new();
    ry.recv(&mut com, XYModemVariant::XModem).expect("open");
    com.take_outgoing();
    let frame = build_frame(Checksum::CRC16, 1, &padded(b"abc", 128));
    com.deliver(&frame[..100]);
    assert_eq!(Ok(()), ry.update(&mut com, &mut state));
    assert_eq!(RecvState::ReadBlock(128, 0), ry.state());
    assert_eq!(Ok(()), ry.update(&mut com, &mut state));
    assert_eq!(RecvState::ReadBlockStart(0, 1), ry.state());
    assert_eq!(vec![NAK], com.take_outgoing());
    // What was buffered is dropped.
    assert_eq!(0, com.pending());
}

#[test]
fn a_tick_that_gives_up_says_so() {
    let mut com = TestCom::new();
    let mut state = TransferState::new();
    let mut ry = Ry::new();
    ry.recv(&mut com, XYModemVariant::XModem).expect("open");
    com.take_outgoing();
    com.deliver(b"?????");
    for _ in 0..4 {
        assert_eq!(Ok(()), ry.update(&mut com, &mut state));
    }
    assert_eq!(b"CCC\x15".to_vec(), com.take_outgoing());
    assert_eq!(Err(TransferError::TooManyRetries), ry.update(&mut com, &mut state));
    assert_eq!(vec![CAN, CAN], com.take_outgoing());
    assert!(state.is_finished);
    assert!(ry.is_finished());
}

#[test]
fn a_failing_channel_ends_the_tick() {
    let mut com = TestCom::new();
    let mut state = TransferState::new();
    let mut ry = Ry::new();
    ry.recv(&mut com, XYModemVariant::XModem).expect("open");
    com.deliver(&[SOH]);
    com.disconnect().expect("closing works");
    assert_eq!(
        Err(TransferError::Transport(icy_term::com::ComError::TransportFailure)),
        ry.update(&mut com, &mut state)
    );
    assert_eq!(RecvState::StartReceive(0), ry.state());
    assert_eq!(Err(TransferError::Transport(icy_term::com::ComError::TransportFailure)), ry.cancel(&mut com));
    assert!(ry.is_finished());
}

#[test]
fn state_labels() {
    assert_eq!("Idle", RecvState::Idle.label());
    assert_eq!("StartReceive", RecvState::StartReceive(2).label());
    assert_eq!("ReadYModemHeader", RecvState::ReadYModemHeader(0).label());
    assert_eq!("ReadBlock", RecvState::ReadBlock(128, 0).label());
    assert_eq!("ReadBlockStart", RecvState::ReadBlockStart(1, 0).label());
}

#[test]
fn a_streaming_receiver_gives_up_on_the_first_bad_block() {
    for variant in [XYModemVariant::XModem1kG, XYModemVariant::YModemG] {
        let mut ry = receiver(variant);
        if variant.uses_header() {
            let header = build_frame(Checksum::CRC16, 0, &build_header(b"foo.bar", 2000).expect("fits"));
            assert_eq!(vec![ACK, b'C'], feed_block(&mut ry, &header));
        }
        let good = build_frame(Checksum::CRC16, 1, &padded(b"abc", 1024));
        assert_eq!(vec![ACK], feed_block(&mut ry, &good));
        let mut bad = build_frame(Checksum::CRC16, 2, &padded(b"def", 1024));
        bad[500] ^= 0x02;
        ry.feed(&bad[..1]);
        assert_eq!(RecvState::ReadBlock(1024, 0), ry.state());
        let action = ry.feed(&bad[1..]);
        assert_eq!(vec![CAN, CAN], action.reply);
        assert!(action.discard);
        assert_eq!(Err(TransferError::TooManyRetries), action.result);
        assert!(ry.is_finished());
        assert_eq!(1, ry.error_count());
        assert_eq!(1024, ry.get_bytes_send());
    }
}

#[test]
fn a_streaming_receiver_gives_up_on_a_block_that_does_not_come_whole() {
    let mut ry = receiver(XYModemVariant::XModem1kG);
    ry.feed(&[STX]);
    let action = ry.feed(&[]);
    assert_eq!(vec![CAN, CAN], action.reply);
    assert_eq!(Err(TransferError::TooManyRetries), action.result);
    assert!(ry.is_finished());
    // Before a block has begun, a streaming receiver probes again like any other.
    let mut ry = receiver(XYModemVariant::XModem1kG);
    let action = ry.feed(&[b'?']);
    assert_eq!(vec![b'C'], action.reply);
    assert_eq!(Ok(()), action.result);
}

#[test]
fn an_idle_receiver_does_not_touch_the_channel() {
    let mut com = TestCom::new();
    let mut state = TransferState::new();
    let mut ry = Ry::new();
    com.deliver(&[SOH, 1, 2]);
    assert_eq!(Ok(()), ry.update(&mut com, &mut state));
    assert_eq!(3, com.pending());
    assert_eq!(Vec::<u8>::new(), com.take_outgoing());
    assert_eq!("", state.current_state);
    // Not even a channel that fails is asked.
    com.disconnect().expect("closing works");
    assert_eq!(Ok(()), ry.update(&mut com, &mut state));
    assert!(state.is_finished);
    // After the receiver has given up, every later tick is such a tick.
    let mut com = TestCom::new();
    ry.recv(&mut com, XYModemVariant::XModem).expect("open");
    com.deliver(b"?????");
    let mut last = Ok(());
    for _ in 0..5 {
        last = ry.update(&mut com, &mut state);
    }
    assert_eq!(Err(TransferError::TooManyRetries), last);
    assert_eq!(b"CCCC\x15\x18\x18".to_vec(), com.take_outgoing());
    com.deliver(&[SOH]);
    for _ in 0..3 {
        assert_eq!(Ok(()), ry.update(&mut com, &mut state));
        assert_eq!(Vec::<u8>::new(), com.take_outgoing());
        assert_eq!(1, com.pending());
    }
}

#[test]
fn what_the_receiver_says_of_itself() {
    let ry = receiver(XYModemVariant::YModem);
    assert_eq!(XYModemVariant::YModem, ry.get_variant());
    assert_eq!(1024, ry.get_block_length());
    assert_eq!(0, ry.get_bytes_send());
    let ry = Ry::new();
    assert_eq!(XYModemVariant::XModem, ry.get_variant());
    assert_eq!(128, ry.get_block_length());
}
