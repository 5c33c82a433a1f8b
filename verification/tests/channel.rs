use icy_term::com::{answer, read_input, tick_is_due, Com, ComError, TestChannel, TestCom};

#[test]
fn a_new_end_is_empty() {
    let mut com = TestCom::new();
    assert_eq!("Test", com.get_name());
    assert_eq!(0, com.pending());
    assert_eq!(Ok(false), com.is_data_available());
    assert_eq!(Err(ComError::TimedOut), com.read_char(5));
    assert_eq!(Err(ComError::WouldBlock), com.read_char_nonblocking());
    assert_eq!(Err(ComError::TimedOut), com.read_exact(5, 1));
    assert_eq!(Vec::<u8>::new(), com.take_outgoing());
}

#[test]
fn delivered_bytes_are_read_in_order() {
    let mut com = TestCom::new();
    com.deliver(&[1, 2, 3]);
    com.deliver(&[4, 5]);
    assert_eq!(5, com.pending());
    assert_eq!(Ok(true), com.is_data_available());
    assert_eq!(Ok(1), com.read_char(0));
    assert_eq!(Ok(2), com.read_char_nonblocking());
    assert_eq!(Err(ComError::TimedOut), com.read_exact(0, 4));
    assert_eq!(Ok(vec![3, 4]), com.read_exact(0, 2));
    assert_eq!(Ok(vec![5]), com.read_exact(0, 1));
    assert_eq!(Ok(false), com.is_data_available());
}

#[test]
fn written_bytes_wait_for_the_wire() {
    let mut com = TestCom::new();
    assert_eq!(Ok(2), com.write(&[7, 0xFF]));
    assert_eq!(Ok(0), com.write(&[]));
    assert_eq!(Ok(1), com.write(&[9]));
    assert_eq!(Ok(false), com.is_data_available());
    assert_eq!(vec![7, 0xFF, 9], com.take_outgoing());
    assert_eq!(Vec::<u8>::new(), com.take_outgoing());
}

#[test]
fn discard_empties_the_inbound_queue() {
    let mut com = TestCom::new();
    com.deliver(&[1, 2, 3]);
    com.write(&[4]).expect("an open end takes writes");
    assert_eq!(Ok(()), com.discard_buffer());
    assert_eq!(0, com.pending());
    assert_eq!(vec![4], com.take_outgoing());
}

#[test]
fn a_closed_end_fails() {
    let mut com = TestCom::new();
    com.deliver(&[1]);
    assert_eq!(Ok(()), com.disconnect());
    assert_eq!(Err(ComError::TransportFailure), com.write(&[1]));
    assert_eq!(Err(ComError::TransportFailure), com.read_char(0));
    assert_eq!(Err(ComError::TransportFailure), com.read_char_nonblocking());
    assert_eq!(Err(ComError::TransportFailure), com.read_exact(0, 1));
    assert_eq!(Err(ComError::TransportFailure), com.is_data_available());
    assert_eq!(1, com.pending());
}

#[test]
fn the_channel_carries_both_ways() {
    let mut channel = TestChannel::new();
    channel.sender.write(&[1, 2]).expect("open");
    channel.receiver.write(&[3]).expect("open");
    assert_eq!(Ok(false), channel.receiver.is_data_available());
    channel.pump();
    assert_eq!(Ok(vec![1, 2]), channel.receiver.read_exact(0, 2));
    assert_eq!(Ok(3), channel.sender.read_char(0));
    channel.pump();
    assert_eq!(Ok(false), channel.receiver.is_data_available());
    assert_eq!(Ok(false), channel.sender.is_data_available());
}

#[test]
fn a_tick_waits_for_the_rest_of_a_block() {
    // Nothing buffered: the tick is due, and finds nothing to do.
    assert!(tick_is_due(0, 132, 0, 10_000));
    // A part of the block: wait for the rest.
    assert!(!tick_is_due(1, 132, 0, 10_000));
    assert!(!tick_is_due(131, 132, 9_999, 10_000));
    // All of it, or more.
    assert!(tick_is_due(132, 132, 0, 10_000));
    assert!(tick_is_due(500, 132, 0, 10_000));
    // Time is up.
    assert!(tick_is_due(131, 132, 10_000, 10_000));
    // An engine that asks for nothing is always due.
    assert!(tick_is_due(5, 0, 0, 10_000));
}

#[test]
fn input_that_does_not_come_in_time_is_empty() {
    let mut com = TestCom::new();
    assert_eq!(Ok(vec![]), read_input(&mut com, 0, 1));
    assert_eq!(Ok(vec![]), read_input(&mut com, 0, 3));
    com.deliver(&[1, 2, 3, 4]);
    assert_eq!(Ok(vec![]), read_input(&mut com, 0, 5));
    assert_eq!(4, com.pending());
    assert_eq!(Ok(vec![1]), read_input(&mut com, 0, 1));
    assert_eq!(Ok(vec![2, 3]), read_input(&mut com, 0, 2));
    assert_eq!(Ok(vec![4]), read_input(&mut com, 0, 1));
    com.disconnect().expect("closing works");
    assert_eq!(Err(ComError::TransportFailure), read_input(&mut com, 0, 1));
    assert_eq!(Err(ComError::TransportFailure), read_input(&mut com, 0, 2));
}

#[test]
fn an_answer_drops_and_sends() {
    let mut com = TestCom::new();
    com.deliver(&[1, 2, 3]);
    assert_eq!(Ok(()), answer(&mut com, false, &[6]));
    assert_eq!(3, com.pending());
    assert_eq!(vec![6], com.take_outgoing());
    assert_eq!(Ok(()), answer(&mut com, true, &[0x15]));
    assert_eq!(0, com.pending());
    assert_eq!(vec![0x15], com.take_outgoing());
    com.deliver(&[9]);
    assert_eq!(Ok(()), answer(&mut com, false, &[]));
    assert_eq!(1, com.pending());
    assert_eq!(Vec::<u8>::new(), com.take_outgoing());
    com.disconnect().expect("closing works");
    assert_eq!(Err(ComError::TransportFailure), answer(&mut com, false, &[6]));
    assert_eq!(Ok(()), answer(&mut com, false, &[]));
}
