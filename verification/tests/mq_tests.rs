use mem_ipc::mq::{
    close_and_unlink_mq, close_mq, init_or_open_mq, send_message, receive_message, unlink_mq,
    AccessMode, MqError, TableInterface,
};

#[test]
fn test_init_or_open_mq() {
    let name = "/init_test_queue";
    let handle = init_or_open_mq(name, AccessMode::WriteOnly, true, 1024, 10)
        .expect("Failed to open message queue");

    // Ensure the handle reports the configured capacities
    assert!(handle.max_item_size() == 1024);

    // Close and unlink immediately for cleanup
    close_and_unlink_mq(handle, name).expect("Failed to close and unlink message queue");
}

#[test]
fn test_send_message() {
    let name = "/send_test_queue";
    let handle = init_or_open_mq(name, AccessMode::WriteOnly, true, 1024, 10)
        .expect("Failed to open message queue");

    // Send a simple message
    send_message(&handle, b"Hello MQ").expect("Failed to send message");

    // Close and unlink immediately for cleanup
    close_and_unlink_mq(handle, name).expect("Failed to close and unlink message queue");
}

#[test]
fn test_receive_message() {
    let name = "/receive_test_queue";
    let test_message = b"Hello MQ";

    let handle = init_or_open_mq(name, AccessMode::ReadWrite, true, 1024, 10)
        .expect("Failed to open message queue for writing");

    send_message(&handle, test_message).expect("Failed to send message");

    let mut buffer = vec![0u8; 1024];

    let received_bytes =
        receive_message(&handle, &mut buffer).expect("Failed to receive message");

    // Assertion: Verify that the received bytes match what was sent.
    assert_eq!(
        &buffer[..received_bytes],
        test_message,
        "Received message did not match expected content"
    );

    close_and_unlink_mq(handle, name).expect("Failed to close and unlink message queue");
}

#[test]
fn test_close_mq_and_unlink_mq() {
    let name = "/close_test_queue";

    let handle = init_or_open_mq(name, AccessMode::WriteOnly, true, 1024, 10)
        .expect("Failed to open message queue");
    close_mq(handle).expect("Failed to close message queue");

    unlink_mq(name).expect("Failed unlinking close test queue");

    // Attempting to reopen should fail because it was unlinked
    let result = init_or_open_mq(name, AccessMode::ReadOnly, false, 1024, 10);

    assert!(result.is_err(), "Expected error when reopening an unlinked message queue");
}

#[test]
fn test_close_and_unlink_mq() {
    let name = "/close_and_unlink_test_queue";

    let handle = init_or_open_mq(name, AccessMode::WriteOnly, true, 1024, 10)
        .expect("Failed to open message queue");

    close_and_unlink_mq(handle, name).expect("Failed to close and unlink message queue");

    // Attempting to reopen should fail because it was unlinked
    let result = init_or_open_mq(name, AccessMode::ReadOnly, false, 1024, 10);

    assert!(result.is_err(), "Expected error when reopening an unlinked message queue");
}

#[test]
fn test_writer() {
}

#[test]
fn test_reader() {
}

#[test]
fn lifecycle_name_recreatable_after_unlink() {
    let name = "/recreate_test_queue";
    let handle = init_or_open_mq(name, AccessMode::WriteOnly, true, 1024, 10)
        .expect("first create");
    close_and_unlink_mq(handle, name).expect("close and unlink");

    // read-only open without create fails while the name is gone
    let absent = init_or_open_mq(name, AccessMode::ReadOnly, false, 1024, 10);
    assert!(matches!(absent, Err(MqError::OpenFailed(_))));

    // the same name can then be created afresh
    let again = init_or_open_mq(name, AccessMode::WriteOnly, true, 1024, 10)
        .expect("recreate after unlink");
    close_and_unlink_mq(again, name).expect("cleanup");
}

#[test]
fn invalid_name_is_rejected_without_os_call() {
    let bad = "/queue\0name";
    assert!(matches!(
        init_or_open_mq(bad, AccessMode::ReadWrite, true, 1024, 10),
        Err(MqError::InvalidName)
    ));
    assert!(matches!(unlink_mq(bad), Err(MqError::InvalidName)));
}

#[test]
fn message_integrity_across_sizes() {
    let name = "/integrity_test_queue";
    let handle = init_or_open_mq(name, AccessMode::ReadWrite, true, 1024, 10)
        .expect("open queue");
    let table = TableInterface::from_handle(handle);

    for len in [0usize, 1, 2, 255, 1023, 1024] {
        let message: Vec<u8> = (0..len).map(|i| (i % 251) as u8).collect();
        table.write(&message).expect("write within capacity");
        let got = table.read().expect("read one message");
        assert_eq!(got, message, "payload of {len} bytes came back changed");
    }

    unlink_mq(name).expect("cleanup unlink");
    table.close().expect("explicit close");
}

#[test]
fn write_beyond_capacity_fails_immediately() {
    let name = "/capacity_test_queue";
    let handle = init_or_open_mq(name, AccessMode::ReadWrite, true, 1024, 10)
        .expect("open queue");
    let table = TableInterface::from_handle(handle);

    let too_big = vec![0u8; 1025];
    assert!(matches!(table.write(&too_big), Err(MqError::CapacityExceeded)));

    unlink_mq(name).expect("cleanup unlink");
    table.close().expect("explicit close");
}

#[test]
fn interleaved_senders_keep_messages_whole() {
    let name = "/interleave_test_queue";
    let handle = init_or_open_mq(name, AccessMode::ReadWrite, true, 1024, 10)
        .expect("open queue");
    let table = TableInterface::from_handle(handle);

    // two logical senders share the one interface and interleave messages
    let first: Vec<Vec<u8>> = (0u8..3).map(|i| vec![i; 100]).collect();
    let second: Vec<Vec<u8>> = (10u8..13).map(|i| vec![i; 200]).collect();
    for (a, b) in first.iter().zip(second.iter()) {
        table.write(a).expect("first sender write");
        table.write(b).expect("second sender write");
    }

    // a drain sees every message whole, in queue order
    for (a, b) in first.iter().zip(second.iter()) {
        assert_eq!(&table.read().expect("drain"), a);
        assert_eq!(&table.read().expect("drain"), b);
    }

    unlink_mq(name).expect("cleanup unlink");
    table.close().expect("explicit close");
}
