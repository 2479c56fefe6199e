use modbus_proxy_rs::Error;

#[test]
fn each_error_has_its_text() {
    assert_eq!(Error::NotConnected.message(), "no modbus connection");
    assert_eq!(Error::Timeout.message(), "deadline has elapsed");
    assert_eq!(Error::Outside("broken pipe".to_string()).message(), "broken pipe");
}

#[test]
fn a_mismatch_lists_the_bytes_of_both_ids() {
    for (expected, got) in [((0, 1), (0x99, 0x99)), ((9, 10), (99, 100)), ((109, 255), (200, 0))] {
        let text = Error::TransactionIdMismatch { expected, got }.message();
        assert_eq!(
            text,
            format!(
                "transaction ID mismatch: expected {:?}, got {:?}",
                [expected.0, expected.1],
                [got.0, got.1]
            )
        );
    }
    let error = Error::TransactionIdMismatch {
        expected: (0, 1),
        got: (153, 7),
    };
    assert_eq!(
        error.message(),
        "transaction ID mismatch: expected [0, 1], got [153, 7]"
    );
}
