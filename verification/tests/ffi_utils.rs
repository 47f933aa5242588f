use ps2hdd::ffi_utils::{ok_on_nonnegative_or_strerror, ok_on_zero_or_strerror};

#[test]
fn return_ok_on_zeroes() {
    assert_eq!(
        ok_on_zero_or_strerror(0, "This message should not be returned"),
        Ok(0)
    );

    assert_eq!(
        ok_on_nonnegative_or_strerror(0, "This message should not be returned"),
        Ok(0)
    );
}

#[test]
fn return_err_on_positives() {
    assert_eq!(
        ok_on_zero_or_strerror(-1, "This message should be returned")
            .unwrap_err()
            .message(),
        "This message should be returned: -1, Operation not permitted"
    );

    assert_eq!(
        ok_on_zero_or_strerror(-13, "This message should be returned")
            .unwrap_err()
            .message(),
        "This message should be returned: -13, Permission denied"
    );
}

#[test]
fn return_ok_on_positives() {
    assert_eq!(
        ok_on_nonnegative_or_strerror(10, "This message should not be returned"),
        Ok(10)
    );

    assert_eq!(
        ok_on_nonnegative_or_strerror(123, "This message should not be returned"),
        Ok(123)
    );
}

#[test]
fn return_err_on_negatives() {
    assert_eq!(
        ok_on_zero_or_strerror(-1, "This message should be returned")
            .unwrap_err()
            .message(),
        "This message should be returned: -1, Operation not permitted"
    );

    assert_eq!(
        ok_on_zero_or_strerror(-13, "This message should be returned")
            .unwrap_err()
            .message(),
        "This message should be returned: -13, Permission denied"
    );

    assert_eq!(
        ok_on_nonnegative_or_strerror(-5, "This message should be returned")
            .unwrap_err()
            .message(),
        "This message should be returned: -5, Input/output error"
    );

    assert_eq!(
        ok_on_nonnegative_or_strerror(-16, "This message should be returned")
            .unwrap_err()
            .message(),
        "This message should be returned: -16, Resource busy"
    );
}

#[test]
fn positive_results_fail_the_zero_convention() {
    let err = ok_on_zero_or_strerror(7, "zero means success here").unwrap_err();
    assert_eq!(
        err.message(),
        "zero means success here: 7, Unknown error -7"
    );
    assert!(ok_on_nonnegative_or_strerror(7, "a handle is fine here").is_ok());
}

#[test]
fn unknown_codes_render_as_unknown_errors() {
    assert_eq!(
        ok_on_zero_or_strerror(-999, "This message should be returned")
            .unwrap_err()
            .message(),
        "This message should be returned: -999, Unknown error 999"
    );
}
