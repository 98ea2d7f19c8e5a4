use portal_paste::error::PortalError;
use portal_paste::token::{
    begin_write, may_read_token, next_write_step, stored_token, temporary_extension, WriteStep,
};

/// The first step: a file for its owner alone.
const CREATE: WriteStep = WriteStep::Create { mode: 0o600 };

#[test]
fn tokens_of_one_to_4096_bytes_are_written() {
    assert_eq!(begin_write("t"), Ok(CREATE));
    assert_eq!(begin_write(&"t".repeat(4096)), Ok(CREATE));
    assert_eq!(begin_write(&"\u{e9}".repeat(2048)), Ok(CREATE));
    for token in [String::new(), "t".repeat(4097), "\u{e9}".repeat(2049)] {
        assert_eq!(begin_write(&token), Err(PortalError::InvalidTokenLength));
    }
}

#[test]
fn what_is_written_is_read_back() {
    for token in ["t".to_string(), "\u{e9}".repeat(2048)] {
        assert_eq!(begin_write(&token), Ok(CREATE));
        assert!(may_read_token(Some(token.len() as u64)));
        assert_eq!(stored_token(Some(token.clone())), Some(token));
    }
}

#[test]
fn missing_long_and_empty_files_hold_no_token() {
    assert!(!may_read_token(None));
    assert!(may_read_token(Some(0)));
    assert!(may_read_token(Some(4096)));
    assert!(!may_read_token(Some(4097)));
    assert_eq!(stored_token(None), None);
    assert_eq!(stored_token(Some(String::new())), None);
}

#[test]
fn temporary_file_is_named_after_the_process() {
    assert_eq!(temporary_extension(0), "0.tmp");
    assert_eq!(temporary_extension(7), "7.tmp");
    assert_eq!(temporary_extension(10), "10.tmp");
    assert_eq!(temporary_extension(1234567890), "1234567890.tmp");
    assert_eq!(temporary_extension(u32::MAX), "4294967295.tmp");
}

/// The steps of a write whose steps succeed up to the one at `failing`.
fn steps(failing: usize) -> Vec<WriteStep> {
    let mut step = CREATE;
    let mut steps = vec![step];
    while step != WriteStep::Succeed && step != WriteStep::Fail {
        step = next_write_step(step, steps.len() - 1 != failing);
        steps.push(step);
    }
    steps
}

#[test]
fn token_is_replaced_only_after_a_durable_write() {
    assert_eq!(
        steps(9),
        vec![
            CREATE,
            WriteStep::Write,
            WriteStep::Sync,
            WriteStep::Rename,
            WriteStep::Succeed,
        ]
    );
}

#[test]
fn failed_write_removes_its_temporary_file() {
    assert_eq!(steps(0), vec![CREATE, WriteStep::Fail]);
    assert_eq!(
        steps(1),
        vec![
            CREATE,
            WriteStep::Write,
            WriteStep::RemoveTemporary,
            WriteStep::Fail,
        ]
    );
    for failing in [2, 3] {
        let steps = steps(failing);
        assert_eq!(steps[failing + 1], WriteStep::RemoveTemporary);
        assert_eq!(steps[failing + 2], WriteStep::Fail);
    }
    assert_eq!(
        next_write_step(WriteStep::RemoveTemporary, false),
        WriteStep::Fail
    );
    assert_eq!(next_write_step(WriteStep::Succeed, false), WriteStep::Succeed);
    assert_eq!(next_write_step(WriteStep::Fail, true), WriteStep::Fail);
}
