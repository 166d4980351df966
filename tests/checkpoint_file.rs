use mail_client::checkpoint::{checkpoint_from_file, checkpoint_text, parse_checkpoint, CheckpointError};
use mail_client::decimal::{decimal_text, parse_u32};

#[test]
fn test_fetcher_test_get_last_message_id() {
    let written = checkpoint_text(0);
    let id = checkpoint_from_file(Some(&written)).unwrap();
    assert_eq!(0, id.unwrap());

    let written = checkpoint_text(42);
    let id = checkpoint_from_file(Some(&written)).unwrap();
    assert_eq!(42, id.unwrap());
}

#[test]
fn test_mail_fetch_test_get_last_message_id() {
    let written = checkpoint_text(0);
    assert_eq!(0, parse_checkpoint(&written).unwrap());
    let written = checkpoint_text(42);
    assert_eq!(42, parse_checkpoint(&written).unwrap());
}

#[test]
fn checkpoint_contents_are_trimmed() {
    assert_eq!(parse_checkpoint(" 42\n"), Ok(42));
    assert_eq!(parse_checkpoint("\t+7 "), Ok(7));
}

#[test]
fn missing_file_means_first_run() {
    assert_eq!(checkpoint_from_file(None), Ok(None));
}

#[test]
fn bad_contents_are_an_error() {
    assert_eq!(parse_checkpoint("abc"), Err(CheckpointError::NotANumber));
    assert_eq!(parse_checkpoint(""), Err(CheckpointError::NotANumber));
    assert_eq!(parse_checkpoint("+"), Err(CheckpointError::NotANumber));
    assert_eq!(parse_checkpoint("-1"), Err(CheckpointError::NotANumber));
    assert_eq!(parse_checkpoint("4294967296"), Err(CheckpointError::NotANumber));
    assert_eq!(checkpoint_from_file(Some("4 2")), Err(CheckpointError::NotANumber));
}

#[test]
fn decimal_edges() {
    assert_eq!(parse_u32("4294967295"), Some(u32::MAX));
    assert_eq!(parse_u32("007"), Some(7));
    assert_eq!(decimal_text(u32::MAX), "4294967295");
    assert_eq!(decimal_text(0), "0");
    assert_eq!(checkpoint_text(1000), "1000");
    for n in [0u32, 9, 10, 99, 100, 65535, 4000000000] {
        assert_eq!(parse_u32(&decimal_text(n)), Some(n));
    }
}

#[test]
fn trim_follows_unicode_white_space() {
    assert_eq!(parse_checkpoint("\u{3000}42\u{a0}\u{2029}"), Ok(42));
    assert_eq!(parse_checkpoint("\u{200b}42"), Err(CheckpointError::NotANumber));
    for n in [0u32, 7, 42, u32::MAX] {
        assert_eq!(parse_checkpoint(&checkpoint_text(n)), Ok(n));
    }
}
