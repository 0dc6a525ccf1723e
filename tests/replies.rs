use fastboot::fastboot::{status_of_reply, value_of_reply, IoError};
use fastboot::reply::{parse_size, push_hex, Reply};
use fastboot::scripted::same_bytes;

#[test]
fn okay_carries_the_rest() {
    assert_eq!(Reply::decode(b"OKAY1.0"), Reply::Okay("1.0".to_owned()));
    assert_eq!(Reply::decode(b"OKAY"), Reply::Okay("".to_owned()));
}

#[test]
fn okay_rest_is_decoded_lossily() {
    assert_eq!(
        Reply::decode(b"OKAYa\xffb"),
        Reply::Okay("a\u{fffd}b".to_owned())
    );
}

#[test]
fn info_and_fail_carry_the_rest() {
    assert_eq!(Reply::decode(b"INFOerasing"), Reply::Info("erasing".to_owned()));
    assert_eq!(Reply::decode(b"FAILlocked"), Reply::Fail("locked".to_owned()));
    assert_eq!(Reply::decode(b"FAIL"), Reply::Fail("".to_owned()));
}

#[test]
fn data_reads_eight_hex_digits() {
    assert_eq!(Reply::decode(b"DATA00000400"), Reply::Data(1024));
    assert_eq!(Reply::decode(b"DATA0000abCD"), Reply::Data(0xabcd));
    assert_eq!(Reply::decode(b"DATAffffffff"), Reply::Data(0xffff_ffff));
    assert_eq!(Reply::decode(b"DATA00000000"), Reply::Data(0));
}

#[test]
fn data_with_bad_size_is_failure() {
    let bad = Reply::Fail("Failed to decode DATA size".to_owned());
    assert_eq!(Reply::decode(b"DATA0000040g"), bad);
    assert_eq!(Reply::decode(b"DATA400"), bad);
    assert_eq!(Reply::decode(b"DATA000004000"), bad);
    assert_eq!(Reply::decode(b"DATA"), bad);
}

#[test]
fn unknown_token_keeps_whole_text() {
    assert_eq!(Reply::decode(b"WHAT?"), Reply::Fail("WHAT?".to_owned()));
    assert_eq!(Reply::decode(b"okay"), Reply::Fail("okay".to_owned()));
}

#[test]
fn short_buffer_is_failure() {
    assert_eq!(Reply::decode(b"OK"), Reply::Fail("OK".to_owned()));
    assert_eq!(Reply::decode(b""), Reply::Fail("".to_owned()));
}

#[test]
fn size_field_values() {
    assert_eq!(parse_size(b"00000004"), Some(4));
    assert_eq!(parse_size(b"DEADBEEF"), Some(0xdead_beef));
    assert_eq!(parse_size(b"0000004"), None);
    assert_eq!(parse_size(b"-0000004"), None);
    assert_eq!(parse_size(b"+0000004"), None);
}

#[test]
fn hex_is_lowercase_and_padded() {
    let mut out = b"download:".to_vec();
    push_hex(&mut out, 1024, 8);
    assert_eq!(out, b"download:00000400".to_vec());
    let mut out = Vec::new();
    push_hex(&mut out, 0xdead_beef, 8);
    assert_eq!(out, b"deadbeef".to_vec());
}

#[test]
fn reply_outcomes() {
    assert_eq!(value_of_reply(Reply::Okay("v".to_owned())), Ok("v".to_owned()));
    assert_eq!(value_of_reply(Reply::Fail("m".to_owned())), Err("m".to_owned()));
    assert_eq!(value_of_reply(Reply::Data(3)), Err("unknown failure".to_owned()));
    assert_eq!(status_of_reply(Reply::Okay("v".to_owned())), Ok(()));
    assert_eq!(status_of_reply(Reply::Info("i".to_owned())), Err("unknown failure".to_owned()));
    assert_eq!(status_of_reply(Reply::Fail("m".to_owned())), Err("m".to_owned()));
}

#[test]
fn io_error_messages() {
    assert_eq!(IoError::TimedOut.message(), "timed out".to_owned());
    assert_eq!(IoError::Other("pipe".to_owned()).message(), "pipe".to_owned());
}

#[test]
fn byte_comparison() {
    assert!(same_bytes(b"abc", b"abc"));
    assert!(!same_bytes(b"abc", b"abd"));
    assert!(!same_bytes(b"abc", b"ab"));
    assert!(same_bytes(b"", b""));
}
