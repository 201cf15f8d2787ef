//! Tests for text handling, request building, sample encoding,
//! configuration and conversion helpers.

use voice_orchestrator::chatmsg::{create_multi_user_message, create_user_message, fmt_u64, two_digits};
use voice_orchestrator::config::ConfigData;
use voice_orchestrator::convert::{flatten_result_option, FlattenError, OptionalNoneError};
use voice_orchestrator::pcm::encode_samples;
use voice_orchestrator::records::AccountType;
use voice_orchestrator::text::{
    collapse_transcript, str_to_chars, stretch_long_vowels, strip_ascii_space, trim_chars,
};

fn cv(s: &str) -> Vec<char> {
    s.chars().collect()
}

#[test]
fn trim_removes_outer_whitespace_only() {
    assert_eq!(trim_chars(&cv("  hello world \t\n")), cv("hello world"));
    assert_eq!(trim_chars(&cv("\u{3000}and\u{3000}")), cv("and"));
    assert_eq!(trim_chars(&cv("   ")), cv(""));
    assert_eq!(trim_chars(&cv("")), cv(""));
    assert_eq!(trim_chars(&cv("solid")), cv("solid"));
}

#[test]
fn strip_removes_every_ascii_space() {
    assert_eq!(strip_ascii_space(&cv("a b\tc\r\nd")), cv("abcd"));
    // Ideographic space is not ASCII whitespace and stays.
    assert_eq!(strip_ascii_space(&cv("a\u{3000}b")), cv("a\u{3000}b"));
    assert_eq!(strip_ascii_space(&cv("")), cv(""));
}

#[test]
fn collapse_joins_alternatives_and_strips() {
    let parts = vec![cv("hel lo"), cv(" wor"), cv("ld")];
    assert_eq!(collapse_transcript(&parts), cv("helloworld"));
    let empty: Vec<Vec<char>> = vec![];
    assert_eq!(collapse_transcript(&empty), cv(""));
}

#[test]
fn stretch_marks_are_doubled() {
    assert_eq!(
        stretch_long_vowels(&cv("so\u{30FC}da\u{FF5E}")),
        cv("so\u{30FC}\u{30FC}da\u{FF5E}\u{FF5E}")
    );
    assert_eq!(stretch_long_vowels(&cv("plain")), cv("plain"));
}

#[test]
fn str_to_chars_round_trips() {
    let v = str_to_chars("mixed \u{597D} text");
    let back: String = v.iter().collect();
    assert_eq!(back, "mixed \u{597D} text");
}

#[test]
fn decimal_rendering_is_exact() {
    assert_eq!(fmt_u64(0), cv("0"));
    assert_eq!(fmt_u64(7), cv("7"));
    assert_eq!(fmt_u64(1234567890), cv("1234567890"));
    assert_eq!(fmt_u64(u64::MAX), cv("18446744073709551615"));
    assert_eq!(two_digits(7), cv("07"));
    assert_eq!(two_digits(23), cv("23"));
}

#[test]
fn user_message_has_the_full_header() {
    let msg = create_user_message(
        &cv("\u{3053}\u{3093}\u{306B}\u{3061}\u{306F}"),
        5,
        42,
        &cv("\u{30A2}\u{30EA}\u{30B9}"),
        &cv("\u{5973}\u{6027}"),
        9,
        5,
    );
    let expected = "\u{597D}\u{611F}\u{5EA6}\u{30EC}\u{30D9}\u{30EB}: 5\nID: 42\n\u{540D}\u{524D}: \u{30A2}\u{30EA}\u{30B9}\n\u{6027}\u{5225}: \u{5973}\u{6027}\n\u{6642}\u{523B}: 09:05\n####\n\u{3053}\u{3093}\u{306B}\u{3061}\u{306F}";
    assert_eq!(msg, cv(expected));
}

#[test]
fn group_message_joins_in_order_with_separator() {
    let items = vec![cv("first"), cv("second"), cv("third")];
    assert_eq!(
        create_multi_user_message(&items),
        cv("first\n----\nsecond\n----\nthird")
    );
    let one = vec![cv("alone")];
    assert_eq!(create_multi_user_message(&one), cv("alone"));
    let none: Vec<Vec<char>> = vec![];
    assert_eq!(create_multi_user_message(&none), cv(""));
}

#[test]
fn samples_encode_little_endian() {
    let out = encode_samples(&vec![0i16, 1, -1, 256, i16::MIN, i16::MAX]);
    assert_eq!(
        out,
        vec![0x00, 0x00, 0x01, 0x00, 0xFF, 0xFF, 0x00, 0x01, 0x00, 0x80, 0xFF, 0x7F]
    );
    assert_eq!(encode_samples(&vec![]), Vec::<u8>::new());
}

#[test]
fn db_url_is_assembled_from_parts() {
    let c = ConfigData::new(
        String::from("SECRET-REDACTED"),
        1234,
        5678,
        String::from("db.example"),
        String::from("bot"),
        String::from("pw"),
        String::from("botdb"),
    );
    assert_eq!(c.get_db_url(), "mysql://bot:pw@db.example/botdb");
    assert_eq!(c.get_token(), "SECRET-REDACTED");
    assert_eq!(*c.get_bot_id(), 1234);
    assert_eq!(*c.get_owner_id(), 5678);
}

#[test]
fn flatten_result_option_covers_all_cases() {
    let ok: Result<Option<u32>, i32> = Ok(Some(5));
    assert!(matches!(flatten_result_option(ok), Ok(5)));
    let absent: Result<Option<u32>, i32> = Ok(None);
    assert!(matches!(
        flatten_result_option(absent),
        Err(FlattenError::Absent(OptionalNoneError))
    ));
    let failed: Result<Option<u32>, i32> = Err(-7);
    assert!(matches!(
        flatten_result_option(failed),
        Err(FlattenError::Inner(-7))
    ));
}

#[test]
fn account_type_renders_its_kind() {
    assert_eq!(AccountType::Main.to_string(), "\u{30E1}\u{30A4}\u{30F3}");
    assert_eq!(AccountType::Sub.to_string(), "\u{30B5}\u{30D6}");
}
