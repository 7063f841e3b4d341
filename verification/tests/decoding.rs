use wsw::decode::try_decode;
use wsw::log_writer::{format_timestamp, LocalTimer, LogLevel, LogWriter};
use wsw::logs::extract_message;

#[test]
fn utf8_input_decodes_to_itself() {
    let text = "hello wörld\nsecond line";
    let decoded = try_decode(text.as_bytes());
    assert_eq!(decoded, Some(String::from(text)));
}

#[test]
fn utf16le_input_decodes_on_the_second_rung() {
    // 0xE9 0x00 is "é" in UTF-16LE and is not valid UTF-8.
    let bytes = [0xE9u8, 0x00u8];
    let decoded = try_decode(&bytes);
    assert_eq!(decoded, Some(String::from("é")));
}

#[test]
fn windows1252_fallback_decodes_accented_text() {
    // "été" in Windows-1252; odd length, so the UTF-16 rung is skipped.
    let bytes = b"\xe9t\xe9";
    let decoded = try_decode(bytes);
    assert_eq!(decoded, Some(String::from("été")));
}

#[test]
fn writer_tags_windows1252_output() {
    let mut writer = LogWriter;
    let (records, consumed) = writer.write(b"\xe9t\xe9");
    assert_eq!(consumed, 3);
    assert_eq!(records.len(), 1);
    assert_eq!(records[0].level, LogLevel::Info);
    assert_eq!(records[0].message, String::from("|SVC-LOG| été"));
    assert!(records[0].message.contains("été"));
}

#[test]
fn writer_splits_lines_and_drops_empty_ones() {
    let mut writer = LogWriter;
    let (records, consumed) = writer.write(b"one\r\n\ntwo\nthree");
    assert_eq!(consumed, 15);
    let messages: Vec<String> = records.iter().map(|r| r.message.clone()).collect();
    assert_eq!(
        messages,
        vec![
            String::from("|SVC-LOG| one"),
            String::from("|SVC-LOG| two"),
            String::from("|SVC-LOG| three"),
        ]
    );
    for r in &records {
        assert_eq!(r.level, LogLevel::Info);
    }
}

#[test]
fn writer_flush_always_succeeds() {
    let mut writer = LogWriter;
    assert!(writer.flush().is_ok());
}

#[test]
fn timestamp_format_is_padded() {
    let stamp = format_timestamp(2025, 4, 27, 0, 59, 24);
    assert_eq!(stamp, String::from("2025-04-27 00:59:24"));
    let early = format_timestamp(33, 12, 1, 23, 0, 5);
    assert_eq!(early, String::from("0033-12-01 23:00:05"));
}

#[test]
fn local_timer_emits_a_timestamp_shape() {
    let stamp = LocalTimer.format_time();
    let chars: Vec<char> = stamp.chars().collect();
    assert_eq!(chars.len(), 19);
    assert_eq!(chars[4], '-');
    assert_eq!(chars[7], '-');
    assert_eq!(chars[10], ' ');
    assert_eq!(chars[13], ':');
    assert_eq!(chars[16], ':');
}

#[test]
fn extract_message_strips_the_marker() {
    let line = "2025-04-27 00:59:24  INFO  |SVC-LOG| hello world";
    assert_eq!(extract_message(line), Some("hello world"));
}

#[test]
fn extract_message_rejects_unmarked_lines() {
    let line = "2025-04-27 00:59:24  INFO  plain wrapper message";
    assert_eq!(extract_message(line), None);
    assert_eq!(extract_message("too short"), None);
}
