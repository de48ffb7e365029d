use ssbh_editor::{clean_log_message, log_display_text, Log, LogLevel};

#[test]
fn escape_sequences_are_removed() {
    let message = "\x1b[31mred\x1b[0m text".to_string();
    assert_eq!("red text", clean_log_message(&message));
}

#[test]
fn plain_message_is_kept() {
    let message = "Failed to read model.numshb".to_string();
    assert_eq!(message, clean_log_message(&message));
}

#[test]
fn failed_stripping_shows_message_as_is() {
    let message = "\x1b[1mbold\x1b[0m".to_string();
    assert_eq!(message, log_display_text(&message, None));
}

#[test]
fn stripped_bytes_are_decoded_lossily() {
    let message = "ignored".to_string();
    assert_eq!("f\u{FFFD}", log_display_text(&message, Some(vec![0x66, 0xff])));
}

#[test]
fn log_keeps_append_order() {
    let mut log = Log::new();
    log.push(LogLevel::Error, "\x1b[33mfirst\x1b[0m".to_string());
    log.push(LogLevel::Info, "second".to_string());
    assert_eq!(2, log.len());
    let lines = log.display_lines();
    assert_eq!(
        vec![(LogLevel::Error, "first".to_string()), (LogLevel::Info, "second".to_string())],
        lines
    );
}

#[test]
fn empty_log_shows_nothing() {
    assert!(Log::new().display_lines().is_empty());
}
