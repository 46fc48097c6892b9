use scx_loader::journal::journal_failure_text;
use scx_loader::journal::{
    entry_lines, journal_display_lines, micros_to_secs, parse_i64, parse_u8, JournalEntry,
    JournalMessage,
};

#[test]
fn numbers_parse_like_std() {
    for s in ["", "+", "-", "0", "+7", "255", "256", "0255", "-1", " 1", "1a", "999999999999"] {
        assert_eq!(parse_u8(s), s.parse::<u8>().ok(), "input {s:?}");
    }
    for s in ["", "-", "1700000000123456", "-9223372036854775808", "9223372036854775807", "9223372036854775808", "-9223372036854775809", "+5", "12 "] {
        assert_eq!(parse_i64(s), s.parse::<i64>().ok(), "input {s:?}");
    }
    assert_eq!(micros_to_secs(1_700_000_000_999_999), 1_700_000_000);
    assert_eq!(micros_to_secs(-1_500_000), -1);
    assert_eq!(micros_to_secs(i64::MIN), i64::MIN / 1_000_000);
}

#[test]
fn entries_flatten_into_lines() {
    let entry = JournalEntry {
        priority: Some("3".to_string()),
        realtime_us: None,
        message: JournalMessage::Text("Opts {\n  a: 1\n}".to_string()),
    };
    let ls = entry_lines(&entry, "12:00:00".to_string()).unwrap();
    assert_eq!(ls.len(), 3);
    assert_eq!(ls[0].time, "12:00:00");
    assert_eq!(ls[1].time, "");
    assert_eq!(ls[1].text, "  a: 1");
    assert!(!ls[0].continuation && ls[1].continuation && ls[2].continuation);
    assert!(ls.iter().all(|l| l.priority == 3));
    let other = JournalEntry { priority: Some("x".to_string()), realtime_us: None, message: JournalMessage::Other };
    assert!(entry_lines(&other, String::new()).is_none());
    let bytes = JournalEntry {
        priority: None,
        realtime_us: None,
        message: JournalMessage::Bytes(vec![Some(104), None, Some(105 + 256), Some(255)]),
    };
    let ls = entry_lines(&bytes, String::new()).unwrap();
    assert_eq!(ls[0].text, "hi\u{fffd}");
    assert_eq!(ls[0].priority, 6);
}

#[test]
fn journal_output_is_decoded() {
    let out = [
        "{\"PRIORITY\":\"4\",\"MESSAGE\":\"first\\nsecond\"}",
        "",
        "not json",
        "{\"MESSAGE\":[111,107]}",
        "{\"PRIORITY\":\"6\"}",
        "{\"PRIORITY\":5,\"MESSAGE\":\"third\",\"__REALTIME_TIMESTAMP\":\"1700000000000000\"}",
    ]
    .join("\n");
    let out = out.as_str();
    let ls = journal_display_lines(out);
    let texts: Vec<&str> = ls.iter().map(|l| l.text.as_str()).collect();
    assert_eq!(texts, vec!["first", "second", "ok", "third"]);
    assert_eq!(ls[0].priority, 4);
    assert_eq!(ls[0].time, "");
    assert!(ls[1].continuation);
    // PRIORITY given as a number is not a string: the default applies
    assert_eq!(ls[3].priority, 6);
    assert_eq!(ls[3].time.len(), 8);
    let t: Vec<char> = ls[3].time.chars().collect();
    assert_eq!((t[2], t[5]), (':', ':'));
    assert!([0, 1, 3, 4, 6, 7].iter().all(|&i| t[i].is_ascii_digit()));
    // 1700000000 s is 22:13:20 UTC, so the seconds show 20 in any whole-minute zone
    assert_eq!(&ls[3].time[6..], "20");
}

#[test]
fn journal_failure_texts() {
    assert_eq!(journal_failure_text(""), "journalctl failed");
    assert_eq!(journal_failure_text(" \n"), "journalctl failed");
    assert_eq!(journal_failure_text("Specifying boot ID has no effect\n"), "journalctl failed: Specifying boot ID has no effect");
}
