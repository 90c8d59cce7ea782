use journal_relay::calendar::EntryTime;
use journal_relay::codec::{encode_body, CorruptDocumentError};
use journal_relay::merge::{merge, merge_text, JournalEntry};

fn entry_at(secs: i64, text: &str) -> JournalEntry {
    JournalEntry::from_message(secs, text).unwrap()
}

// 2024-03-15T10:00:00Z
const MORNING: i64 = 1710496800;

fn count(haystack: &[u8], needle: &[u8]) -> usize {
    haystack.windows(needle.len()).filter(|window| *window == needle).count()
}

#[test]
fn an_entry_is_made_of_a_message() {
    let entry = entry_at(MORNING, "hello");
    assert_eq!(
        entry.timestamp,
        EntryTime { year: 2024, month: 3, day: 15, hour: 18, minute: 0, second: 0, weekday: 4 }
    );
    assert_eq!(entry.text, b"hello".to_vec());
    assert_eq!(JournalEntry::new(entry.timestamp, "hello"), entry);
    assert_eq!(JournalEntry::from_message(i64::MAX, "hello"), None);
}

#[test]
fn the_line_of_an_entry() {
    assert_eq!(entry_at(MORNING, "hello").line(), b"|2024-03-15 18:00:00 Friday|hello|".to_vec());
    assert_eq!(
        entry_at(MORNING, "one\ntwo").line(),
        b"|2024-03-15 18:00:00 Friday|one<br />two|".to_vec()
    );
    assert_eq!(entry_at(MORNING, "").line(), b"|2024-03-15 18:00:00 Friday||".to_vec());
    assert_eq!(
        entry_at(MORNING, "gr\u{fc}\u{df}e").line(),
        "|2024-03-15 18:00:00 Friday|gr\u{fc}\u{df}e|".as_bytes().to_vec()
    );
}

#[test]
fn new_document_bootstrap() {
    let body = merge_text(None, &entry_at(MORNING, "hello"));
    assert_eq!(
        String::from_utf8(body.clone()).unwrap(),
        "# 2024-03\n## 2024-03-15\n|2024-03-15 18:00:00 Friday|hello|"
    );
    let lines: Vec<&[u8]> = body.split(|byte| *byte == b'\n').collect();
    assert!(count(lines[0], b"2024-03") == 1);
    assert!(count(lines[1], b"2024-03-15") == 1);
    assert_eq!(merge(None, &entry_at(MORNING, "hello")), Ok(body));
}

#[test]
fn second_entry_of_the_day_adds_one_line() {
    let first = merge_text(None, &entry_at(MORNING, "hello"));
    let second = merge_text(Some(&first), &entry_at(MORNING + 300, "again"));
    assert_eq!(
        String::from_utf8(second.clone()).unwrap(),
        "# 2024-03\n## 2024-03-15\n|2024-03-15 18:00:00 Friday|hello|\n|2024-03-15 18:05:00 Friday|again|"
    );
    assert_eq!(&second[..first.len()], &first[..]);
    assert_eq!(count(&second, b"\n") - count(&first, b"\n"), 1);
}

#[test]
fn same_day_adds_no_second_marker() {
    let existing = b"# 2024-03\n## 2024-03-15\n|2024-03-15 09:00:00 Friday|early|".to_vec();
    let body = merge_text(Some(&existing), &entry_at(MORNING, "hello"));
    assert_eq!(count(&body, b"## 2024-03-15"), 1);
    assert_eq!(
        String::from_utf8(body).unwrap(),
        "# 2024-03\n## 2024-03-15\n|2024-03-15 09:00:00 Friday|early|\n|2024-03-15 18:00:00 Friday|hello|"
    );
}

#[test]
fn a_marker_on_the_last_line_counts() {
    let existing = b"# 2024-03\n## 2024-03-15".to_vec();
    let body = merge_text(Some(&existing), &entry_at(MORNING, "hello"));
    assert_eq!(
        String::from_utf8(body).unwrap(),
        "# 2024-03\n## 2024-03-15\n|2024-03-15 18:00:00 Friday|hello|"
    );
}

#[test]
fn a_new_day_opens_a_section() {
    let existing = b"# 2024-03\n## 2024-03-14\n|2024-03-14 09:00:00 Thursday|early|".to_vec();
    let body = merge_text(Some(&existing), &entry_at(MORNING, "hello"));
    assert_eq!(
        String::from_utf8(body).unwrap(),
        "# 2024-03\n## 2024-03-14\n|2024-03-14 09:00:00 Thursday|early|\n## 2024-03-15\n|2024-03-15 18:00:00 Friday|hello|"
    );
}

#[test]
fn a_marker_inside_a_line_opens_no_section() {
    let existing = b"# 2024-03\n|2024-03-14 09:00:00 Thursday|see ## 2024-03-15|".to_vec();
    let body = merge_text(Some(&existing), &entry_at(MORNING, "hello"));
    assert_eq!(
        String::from_utf8(body).unwrap(),
        "# 2024-03\n|2024-03-14 09:00:00 Thursday|see ## 2024-03-15|\n## 2024-03-15\n|2024-03-15 18:00:00 Friday|hello|"
    );
}

#[test]
fn an_earlier_day_joins_its_section_at_the_end() {
    let existing =
        b"# 2024-03\n## 2024-03-15\n|2024-03-15 09:00:00 Friday|a|\n## 2024-03-16\n|2024-03-16 09:00:00 Saturday|b|"
            .to_vec();
    let body = merge_text(Some(&existing), &entry_at(MORNING, "late"));
    assert_eq!(&body[..existing.len()], &existing[..]);
    assert_eq!(&body[existing.len()..], b"\n|2024-03-15 18:00:00 Friday|late|");
}

#[test]
fn merge_only_appends() {
    let bodies: Vec<&[u8]> = vec![
        b"",
        b"\n",
        b"anything at all",
        b"# 2024-03\n## 2024-03-15\n",
        b"\xff\xfe not text \x00",
        b"## 2024-03-15\n## 2024-03-15",
    ];
    for existing in bodies {
        let body = merge_text(Some(existing), &entry_at(MORNING, "hello\nworld"));
        assert!(body.len() > existing.len());
        assert_eq!(&body[..existing.len()], existing);
        assert!(body.ends_with(b"\n|2024-03-15 18:00:00 Friday|hello<br />world|"));
    }
}

#[test]
fn an_empty_document_gets_a_section() {
    let body = merge_text(Some(b""), &entry_at(MORNING, "hello"));
    assert_eq!(
        String::from_utf8(body).unwrap(),
        "\n## 2024-03-15\n|2024-03-15 18:00:00 Friday|hello|"
    );
}

#[test]
fn a_stored_document_is_decoded_before_the_merge() {
    let existing = b"# 2024-03\n## 2024-03-15\n|2024-03-15 09:00:00 Friday|early|".to_vec();
    let mut stored = encode_body(&existing).unwrap().into_bytes();
    stored.insert(8, b'\n');
    stored.push(b'\n');
    let body = merge(Some(&stored), &entry_at(MORNING, "hello")).unwrap();
    assert_eq!(body, merge_text(Some(&existing), &entry_at(MORNING, "hello")));
    assert_eq!(&body[..existing.len()], &existing[..]);
}

#[test]
fn a_corrupt_stored_document_fails_the_merge() {
    assert_eq!(
        merge(Some(b"%%% no base64 %%%"), &entry_at(MORNING, "hello")),
        Err(CorruptDocumentError {})
    );
}
