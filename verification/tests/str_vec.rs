use panicless::StrVec;

#[test]
fn creation_assumptions() {
    // A fresh table holds no strings: the offset index starts with its
    // single initial entry, so the length is zero and nothing can be read.
    let words = StrVec::new();
    assert_eq!(words.len(), 0);
    assert_eq!(words.get(0), None);

    let mut iter = words.iter();
    assert_eq!(iter.next(), None);
}

#[test]
fn push_get() {
    let mut words = StrVec::new();
    assert_eq!(words.len(), 0);
    words.push("a");
    assert_eq!(words.len(), 1);
    words.push("ab");
    assert_eq!(words.len(), 2);
    words.push("abc");
    assert_eq!(words.len(), 3);

    assert_eq!(words.get(0), Some("a"));
    assert_eq!(words.get(1), Some("ab"));
    assert_eq!(words.get(2), Some("abc"));
    assert_eq!(words.get(3), None);
}

#[test]
fn str_vec_iterate() {
    let mut words = StrVec::new();
    words.push("a");
    words.push("ab");
    words.push("abc");
    let mut iter = words.iter();
    assert_eq!(iter.next(), Some("a"));
    assert_eq!(iter.next(), Some("ab"));
    assert_eq!(iter.next(), Some("abc"));
    assert_eq!(iter.next(), None);
}

#[test]
fn push_returns_the_key() {
    let mut words = StrVec::new();
    assert_eq!(words.push("first"), 0);
    assert_eq!(words.push("second"), 1);
    assert_eq!(words.push("third"), 2);
    assert_eq!(words.get(1), Some("second"));
}

#[test]
fn empty_string_is_legal() {
    let mut words = StrVec::new();
    words.push("x");
    let key = words.push("");
    words.push("y");
    assert_eq!(key, 1);
    assert_eq!(words.len(), 3);
    assert_eq!(words.get(1), Some(""));
    assert_eq!(words.get(0), Some("x"));
    assert_eq!(words.get(2), Some("y"));

    let mut iter = words.iter();
    assert_eq!(iter.next(), Some("x"));
    assert_eq!(iter.next(), Some(""));
    assert_eq!(iter.next(), Some("y"));
    assert_eq!(iter.next(), None);
}

#[test]
fn only_empty_strings() {
    let mut words = StrVec::new();
    words.push("");
    words.push("");
    assert_eq!(words.len(), 2);
    assert_eq!(words.get(0), Some(""));
    assert_eq!(words.get(1), Some(""));
    assert_eq!(words.get(2), None);
}

#[test]
fn str_vec_with_capacity() {
    let mut words = StrVec::with_capacity(1024, 16);
    assert!(words.is_empty());
    words.push("hello");
    assert!(!words.is_empty());
    assert_eq!(words.get(0), Some("hello"));
}

#[test]
fn non_ascii_round_trip() {
    let mut words = StrVec::new();
    words.push("héllo");
    words.push("mañana");
    words.push("日本語");
    assert_eq!(words.get(0), Some("héllo"));
    assert_eq!(words.get(1), Some("mañana"));
    assert_eq!(words.get(2), Some("日本語"));
}

#[test]
fn default_table_is_empty() {
    let words: StrVec = Default::default();
    assert!(words.is_empty());
    assert_eq!(words.get(0), None);
}

#[test]
fn iter_len_reports_table_size() {
    let mut words = StrVec::new();
    words.push("a");
    words.push("b");
    let iter = words.iter();
    assert_eq!(iter.len(), 2);
}
