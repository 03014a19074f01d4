use skrc::lexer::cursor::Cursor;

#[test]
fn test_cursor() {
    let mut cursor = Cursor::new("test");
    assert_eq!(cursor.take_next(), Some('t'));
    assert_eq!(cursor.take_next(), Some('e'));
    assert_eq!(cursor.take_next(), Some('s'));
    assert_eq!(cursor.take_next(), Some('t'));
    assert_eq!(cursor.take_next(), None);
    assert!(cursor.is_eof());
}

#[test]
fn test_cursor_take_while() {
    let mut cursor = Cursor::new("Hello, world!");
    cursor.take_while(|c| c.is_alphabetic());
    assert_eq!(cursor.take_next(), Some(','));
    cursor.take_while(|c| c.is_whitespace());
    cursor.take_while(|c| c.is_alphabetic());
    assert_eq!(cursor.take_next(), Some('!'));
    assert_eq!(cursor.take_next(), None);
    assert!(cursor.is_eof());
}

#[test]
fn cursor_peek_does_not_consume() {
    let mut cursor = Cursor::new("ab");
    assert_eq!(cursor.peek_next(), Some('a'));
    assert_eq!(cursor.peek_next(), Some('a'));
    assert_eq!(cursor.take_next(), Some('a'));
    assert_eq!(cursor.peek_next(), Some('b'));
    cursor.take_next();
    assert_eq!(cursor.peek_next(), None);
}

#[test]
fn cursor_counts_consumed_since_reset() {
    let mut cursor = Cursor::new("abcdef");
    assert_eq!(cursor.consumed_size(), 0);
    cursor.take_next();
    cursor.take_next();
    assert_eq!(cursor.consumed_size(), 2);
    cursor.reset_consumed_size();
    assert_eq!(cursor.consumed_size(), 0);
    cursor.take_while(|c| c != 'f');
    assert_eq!(cursor.consumed_size(), 3);
    assert!(!cursor.is_eof());
}

#[test]
fn cursor_on_empty_text() {
    let mut cursor = Cursor::new("");
    assert!(cursor.is_eof());
    assert_eq!(cursor.peek_next(), None);
    assert_eq!(cursor.take_next(), None);
    cursor.take_while(|_| true);
    assert_eq!(cursor.consumed_size(), 0);
}

#[test]
fn cursor_counts_bytes_of_wide_characters() {
    let mut cursor = Cursor::new("€é!");
    assert_eq!(cursor.take_next(), Some('€'));
    assert_eq!(cursor.consumed_size(), 3);
    cursor.reset_consumed_size();
    cursor.take_while(|c| c.is_alphabetic());
    assert_eq!(cursor.consumed_size(), 2);
    assert_eq!(cursor.peek_next(), Some('!'));
}
