use libsmac::Tokenizer;

fn chars(s: &str) -> Vec<char> {
    s.chars().collect()
}

#[test]
fn peek_does_not_consume() {
    let t = Tokenizer::new(chars("ab"));
    assert_eq!(t.peek(), Some('a'));
    assert_eq!(t.peek(), Some('a'));
    assert_eq!(t.last_position(), 0);
}

#[test]
fn peek_n_looks_ahead_without_consuming() {
    let t = Tokenizer::new(chars("abc"));
    assert_eq!(t.peek_n(0), Some('a'));
    assert_eq!(t.peek_n(2), Some('c'));
    assert_eq!(t.peek_n(3), None);
    assert_eq!(t.last_position(), 0);
}

#[test]
fn next_consumes_one_character() {
    let mut t = Tokenizer::new(chars("ab"));
    assert_eq!(t.next(), Some('a'));
    assert_eq!(t.next(), Some('b'));
    assert_eq!(t.next(), None);
    assert_eq!(t.last_position(), 2);
}

#[test]
fn advance_skips_and_saturates_at_the_end() {
    let mut t = Tokenizer::new(chars("abcd"));
    t.advance(2);
    assert_eq!(t.peek(), Some('c'));
    t.advance(10);
    assert!(t.end());
    assert_eq!(t.last_position(), 4);
}

#[test]
fn end_tracks_remaining_input() {
    let mut t = Tokenizer::new(chars("x"));
    assert!(!t.end());
    t.next();
    assert!(t.end());

    let empty = Tokenizer::new(Vec::new());
    assert!(empty.end());
}
