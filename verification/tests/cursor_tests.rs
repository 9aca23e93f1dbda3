use dsl_lexer::is_valid_id;
use dsl_lexer::Memory;

#[test]
fn cursor_walks_the_text() {
    let mut m = Memory::new(vec!['a', 'b']);
    assert_eq!(m.previous(), None);
    assert_eq!(m.next(), Some('a'));
    assert_eq!(m.previous(), Some('a'));
    assert_eq!(m.next(), Some('b'));
    assert_eq!(m.next(), None);
    assert_eq!(m.previous(), None);
}

#[test]
fn rewind_reissues_the_last_character() {
    let mut m = Memory::new(vec!['a', 'b']);
    assert_eq!(m.next(), Some('a'));
    m.rewind();
    assert_eq!(m.previous(), Some('a'));
    assert_eq!(m.next(), Some('a'));
    assert_eq!(m.next(), Some('b'));
    assert_eq!(m.next(), None);
}

#[test]
fn rewind_at_exhaustion_reissues_the_end() {
    let mut m = Memory::new(vec!['a']);
    assert_eq!(m.next(), Some('a'));
    assert_eq!(m.next(), None);
    m.rewind();
    assert_eq!(m.next(), None);
}

#[test]
fn identifier_characters() {
    for c in ['a', 'Z', '3', '_', '.'] {
        assert!(is_valid_id(c));
    }
    for c in [' ', '@', '"', '\\', '+', '{'] {
        assert!(!is_valid_id(c));
    }
}
