use keygraph_rs::{Direction, Key};

#[test]
fn is_shifted_test() {
    let t = Key { value: 'a', shifted: 'A' };
    assert!(t.is_shifted('A'));
    assert!(t.is_unshifted('a'));
    assert!(!t.is_shifted('a'));
    assert!(!t.is_unshifted('A'));
    assert!(!(t.is_shifted('Y') || t.is_unshifted('y')));
}

#[test]
fn no_char_is_never_shifted_or_unshifted() {
    let t = Key { value: '\0', shifted: '\0' };
    assert!(!t.is_shifted('\0'));
    assert!(!t.is_unshifted('\0'));
}

#[test]
fn keys_without_shifted_form_equal_by_value() {
    let full = Key { value: '5', shifted: '%' };
    let bare = Key { value: '5', shifted: '\0' };
    let other = Key { value: '5', shifted: '&' };
    assert!(full == bare);
    assert!(bare == full);
    assert!(bare == other);
    assert!(full != other);
    assert!(full != Key { value: '6', shifted: '\0' });
    assert!(full != Key { value: '6', shifted: '%' });
}

#[test]
fn direction_offsets() {
    assert_eq!(Direction::Previous.offset(), -1);
    assert_eq!(Direction::Same.offset(), 0);
    assert_eq!(Direction::Next.offset(), 1);
    assert_eq!(Direction::Previous.apply(0), None);
    assert_eq!(Direction::Previous.apply(3), Some(2));
    assert_eq!(Direction::Next.apply(3), Some(4));
    assert_eq!(Direction::Next.apply(usize::MAX), None);
    assert_eq!(Direction::Same.apply(7), Some(7));
}
