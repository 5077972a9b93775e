use etcd_kv::key_range::{compute_prefix_end, lex_less};
use etcd_kv::{KeyRange, KvError};

#[test]
fn prefix_foo_ends_at_fop() {
    let kr = KeyRange::prefix(b"foo".to_vec()).unwrap();
    assert_eq!(kr.key(), b"foo");
    assert_eq!(kr.range_end(), b"fop");
    assert!(!kr.is_single_key());
}

#[test]
fn prefix_with_trailing_max_byte_is_unbounded_when_nothing_is_left() {
    let kr = KeyRange::prefix(vec![0xFF, 0xFF]).unwrap();
    assert_eq!(kr.range_end(), &[0u8]);
    let kr = KeyRange::prefix(vec![0xFF]).unwrap();
    assert_eq!(kr.range_end(), &[0u8]);
}

#[test]
fn prefix_fo_ff_drops_trailing_max_byte() {
    let kr = KeyRange::prefix(b"fo\xff".to_vec()).unwrap();
    assert_eq!(kr.range_end(), b"fp");
}

#[test]
fn prefix_end_raises_last_byte() {
    assert_eq!(compute_prefix_end(&[1, 2, 3]), vec![1, 2, 4]);
    assert_eq!(compute_prefix_end(&[1, 0xFE]), vec![1, 0xFF]);
    assert_eq!(compute_prefix_end(&[7, 0xFF, 0xFF]), vec![8]);
    assert_eq!(compute_prefix_end(&[]), vec![0]);
}

#[test]
fn prefix_range_holds_prefixed_keys_only() {
    let kr = KeyRange::prefix(b"foo".to_vec()).unwrap();
    assert!(kr.contains(b"foo"));
    assert!(kr.contains(b"foo\xff\xff"));
    assert!(kr.contains(b"foobar"));
    assert!(!kr.contains(b"fop"));
    assert!(!kr.contains(b"fo"));
    assert!(!kr.contains(b"fon"));
}

#[test]
fn single_key_range() {
    let kr = KeyRange::single(b"k".to_vec()).unwrap();
    assert!(kr.is_single_key());
    assert!(kr.range_end().is_empty());
    assert!(kr.contains(b"k"));
    assert!(!kr.contains(b"k1"));
}

#[test]
fn all_range_holds_every_key() {
    let kr = KeyRange::all();
    assert_eq!(kr.key(), b"");
    assert_eq!(kr.range_end(), &[0u8]);
    assert!(kr.contains(b""));
    assert!(kr.contains(b"\xff\xff"));
}

#[test]
fn from_key_range_is_unbounded_above() {
    let kr = KeyRange::from_key(b"m".to_vec()).unwrap();
    assert_eq!(kr.range_end(), &[0u8]);
    assert!(kr.contains(b"m"));
    assert!(kr.contains(b"z"));
    assert!(!kr.contains(b"a"));
}

#[test]
fn half_open_range() {
    let kr = KeyRange::range(b"b".to_vec(), b"d".to_vec()).unwrap();
    assert!(kr.contains(b"b"));
    assert!(kr.contains(b"c\xff"));
    assert!(!kr.contains(b"d"));
    assert!(!kr.contains(b"a"));
}

#[test]
fn empty_key_is_refused() {
    assert_eq!(KeyRange::single(Vec::new()).unwrap_err(), KvError::InvalidArgument);
    assert_eq!(KeyRange::prefix(Vec::new()).unwrap_err(), KvError::InvalidArgument);
    assert_eq!(KeyRange::from_key(Vec::new()).unwrap_err(), KvError::InvalidArgument);
    assert_eq!(KeyRange::range(Vec::new(), b"a".to_vec()).unwrap_err(), KvError::InvalidArgument);
}

#[test]
fn lexicographic_order() {
    assert!(lex_less(b"a", b"b"));
    assert!(lex_less(b"ab", b"abc"));
    assert!(!lex_less(b"abc", b"ab"));
    assert!(!lex_less(b"a", b"a"));
    assert!(lex_less(b"", b"a"));
    assert!(lex_less(b"a\xff", b"b"));
}
