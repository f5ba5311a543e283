use std::cmp::Ordering;
use std::collections::hash_map::DefaultHasher;
use std::hash::Hasher;

use smallbuf::small_string::{Representation, SmallString, INLINE_CAPACITY};

#[test]
fn inline_capacity_is_twenty_three_bytes() {
    assert_eq!(INLINE_CAPACITY, 23);
}

#[test]
fn empty_text_is_inline() {
    let s = SmallString::from_str("");
    assert_eq!(s.representation(), Representation::Inline);
    assert_eq!(s.len(), 0);
    assert!(s.is_empty());
    assert_eq!(s.as_str(), "");
    assert_eq!(s.as_bytes(), b"");
}

#[test]
fn hundred_bytes_are_on_the_heap() {
    let text = "x".repeat(100);
    let s = SmallString::from_str(&text);
    assert_eq!(s.representation(), Representation::Heap);
    assert_eq!(s.len(), 100);
    assert!(!s.is_empty());
    assert_eq!(s.as_str(), text);
}

#[test]
fn from_str_is_inline_up_to_the_capacity() {
    for length in 0..=60usize {
        let text = "a".repeat(length);
        let s = SmallString::from_str(&text);
        let expected = if length <= 23 { Representation::Inline } else { Representation::Heap };
        assert_eq!(s.representation(), expected, "length {}", length);
        assert_eq!(s.len(), length);
    }
}

#[test]
fn from_str_around_the_boundary() {
    assert_eq!(SmallString::from_str(&"b".repeat(22)).representation(), Representation::Inline);
    assert_eq!(SmallString::from_str(&"b".repeat(23)).representation(), Representation::Inline);
    assert_eq!(SmallString::from_str(&"b".repeat(24)).representation(), Representation::Heap);
}

#[test]
fn from_str_counts_bytes_not_characters() {
    // 12 characters of two bytes each: 24 bytes.
    let text = "é".repeat(12);
    assert_eq!(text.chars().count(), 12);
    let s = SmallString::from_str(&text);
    assert_eq!(s.len(), 24);
    assert_eq!(s.representation(), Representation::Heap);

    // 11 characters of two bytes and one of one byte: 23 bytes.
    let text = format!("{}z", "é".repeat(11));
    let s = SmallString::from_str(&text);
    assert_eq!(s.len(), 23);
    assert_eq!(s.representation(), Representation::Inline);
    assert_eq!(s.as_str(), text);
}

#[test]
fn inline_text_reads_back_as_text() {
    let s = SmallString::from_str("grüße, 世界 🦀");
    assert_eq!(s.representation(), Representation::Inline);
    assert_eq!(s.as_str(), "grüße, 世界 🦀");
    assert_eq!(s.as_bytes(), "grüße, 世界 🦀".as_bytes());
    assert_eq!(s.len(), "grüße, 世界 🦀".len());
    assert_eq!(s.to_owned_string(), String::from("grüße, 世界 🦀"));
}

#[test]
fn from_static_is_static_at_every_length() {
    const SHORT: &str = "static string";
    const EMPTY: &str = "";
    const LONG: &str = "this is a very long string that will not be copied anywhere";
    for text in [EMPTY, SHORT, LONG] {
        let s = SmallString::from_static(text);
        assert_eq!(s.representation(), Representation::Static);
        assert_eq!(s.len(), text.len());
        assert_eq!(s.as_str(), text);
    }
}

#[test]
fn from_static_borrows_the_text() {
    const TEXT: &str = "static string";
    let s = SmallString::from_static(TEXT);
    assert!(std::ptr::eq(s.as_str(), TEXT));
    assert!(std::ptr::eq(s.as_bytes(), TEXT.as_bytes()));
}

#[test]
fn from_owned_copies_short_text() {
    let s = SmallString::from_owned(String::from("from string"));
    assert_eq!(s.representation(), Representation::Inline);
    assert_eq!(s.as_str(), "from string");
    assert_eq!(s.len(), 11);
}

#[test]
fn from_owned_keeps_the_allocation_of_long_text() {
    let text = String::from("this is a very long string that will be heap allocated");
    let address = text.as_ptr();
    let s = SmallString::from_owned(text);
    assert_eq!(s.representation(), Representation::Heap);
    assert_eq!(s.as_str(), "this is a very long string that will be heap allocated");
    assert_eq!(s.as_bytes().as_ptr(), address);
}

#[test]
fn from_owned_around_the_boundary() {
    assert_eq!(SmallString::from_owned("c".repeat(23)).representation(), Representation::Inline);
    assert_eq!(SmallString::from_owned("c".repeat(24)).representation(), Representation::Heap);
    assert_eq!(SmallString::from_owned(String::new()).representation(), Representation::Inline);
}

#[test]
fn round_trip_keeps_the_text() {
    let samples = [
        String::new(),
        String::from("hello"),
        "r".repeat(22),
        "r".repeat(23),
        "r".repeat(24),
        "r".repeat(1000),
        String::from("naïve café — 23 bytes?"),
        String::from("\n\n    "),
        String::from("\0 embedded \0"),
    ];
    for text in samples.iter() {
        assert_eq!(&SmallString::from_str(text).to_owned_string(), text);
        assert_eq!(&SmallString::from_owned(text.clone()).to_owned_string(), text);
    }
    assert_eq!(SmallString::from_static("kept").to_owned_string(), "kept");
}

#[test]
fn equal_text_is_equal_however_it_is_held() {
    const SHORT: &str = "hello";
    let inline = SmallString::from_str(SHORT);
    let borrowed = SmallString::from_static(SHORT);
    assert_eq!(inline.representation(), Representation::Inline);
    assert_eq!(borrowed.representation(), Representation::Static);
    assert!(inline == borrowed);
    assert!(borrowed == inline);
    assert_eq!(inline.hash_value(), borrowed.hash_value());
    assert_eq!(inline.compare(&borrowed), Ordering::Equal);

    const LONG: &str = "this is a very long string that will be heap allocated";
    let heap = SmallString::from_str(LONG);
    let adopted = SmallString::from_owned(String::from(LONG));
    let borrowed = SmallString::from_static(LONG);
    assert_eq!(heap.representation(), Representation::Heap);
    assert!(heap == borrowed);
    assert!(heap == adopted);
    assert_eq!(heap.hash_value(), borrowed.hash_value());
    assert_eq!(heap.hash_value(), adopted.hash_value());
    assert_eq!(heap.partial_cmp(&borrowed), Some(Ordering::Equal));
}

#[test]
fn different_text_is_not_equal() {
    let a = SmallString::from_str("hello");
    assert!(a != SmallString::from_str("hellp"));
    assert!(a != SmallString::from_str("hell"));
    assert!(a != SmallString::from_str("hello "));
    assert!(a != SmallString::from_str(""));
    assert!(a != SmallString::from_static("Hello"));
    let long = SmallString::from_str(&"q".repeat(40));
    assert!(long != SmallString::from_str(&"q".repeat(41)));
    assert!(long != SmallString::from_str(&format!("{}r", "q".repeat(39))));
}

#[test]
fn hash_value_is_the_default_hasher_over_the_bytes() {
    let mut hasher = DefaultHasher::new();
    hasher.write(b"hello world!");
    let expected = hasher.finish();
    assert_eq!(SmallString::from_str("hello world!").hash_value(), expected);
    assert_eq!(SmallString::from_static("hello world!").hash_value(), expected);
    assert_ne!(SmallString::from_str("hello world?").hash_value(), expected);
}

#[test]
fn order_is_that_of_the_bytes() {
    let order = |a: &str, b: &str| SmallString::from_str(a).compare(&SmallString::from_str(b));
    assert_eq!(order("", ""), Ordering::Equal);
    assert_eq!(order("", "a"), Ordering::Less);
    assert_eq!(order("a", ""), Ordering::Greater);
    assert_eq!(order("abc", "abd"), Ordering::Less);
    assert_eq!(order("abd", "abc"), Ordering::Greater);
    assert_eq!(order("abc", "abcd"), Ordering::Less);
    assert_eq!(order("abcd", "abc"), Ordering::Greater);
    assert_eq!(order("b", "abcdefg"), Ordering::Greater);
    assert_eq!(order("Z", "a"), Ordering::Less);
    assert_eq!(order("é", "z"), Ordering::Greater);
}

#[test]
fn order_agrees_with_str_across_representations() {
    const WORDS: [&str; 6] = [
        "",
        "alpha",
        "alphabet",
        "beta",
        "this is a very long string that will be heap allocated",
        "this is a very long string that will be heap allocated!",
    ];
    for a in WORDS {
        for b in WORDS {
            let left = SmallString::from_static(a);
            let right = SmallString::from_str(b);
            assert_eq!(left.compare(&right), a.cmp(b), "{:?} against {:?}", a, b);
            assert_eq!(left.partial_cmp(&right), Some(a.cmp(b)));
            assert_eq!(left < right, a < b);
            assert_eq!(left >= right, a >= b);
            assert_eq!(left == right, a == b);
        }
    }
}

#[test]
fn clone_keeps_text_and_representation() {
    let samples = [
        SmallString::from_str("inline"),
        SmallString::from_static("static string"),
        SmallString::from_str(&"x".repeat(100)),
    ];
    for s in samples.iter() {
        let copy = s.clone();
        assert_eq!(copy.representation(), s.representation());
        assert_eq!(copy.as_str(), s.as_str());
        assert!(copy == *s);
    }
}

#[test]
fn clone_of_heap_text_has_its_own_allocation() {
    let s = SmallString::from_str(&"x".repeat(100));
    let copy = s.clone();
    assert_ne!(copy.as_bytes().as_ptr(), s.as_bytes().as_ptr());
    drop(s);
    assert_eq!(copy.len(), 100);
}

#[test]
fn as_bytes_is_the_utf8_encoding() {
    assert_eq!(SmallString::from_str("hello").as_bytes(), &[104u8, 101, 108, 108, 111]);
    assert_eq!(SmallString::from_str("é").as_bytes(), &[0xc3u8, 0xa9]);
    assert_eq!(SmallString::from_static("€").as_bytes(), &[0xe2u8, 0x82, 0xac]);
}
