use smallbuf::policy::Placement;
use smallbuf::small_string::{Representation, SmallString};
use smallbuf::small_vector::SmallVector;
use smallvec::SmallVec;
use smol_str::SmolStr;

#[test]
fn strings_agree_with_smol_str() {
    let long = "x".repeat(100);
    let samples = [
        "",
        "hello",
        "hello world!",
        "inline",
        "from string",
        "this is a very long string that will be heap allocated",
        long.as_str(),
    ];
    for text in samples {
        let theirs = SmolStr::new(text);
        let ours = SmallString::from_str(text);
        assert_eq!(ours.len(), theirs.len());
        assert_eq!(ours.as_str(), theirs.as_str());
        assert_eq!(ours.representation() == Representation::Heap, theirs.is_heap_allocated());
    }
}

#[test]
fn inline_capacity_agrees_with_smol_str() {
    for length in 0..=48usize {
        let text = "s".repeat(length);
        let theirs = SmolStr::new(&text);
        let ours = SmallString::from_str(&text);
        assert_eq!(ours.representation() == Representation::Heap, theirs.is_heap_allocated());
    }
}

#[test]
fn static_strings_agree_with_smol_str() {
    const STATIC_STR: &str = "static string";
    let theirs = SmolStr::new_static(STATIC_STR);
    let ours = SmallString::from_static(STATIC_STR);
    assert_eq!(ours.representation(), Representation::Static);
    assert!(!theirs.is_heap_allocated());
    assert_eq!(ours.as_str(), theirs.as_str());
    assert_eq!(ours == SmallString::from_str(STATIC_STR), theirs == SmolStr::new(STATIC_STR));
}

#[test]
fn owned_strings_agree_with_smol_str() {
    let theirs = SmolStr::from(String::from("from string"));
    let ours = SmallString::from_owned(String::from("from string"));
    assert_eq!(ours.as_str(), theirs.as_str());
    assert_eq!(ours.representation() == Representation::Heap, theirs.is_heap_allocated());
}

#[test]
fn string_order_agrees_with_smol_str() {
    let words = ["", "hello", "hello world!", "help", "this is a very long string, longer than most"];
    for a in words {
        for b in words {
            let ours = SmallString::from_str(a).compare(&SmallString::from_str(b));
            assert_eq!(ours, SmolStr::new(a).cmp(&SmolStr::new(b)));
        }
    }
}

#[test]
fn vectors_agree_with_smallvec() {
    let theirs: SmallVec<[u64; 2]> = SmallVec::from([1, 2]);
    let ours: SmallVector<u64, 2> = SmallVector::from([1, 2]);
    assert_eq!(ours.placement() == Placement::Heap, theirs.spilled());
    assert_eq!(ours.len(), theirs.len());
    assert_eq!(ours.as_slice(), theirs.as_slice());

    let theirs: SmallVec<[u64; 2]> = SmallVec::from_slice(&[1, 2, 4, 5]);
    let ours: SmallVector<u64, 2> = SmallVector::from([1, 2, 4, 5]);
    assert_eq!(ours.placement() == Placement::Heap, theirs.spilled());
    assert_eq!(ours.len(), theirs.len());
    assert_eq!(ours.as_slice(), theirs.as_slice());

    let theirs: SmallVec<[u32; 4]> = SmallVec::new();
    let ours: SmallVector<u32, 4> = SmallVector::new();
    assert_eq!(ours.placement() == Placement::Heap, theirs.spilled());
    assert_eq!(ours.len(), theirs.len());

    let mut theirs: SmallVec<[i32; 3]> = SmallVec::new();
    theirs.push(42);
    let ours: SmallVector<i32, 3> = SmallVector::from([42]);
    assert_eq!(ours.placement() == Placement::Heap, theirs.spilled());
    assert_eq!(ours.as_slice(), theirs.as_slice());
}

#[test]
fn pushes_and_clears_agree_with_smallvec() {
    let mut theirs: SmallVec<[u64; 4]> = SmallVec::new();
    let mut ours: SmallVector<u64, 4> = SmallVector::new();
    for round in 0..3u64 {
        for i in 0..(7 - 2 * round) {
            theirs.push(i);
            ours.push(i);
            assert_eq!(ours.placement() == Placement::Heap, theirs.spilled());
            assert_eq!(ours.as_slice(), theirs.as_slice());
        }
        assert_eq!(ours.pop(), theirs.pop());
        theirs.clear();
        ours.clear();
        assert_eq!(ours.placement() == Placement::Heap, theirs.spilled());
        assert_eq!(ours.len(), theirs.len());
    }
}
