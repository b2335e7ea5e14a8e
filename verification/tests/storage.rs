use svm::storage::hasher::{
    add_page, DefaultKeyHasher, DefaultPageHasher, KeyHasher, PageHasher,
};
use svm::storage::keys::{compare_keys, KeyOrder};
use svm::storage::kv::{MemoryKV, StatefulKV};
use svm::types::{Address, State};

#[test]
fn default_page_hasher_sanity() {
    let expected = DefaultKeyHasher::hash(&[
        0x14, 0x22, 0x33, 0x44, 0x00, 0x00, 0x00, 0x00, 0x00, 0x00, 0x00, 0x00, 0x00, 0x00, 0x00,
        0x00, 0x00, 0x00, 0x00, 0x00, 0x00,
    ]);

    let addr = Address::from(0x44_33_22_11 as u32);
    let page = 3;

    let actual = DefaultPageHasher::hash(addr, page);

    assert_eq!(expected, actual);
}

#[test]
fn default_key_hasher_is_keccak_256() {
    let expected = [
        0xc5, 0xd2, 0x46, 0x01, 0x86, 0xf7, 0x23, 0x3c, 0x92, 0x7e, 0x7d, 0xb2, 0xdc, 0xc7, 0x03,
        0xc0, 0xe5, 0x00, 0xb6, 0x53, 0xca, 0x82, 0x27, 0x3b, 0x7b, 0xfa, 0xd8, 0x04, 0x5d, 0x85,
        0xa4, 0x70,
    ];
    assert_eq!(expected, DefaultKeyHasher::hash(&[]));

    // keccak256("abc")
    let expected = [
        0x4e, 0x03, 0x65, 0x7a, 0xea, 0x45, 0xa9, 0x4f, 0xc7, 0xd4, 0x7b, 0xa8, 0x26, 0xc8, 0xd6,
        0x67, 0xc0, 0xd1, 0xe6, 0xe3, 0x3a, 0x64, 0xa0, 0x36, 0xec, 0x44, 0xf5, 0x8f, 0xa1, 0x2d,
        0x6c, 0x45,
    ];
    assert_eq!(expected, DefaultKeyHasher::hash(b"abc"));
}

#[test]
fn page_index_is_added_to_the_address_with_carry() {
    let addr = Address::new([0xFF; 20]);
    let mut expected = [0u8; 21];
    expected[20] = 1;
    assert_eq!(expected, add_page(&addr, 1));

    let mut expected = [0xFF; 21];
    expected[0] = 0;
    expected[1] = 1;
    expected[2] = 0;
    expected[3] = 0;
    expected[4] = 0;
    // 0xFF..FF + 0x0000_0101 = 0x1_00..00_0100 in little-endian bytes
    let mut sum = [0u8; 21];
    sum[1] = 1;
    sum[20] = 1;
    assert_eq!(sum, add_page(&addr, 0x0000_0101));
    assert_ne!(expected, sum);

    let addr = Address::from(0xFFFF_FFFF as u32);
    let mut sum = [0u8; 21];
    sum[0] = 0xFE;
    sum[1] = 0xFF;
    sum[2] = 0xFF;
    sum[3] = 0xFF;
    sum[4] = 1;
    assert_eq!(sum, add_page(&addr, 0xFFFF_FFFF));
}

#[test]
fn page_key_is_the_same_for_the_same_page_and_differs_between_pages() {
    let addr = Address::of("account");

    assert_eq!(DefaultPageHasher::hash(addr, 7), DefaultPageHasher::hash(addr, 7));
    assert_ne!(DefaultPageHasher::hash(addr, 7), DefaultPageHasher::hash(addr, 8));
    assert_ne!(
        DefaultPageHasher::hash(addr, 7),
        DefaultPageHasher::hash(Address::of("other"), 7)
    );
}

#[test]
fn keys_are_ordered_byte_by_byte() {
    assert_eq!(KeyOrder::Same, compare_keys(&[1, 2], &[1, 2]));
    assert_eq!(KeyOrder::Before, compare_keys(&[1, 2], &[1, 3]));
    assert_eq!(KeyOrder::After, compare_keys(&[2], &[1, 3]));
    assert_eq!(KeyOrder::Before, compare_keys(&[1], &[1, 0]));
    assert_eq!(KeyOrder::Before, compare_keys(&[], &[0]));
    assert_eq!(KeyOrder::Same, compare_keys(&[], &[]));
}

#[test]
fn writes_are_visible_after_a_checkpoint() {
    let mut kv = MemoryKV::new();
    assert_eq!(State::empty(), kv.head());
    assert_eq!(None, kv.read(b"k"));

    kv.write(b"k", b"v1");
    assert_eq!(Some(b"v1".to_vec()), kv.read(b"k"));

    let state = kv.checkpoint();
    assert_ne!(State::empty(), state);
    assert_eq!(state, kv.head());
    assert_eq!(Some(b"v1".to_vec()), kv.read(b"k"));
}

#[test]
fn discard_takes_buffered_writes_back() {
    let mut kv = MemoryKV::new();
    kv.write(b"k", b"old");
    let state = kv.checkpoint();

    kv.write(b"k", b"new");
    kv.write(b"other", b"x");
    assert_eq!(Some(b"new".to_vec()), kv.read(b"k"));

    kv.discard();
    assert_eq!(Some(b"old".to_vec()), kv.read(b"k"));
    assert_eq!(None, kv.read(b"other"));
    assert_eq!(state, kv.head());
}

#[test]
fn the_last_write_to_a_key_wins() {
    let mut kv = MemoryKV::new();
    kv.write(b"k", b"1");
    kv.write(b"k", b"2");
    assert_eq!(Some(b"2".to_vec()), kv.read(b"k"));
    kv.checkpoint();
    assert_eq!(Some(b"2".to_vec()), kv.read(b"k"));
}

#[test]
fn fingerprint_depends_on_the_contents_alone() {
    let mut a = MemoryKV::new();
    a.write(b"x", b"1");
    a.write(b"y", b"2");
    let state_a = a.checkpoint();

    // the same contents, written in another order and in two steps
    let mut b = MemoryKV::new();
    b.write(b"y", b"0");
    b.checkpoint();
    b.write(b"y", b"2");
    b.write(b"x", b"1");
    let state_b = b.checkpoint();
    assert_eq!(state_a, state_b);

    b.write(b"x", b"3");
    assert_ne!(state_a, b.checkpoint());
}

#[test]
fn fingerprint_is_the_digest_of_the_sorted_entries() {
    let mut kv = MemoryKV::new();
    kv.write(b"b", b"2");
    kv.write(b"a", b"11");
    let state = kv.checkpoint();

    let mut bytes = Vec::new();
    for (key, value) in [(&b"a"[..], &b"11"[..]), (&b"b"[..], &b"2"[..])] {
        bytes.extend_from_slice(&(key.len() as u64).to_be_bytes());
        bytes.extend_from_slice(key);
        bytes.extend_from_slice(&(value.len() as u64).to_be_bytes());
        bytes.extend_from_slice(value);
    }
    assert_eq!(State::new(DefaultKeyHasher::hash(&bytes)), state);
}

#[test]
fn rewind_goes_back_to_a_known_state() {
    let mut kv = MemoryKV::new();
    kv.write(b"k", b"1");
    let first = kv.checkpoint();
    kv.write(b"k", b"2");
    kv.write(b"j", b"3");
    let second = kv.checkpoint();

    assert!(kv.rewind(&first));
    assert_eq!(first, kv.head());
    assert_eq!(Some(b"1".to_vec()), kv.read(b"k"));
    assert_eq!(None, kv.read(b"j"));

    // the same writes on the same state give the same fingerprint again
    kv.write(b"k", b"2");
    kv.write(b"j", b"3");
    assert_eq!(second, kv.checkpoint());

    assert!(kv.rewind(&State::empty()));
    assert_eq!(None, kv.read(b"k"));

    assert!(!kv.rewind(&State::new([9; 32])));
    assert_eq!(State::empty(), kv.head());
}

#[test]
fn a_store_comes_back_from_its_snapshot() {
    let mut kv = MemoryKV::new();
    kv.write(b"b", b"2");
    kv.write(b"a", b"11");
    let state = kv.checkpoint();
    kv.write(b"c", b"not committed");

    let bytes = kv.snapshot();
    assert_eq!(State::new(DefaultKeyHasher::hash(&bytes)), state);

    let mut restored = MemoryKV::restore(&bytes).unwrap();
    assert_eq!(state, restored.head());
    assert_eq!(Some(b"11".to_vec()), restored.read(b"a"));
    assert_eq!(Some(b"2".to_vec()), restored.read(b"b"));
    assert_eq!(None, restored.read(b"c"));
    assert!(restored.rewind(&state));
    assert_eq!(bytes, restored.snapshot());

    let empty = MemoryKV::restore(&[]).unwrap();
    assert_eq!(None, empty.read(b"a"));
}

#[test]
fn bytes_that_are_no_snapshot_are_refused() {
    let mut kv = MemoryKV::new();
    kv.write(b"a", b"1");
    kv.write(b"b", b"2");
    kv.checkpoint();
    let bytes = kv.snapshot();

    // cut short
    assert!(MemoryKV::restore(&bytes[..bytes.len() - 1]).is_none());
    assert!(MemoryKV::restore(&bytes[..7]).is_none());
    // a key without a value
    assert!(MemoryKV::restore(&bytes[..9]).is_none());
    // the two entries in the wrong order
    let half = bytes.len() / 2;
    let mut swapped = bytes[half..].to_vec();
    swapped.extend_from_slice(&bytes[..half]);
    assert!(MemoryKV::restore(&swapped).is_none());
    // the same key twice
    let mut twice = bytes[..half].to_vec();
    twice.extend_from_slice(&bytes[..half]);
    assert!(MemoryKV::restore(&twice).is_none());
}
