use svm::nibble::{concat_nibbles, Nibble, NibbleIter, NibbleWriter};

fn read_nibble(iter: &mut NibbleIter) -> u8 {
    iter.next().unwrap().inner()
}

fn maybe_read_nibble(iter: &mut NibbleIter) -> Option<u8> {
    iter.next().map(|nibble| nibble.inner())
}

#[test]
fn nibble_iter_reads_empty_seq() {
    let vec = vec![];
    let mut iter = NibbleIter::new(&vec[..]);

    assert_eq!(None, maybe_read_nibble(&mut iter));
}

#[test]
fn nibble_iter_reads_nibbles() {
    let vec = vec![0b_1001_1111, 0b_0011_0000];
    let mut iter = NibbleIter::new(&vec[..]);

    assert_eq!(0b_0000_1001, read_nibble(&mut iter));
    assert_eq!(0b_0000_1111, read_nibble(&mut iter));
    assert_eq!(0b_0000_0011, read_nibble(&mut iter));
    assert_eq!(0b_0000_0000, read_nibble(&mut iter));
    assert_eq!(None, maybe_read_nibble(&mut iter));
}

#[test]
fn nibble_iter_info() {
    let vec = vec![0b_1001_1111, 0b_0011_0000];
    let mut iter = NibbleIter::new(&vec[..]);

    assert_eq!(0, iter.nibbles_read());
    assert!(iter.is_byte_aligned());

    read_nibble(&mut iter);
    assert_eq!(1, iter.nibbles_read());
    assert!(iter.is_byte_aligned() == false);

    read_nibble(&mut iter);
    assert_eq!(2, iter.nibbles_read());
    assert!(iter.is_byte_aligned());

    read_nibble(&mut iter);
    assert_eq!(3, iter.nibbles_read());
    assert!(iter.is_byte_aligned() == false);

    read_nibble(&mut iter);
    assert_eq!(4, iter.nibbles_read());
    assert!(iter.is_byte_aligned());
}

#[test]
fn nibble_iter_stays_at_the_end() {
    let vec = vec![0xAB];
    let mut iter = NibbleIter::new(&vec[..]);

    assert_eq!(Some(0xA), maybe_read_nibble(&mut iter));
    assert_eq!(Some(0xB), maybe_read_nibble(&mut iter));
    assert_eq!(None, maybe_read_nibble(&mut iter));
    assert_eq!(None, maybe_read_nibble(&mut iter));
    assert_eq!(2, iter.nibbles_read());
    assert_eq!(0, iter.remaining_bytes());
}

#[test]
fn nibble_iter_reads_bytes_across_byte_borders() {
    let vec = vec![0x12, 0x34, 0x56];
    let mut iter = NibbleIter::new(&vec[..]);

    assert_eq!(1, read_nibble(&mut iter));
    assert_eq!(0x23, iter.read_byte());
    assert_eq!(vec![0x45], iter.read_bytes(1));
    assert_eq!(0, iter.remaining_bytes());
    assert_eq!(5, iter.nibbles_read());
}

#[test]
fn nibble_iter_read_bytes_stops_at_the_end() {
    let vec = vec![0x12, 0x34, 0x56];
    let mut iter = NibbleIter::new(&vec[..]);

    assert_eq!(vec![0x12, 0x34, 0x56], iter.read_bytes(10));
    assert_eq!(6, iter.nibbles_read());

    let mut iter = NibbleIter::new(&vec[..]);
    read_nibble(&mut iter);
    // five nibbles are left: two bytes, and a last nibble without a partner
    assert_eq!(vec![0x23, 0x45], iter.read_bytes(3));
    assert_eq!(6, iter.nibbles_read());
}

#[test]
fn ensure_eof_accepts_an_aligned_end() {
    let vec = vec![0x12];
    let mut iter = NibbleIter::new(&vec[..]);
    iter.read_byte();

    assert_eq!(Ok(()), iter.ensure_eof("trailing"));
}

#[test]
fn ensure_eof_accepts_one_padding_nibble() {
    let vec = vec![0x12, 0x30];
    let mut iter = NibbleIter::new(&vec[..]);
    iter.read_byte();
    read_nibble(&mut iter);

    assert_eq!(Ok(()), iter.ensure_eof("trailing"));
}

#[test]
fn ensure_eof_rejects_more_than_one_leftover_nibble() {
    let vec = vec![0x12, 0x30];
    let mut iter = NibbleIter::new(&vec[..]);
    iter.read_byte();
    assert_eq!(Err("trailing"), iter.ensure_eof("trailing"));

    let vec = vec![0x12, 0x34, 0x56];
    let mut iter = NibbleIter::new(&vec[..]);
    read_nibble(&mut iter);
    assert_eq!(Err("trailing"), iter.ensure_eof("trailing"));
}

#[test]
fn writer_pads_an_odd_number_of_nibbles_with_zero() {
    let mut w = NibbleWriter::new();
    w.push(Nibble::new(0xA));
    w.push(Nibble::new(0xB));
    w.push(Nibble::new(0xC));
    assert_eq!(3, w.len());
    assert!(!w.is_byte_aligned());

    assert_eq!(vec![0xAB, 0xC0], w.into_bytes());
}

#[test]
fn writer_keeps_an_even_number_of_nibbles_as_it_is() {
    let mut w = NibbleWriter::new();
    w.write(&[Nibble::new(1), Nibble::new(2)]);
    w.write_byte(0x34);
    w.write_bytes(&[0x56, 0x78]);
    assert!(w.is_byte_aligned());

    assert_eq!(vec![0x12, 0x34, 0x56, 0x78], w.into_bytes());
}

#[test]
fn concat_nibbles_returns_the_unpaired_nibble() {
    let nibbles = [Nibble::new(0xF), Nibble::new(0x0), Nibble::new(0x7)];
    let (bytes, rem) = concat_nibbles(&nibbles[..]);

    assert_eq!(vec![0xF0], bytes);
    assert_eq!(Some(7), rem.map(|nibble| nibble.inner()));

    let (bytes, rem) = concat_nibbles(&nibbles[..2]);
    assert_eq!(vec![0xF0], bytes);
    assert!(rem.is_none());
}
