//! Half-byte streams: the substrate of every wire encoder and decoder.
//!
//! A byte holds two nibbles, the most significant first. The reader walks a
//! byte buffer nibble by nibble; the writer collects nibbles and packs them
//! into bytes, padding the last byte with a zero nibble when their number is
//! odd.

use vstd::prelude::*;

verus! {

/// The nibbles of `bytes`, two per byte, high half first.
pub open spec fn nibbles_of(bytes: Seq<u8>) -> Seq<u8> {
    Seq::new(
        2 * bytes.len(),
        |i: int|
            if i % 2 == 0 {
                bytes[i / 2] / 16
            } else {
                bytes[i / 2] % 16
            },
    )
}

/// Whether every element of `s` fits in four bits.
pub open spec fn is_nibbles(s: Seq<u8>) -> bool {
    forall|i: int| 0 <= i < s.len() ==> #[trigger] s[i] < 16
}

/// The bytes made of consecutive pairs of `nibbles`; a last unpaired nibble
/// is left out.
pub open spec fn pack(nibbles: Seq<u8>) -> Seq<u8> {
    Seq::new(nibbles.len() / 2, |i: int| (nibbles[2 * i] * 16 + nibbles[2 * i + 1]) as u8)
}

/// `nibbles`, followed by one zero nibble when their number is odd.
pub open spec fn padded(nibbles: Seq<u8>) -> Seq<u8> {
    if nibbles.len() % 2 == 0 {
        nibbles
    } else {
        nibbles.push(0u8)
    }
}

/// The values of a sequence of nibbles.
pub open spec fn nibble_values(nibbles: Seq<Nibble>) -> Seq<u8> {
    Seq::new(nibbles.len(), |i: int| nibbles[i]@)
}

/// Packing an even number of nibbles and unpacking the bytes gives the
/// nibbles back.
pub proof fn lemma_nibbles_of_pack(nibbles: Seq<u8>)
    requires
        is_nibbles(nibbles),
        nibbles.len() % 2 == 0,
    ensures
        nibbles_of(pack(nibbles)) == nibbles,
{
    let unpacked = nibbles_of(pack(nibbles));
    assert(unpacked.len() == nibbles.len());
    assert forall|i: int| 0 <= i < nibbles.len() implies unpacked[i] == nibbles[i] by {
        let j = i / 2;
        let h = nibbles[2 * j];
        let l = nibbles[2 * j + 1];
        assert(h < 16 && l < 16);
        assert(pack(nibbles)[j] == (h * 16 + l) as u8);
        assert((h * 16 + l) / 16 == h && (h * 16 + l) % 16 == l);
    }
    assert(unpacked =~= nibbles);
}

/// Unpacking bytes and packing the nibbles gives the bytes back.
pub proof fn lemma_pack_nibbles_of(bytes: Seq<u8>)
    ensures
        pack(nibbles_of(bytes)) == bytes,
        is_nibbles(nibbles_of(bytes)),
        nibbles_of(bytes).len() == 2 * bytes.len(),
{
    let n = nibbles_of(bytes);
    assert forall|i: int| 0 <= i < bytes.len() implies pack(n)[i] == bytes[i] by {
        assert(n[2 * i] == bytes[i] / 16);
        assert(n[2 * i + 1] == bytes[i] % 16);
    }
    assert(pack(n) =~= bytes);
}

/// The nibbles of a concatenation are the concatenated nibbles.
pub proof fn lemma_nibbles_of_concat(a: Seq<u8>, b: Seq<u8>)
    ensures
        nibbles_of(a + b) == nibbles_of(a) + nibbles_of(b),
{
    let whole = nibbles_of(a + b);
    let parts = nibbles_of(a) + nibbles_of(b);
    assert(whole.len() == parts.len());
    assert forall|i: int| 0 <= i < whole.len() implies whole[i] == parts[i] by {
        if i < 2 * a.len() {
            assert((a + b)[i / 2] == a[i / 2]);
        } else {
            let k = i - 2 * a.len();
            assert(i / 2 == a.len() + k / 2);
            assert(i % 2 == k % 2);
            assert((a + b)[i / 2] == b[k / 2]);
        }
    }
    assert(whole =~= parts);
}

/// What a flush does to a stream of nibbles: the bytes hold the nibbles
/// unchanged, followed by at most one padding nibble, which is zero, and by
/// none when their number is even.
pub proof fn lemma_flush_alignment(nibbles: Seq<u8>)
    requires
        is_nibbles(nibbles),
    ensures
        nibbles_of(pack(padded(nibbles))) == padded(nibbles),
        padded(nibbles).len() % 2 == 0,
        padded(nibbles).subrange(0, nibbles.len() as int) == nibbles,
        nibbles.len() <= padded(nibbles).len() <= nibbles.len() + 1,
        nibbles.len() % 2 == 0 ==> padded(nibbles) == nibbles,
        nibbles.len() % 2 == 1 ==> padded(nibbles) == nibbles.push(0u8),
{
    let p = padded(nibbles);
    assert(is_nibbles(p));
    lemma_nibbles_of_pack(p);
    assert(p.subrange(0, nibbles.len() as int) =~= nibbles);
}

/// A 4-bit value, kept in the low half of a byte.
#[derive(Clone, Copy, Debug)]
pub struct Nibble {
    value: u8,
}

impl View for Nibble {
    type V = u8;

    closed spec fn view(&self) -> u8 {
        self.value
    }
}

impl Nibble {
    #[verifier::type_invariant]
    closed spec fn fits(&self) -> bool {
        self.value < 16
    }

    /// Wraps `byte`, which must fit in four bits.
    pub fn new(byte: u8) -> (nib: Nibble)
        requires
            byte < 16,
        ensures
            nib@ == byte,
    {
        Nibble { value: byte }
    }

    /// The nibble as a byte whose high half is zero.
    pub fn inner(&self) -> (byte: u8)
        ensures
            byte == self@,
            byte < 16,
    {
        proof {
            use_type_invariant(self);
        }
        self.value
    }
}

/// Joins consecutive pairs of nibbles into bytes. Returns the bytes and, when
/// the number of nibbles is odd, the last nibble, which found no partner.
pub fn concat_nibbles(nibbles: &[Nibble]) -> (res: (Vec<u8>, Option<Nibble>))
    ensures
        res.0@ == pack(nibble_values(nibbles@)),
        nibbles@.len() % 2 == 0 ==> res.1 is None,
        nibbles@.len() % 2 == 1 ==> (res.1 matches Some(last) && last@ == nibbles@.last()@),
{
    let n = nibbles.len();
    let ghost values = nibble_values(nibbles@);
    let mut bytes: Vec<u8> = Vec::new();
    let mut i: usize = 0;
    while i + 1 < n
        invariant
            n == nibbles@.len(),
            values == nibble_values(nibbles@),
            i % 2 == 0,
            i <= n,
            bytes@.len() == i / 2,
            forall|k: int| 0 <= k < bytes@.len() ==> bytes@[k] == pack(values)[k],
        decreases n - i,
    {
        let high = nibbles[i].inner();
        let low = nibbles[i + 1].inner();
        assert(values[i as int] == high && values[i + 1] == low);
        assert((high << 4) | low == high * 16 + low) by (bit_vector)
            requires
                high < 16,
                low < 16,
        ;
        bytes.push((high << 4) | low);
        i += 2;
    }
    assert(bytes@ =~= pack(values));
    let rem = if i < n {
        assert(values[i as int] == nibbles@[i as int]@);
        Some(nibbles[i])
    } else {
        None
    };
    (bytes, rem)
}

/// A reader of nibbles over a byte buffer.
///
/// The sequence it yields is finite and is walked once: first the high half
/// of each byte, then the low half.
pub struct NibbleIter<'a> {
    data: &'a [u8],
    length: usize,
    cursor: usize,
    no_more_bytes: bool,
    last_byte: Option<u8>,
}

impl<'a> NibbleIter<'a> {
    #[verifier::type_invariant]
    closed spec fn consistent(&self) -> bool {
        &&& self.length == self.data@.len()
        &&& self.cursor <= self.length
        &&& self.last_byte matches Some(byte) ==> {
            &&& self.cursor >= 1
            &&& byte == self.data@[self.cursor - 1]
            &&& !self.no_more_bytes
        }
        &&& self.no_more_bytes ==> self.cursor == self.length
    }

    /// The bytes that the reader walks.
    pub closed spec fn data(&self) -> Seq<u8> {
        self.data@
    }

    /// The number of nibbles read so far.
    pub closed spec fn pos(&self) -> nat {
        if self.last_byte is Some {
            (2 * self.cursor - 1) as nat
        } else {
            (2 * self.cursor) as nat
        }
    }

    /// All the nibbles of the buffer, read or not.
    pub open spec fn nibbles(&self) -> Seq<u8> {
        nibbles_of(self.data())
    }

    /// The number of nibbles still to be read.
    pub open spec fn remaining(&self) -> int {
        self.nibbles().len() - self.pos()
    }

    /// Starts a reader at the first nibble of `data`.
    pub fn new(data: &'a [u8]) -> (iter: NibbleIter<'a>)
        ensures
            iter.data() == data@,
            iter.pos() == 0,
    {
        let length = data.len();

        NibbleIter { data, length, cursor: 0, last_byte: None, no_more_bytes: false }
    }

    /// The number of nibbles read so far; the largest `usize` where the
    /// number exceeds it.
    pub fn nibbles_read(&self) -> (n: usize)
        ensures
            n == vstd::math::min(self.pos() as int, usize::MAX as int),
            self.pos() <= self.nibbles().len(),
    {
        proof {
            use_type_invariant(self);
        }
        let half: usize = if self.last_byte.is_some() {
            1
        } else {
            0
        };
        if self.cursor > usize::MAX / 2 {
            usize::MAX
        } else {
            2 * self.cursor - half
        }
    }

    /// The number of whole bytes still to be read: half the number of
    /// nibbles, rounded down.
    pub fn remaining_bytes(&self) -> (n: usize)
        ensures
            n == self.remaining() / 2,
            self.pos() <= self.nibbles().len(),
    {
        proof {
            use_type_invariant(self);
        }
        self.length - self.cursor
    }

    /// Whether the number of nibbles read so far is even.
    pub fn is_byte_aligned(&self) -> (aligned: bool)
        ensures
            aligned == (self.pos() % 2 == 0),
    {
        proof {
            use_type_invariant(self);
        }
        self.last_byte.is_none()
    }

    /// Reads the next nibble, or returns `None` at the end of the buffer.
    pub fn next(&mut self) -> (nib: Option<Nibble>)
        ensures
            final(self).data() == old(self).data(),
            old(self).pos() <= old(self).nibbles().len(),
            match nib {
                Some(n) => {
                    &&& old(self).pos() < old(self).nibbles().len()
                    &&& n@ == old(self).nibbles()[old(self).pos() as int]
                    &&& final(self).pos() == old(self).pos() + 1
                },
                None => {
                    &&& old(self).pos() == old(self).nibbles().len()
                    &&& final(self).pos() == old(self).pos()
                },
            },
    {
        proof {
            use_type_invariant(&*self);
        }
        match self.last_byte {
            None => {
                if self.no_more_bytes {
                    return None;
                }
                if self.cursor >= self.length {
                    self.no_more_bytes = true;
                    return None;
                }
                let byte = self.data[self.cursor];

                // given `byte` is `L-nibble | R-nibble`
                // we return the left nibble encoded as a byte in the form:
                // `0b_0000_{lnibble}`
                assert((byte & 0xF0) >> 4 == byte / 16) by (bit_vector);
                let nibble = Nibble::new((byte & 0xF0) >> 4);
                *self = NibbleIter {
                    data: self.data,
                    length: self.length,
                    cursor: self.cursor + 1,
                    no_more_bytes: false,
                    last_byte: Some(byte),
                };
                Some(nibble)
            },
            Some(byte) => {
                assert(byte & 0x0F == byte % 16) by (bit_vector);
                let nibble = Nibble::new(byte & 0x0F);
                *self = NibbleIter {
                    data: self.data,
                    length: self.length,
                    cursor: self.cursor,
                    no_more_bytes: false,
                    last_byte: None,
                };
                Some(nibble)
            },
        }
    }

    /// Reads one byte, that is two nibbles, which must be there.
    pub fn read_byte(&mut self) -> (byte: u8)
        requires
            old(self).pos() + 2 <= old(self).nibbles().len(),
        ensures
            final(self).data() == old(self).data(),
            final(self).pos() == old(self).pos() + 2,
            byte == pack(
                old(self).nibbles().subrange(old(self).pos() as int, old(self).pos() + 2 as int),
            )[0],
    {
        let bytes = self.read_bytes(1);
        bytes[0]
    }

    /// Reads up to `count` bytes, that is up to `2 * count` nibbles, and
    /// stops early at the end of the buffer. A nibble read last without a
    /// partner is dropped.
    pub fn read_bytes(&mut self, count: usize) -> (bytes: Vec<u8>)
        ensures
            final(self).data() == old(self).data(),
            old(self).pos() <= old(self).nibbles().len(),
            final(self).pos() == old(self).pos() + vstd::math::min(
                2 * count,
                old(self).remaining(),
            ),
            bytes@ == pack(
                old(self).nibbles().subrange(old(self).pos() as int, final(self).pos() as int),
            ),
    {
        let mut nibbles: Vec<Nibble> = Vec::new();
        let ghost start = self.pos();
        let ghost all = self.nibbles();
        let mut pairs: usize = 0;
        let mut done = false;
        proof {
            use_type_invariant(&*self);
            self.lemma_pos_in_range();
        }
        while pairs < count && !done
            invariant
                self.data() == old(self).data(),
                all == nibbles_of(old(self).data()),
                start == old(self).pos(),
                start <= all.len(),
                self.pos() == start + nibbles@.len(),
                self.pos() <= all.len(),
                pairs <= count,
                !done ==> nibbles@.len() == 2 * pairs,
                nibbles@.len() <= 2 * count,
                done ==> self.pos() == all.len(),
                nibble_values(nibbles@) =~= all.subrange(start as int, self.pos() as int),
            decreases count - pairs + (if done { 0int } else { 1int }),
        {
            match self.next() {
                Some(high) => {
                    nibbles.push(high);
                    match self.next() {
                        Some(low) => {
                            nibbles.push(low);
                            pairs += 1;
                        },
                        None => {
                            done = true;
                        },
                    }
                },
                None => {
                    done = true;
                },
            }
        }
        let (bytes, _rem) = concat_nibbles(nibbles.as_slice());
        bytes
    }

    /// Checks that nothing is left to read but, after an odd number of
    /// nibbles, the one padding nibble that evens the count. Returns `err`
    /// when more is left.
    pub fn ensure_eof<E>(&mut self, err: E) -> (res: Result<(), E>)
        ensures
            final(self).data() == old(self).data(),
            res is Ok <==> old(self).remaining() <= 1,
            res matches Err(e) ==> e == err,
            res is Ok ==> final(self).pos() == final(self).nibbles().len(),
            res is Err ==> final(self).pos() == old(self).pos() + 1 + old(self).pos() % 2,
    {
        proof {
            use_type_invariant(&*self);
            self.lemma_pos_in_range();
        }
        if self.is_byte_aligned() == false {
            let nib = self.next();
            assert(nib is Some);
        }
        match self.next() {
            None => Ok(()),
            Some(..) => Err(err),
        }
    }

    proof fn lemma_pos_in_range(&self)
        requires
            self.consistent(),
        ensures
            self.pos() <= self.nibbles().len(),
            self.nibbles().len() == 2 * self.data().len(),
            self.nibbles().len() % 2 == 0,
    {
    }
}

/// A writer of nibbles, which packs them into bytes at the end.
pub struct NibbleWriter {
    nibbles: Vec<Nibble>,
}

impl View for NibbleWriter {
    type V = Seq<u8>;

    closed spec fn view(&self) -> Seq<u8> {
        nibble_values(self.nibbles@)
    }
}

impl NibbleWriter {
    /// A writer that holds no nibble.
    pub fn new() -> (w: NibbleWriter)
        ensures
            w@ == Seq::<u8>::empty(),
    {
        let w = NibbleWriter { nibbles: Vec::new() };
        assert(w@ =~= Seq::<u8>::empty());
        w
    }

    /// Appends one nibble.
    pub fn push(&mut self, nib: Nibble)
        ensures
            final(self)@ == old(self)@.push(nib@),
    {
        self.nibbles.push(nib);
        assert(self@ =~= old(self)@.push(nib@));
    }

    /// Appends `nibbles` in order.
    pub fn write(&mut self, nibbles: &[Nibble])
        ensures
            final(self)@ == old(self)@ + nibble_values(nibbles@),
    {
        let mut i: usize = 0;
        while i < nibbles.len()
            invariant
                i <= nibbles@.len(),
                self@ =~= old(self)@ + nibble_values(nibbles@).subrange(0, i as int),
            decreases nibbles@.len() - i,
        {
            let ghost before = self@;
            self.nibbles.push(nibbles[i]);
            assert(self@ =~= before.push(nibbles@[i as int]@));
            i += 1;
        }
        assert(nibble_values(nibbles@).subrange(0, i as int) =~= nibble_values(nibbles@));
    }

    /// Appends the two nibbles of `byte`, high half first.
    pub fn write_byte(&mut self, byte: u8)
        ensures
            final(self)@ == old(self)@ + nibbles_of(seq![byte]),
    {
        assert((byte & 0xF0) >> 4 == byte / 16) by (bit_vector);
        assert(byte & 0x0F == byte % 16) by (bit_vector);
        let ghost before = self@;
        self.nibbles.push(Nibble::new((byte & 0xF0) >> 4));
        self.nibbles.push(Nibble::new(byte & 0x0F));
        assert(self@ =~= before + nibbles_of(seq![byte]));
    }

    /// Appends the nibbles of `bytes`, two per byte.
    pub fn write_bytes(&mut self, bytes: &[u8])
        ensures
            final(self)@ == old(self)@ + nibbles_of(bytes@),
    {
        let mut i: usize = 0;
        assert(nibbles_of(bytes@.subrange(0, 0)) =~= Seq::<u8>::empty());
        while i < bytes.len()
            invariant
                i <= bytes@.len(),
                self@ =~= old(self)@ + nibbles_of(bytes@.subrange(0, i as int)),
            decreases bytes@.len() - i,
        {
            proof {
                lemma_nibbles_of_concat(bytes@.subrange(0, i as int), seq![bytes@[i as int]]);
                assert(bytes@.subrange(0, i + 1) =~= bytes@.subrange(0, i as int).push(
                    bytes@[i as int],
                ));
                assert(seq![bytes@[i as int]] =~= Seq::<u8>::empty().push(bytes@[i as int]));
            }
            self.write_byte(bytes[i]);
            i += 1;
        }
        assert(bytes@.subrange(0, i as int) =~= bytes@);
    }

    /// The number of nibbles written so far.
    pub fn len(&self) -> (n: usize)
        ensures
            n == self@.len(),
    {
        self.nibbles.len()
    }

    /// Whether the number of nibbles written so far is even.
    pub fn is_byte_aligned(&self) -> (aligned: bool)
        ensures
            aligned == (self@.len() % 2 == 0),
    {
        self.nibbles.len() % 2 == 0
    }

    /// Packs the nibbles into bytes. When their number is odd, the low half
    /// of the last byte is a zero padding nibble.
    pub fn into_bytes(self) -> (bytes: Vec<u8>)
        ensures
            bytes@ == pack(padded(self@)),
    {
        let mut nibbles = self.nibbles;
        let ghost written = nibble_values(nibbles@);
        if nibbles.len() % 2 == 1 {
            nibbles.push(Nibble::new(0));
        }
        assert(nibble_values(nibbles@) =~= padded(written));
        let (bytes, _rem) = concat_nibbles(nibbles.as_slice());
        bytes
    }
}

} // verus!
