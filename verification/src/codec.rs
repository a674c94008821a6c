//! The canonical byte format: little-endian words of eight bytes, byte
//! strings padded with zeros to the next word, and the reader through which
//! a byte image is decoded.

use vstd::prelude::*;

verus! {

/// Names the field at which a byte image was found to be invalid.
#[derive(Debug, Clone, Copy, PartialEq, Eq, Structural, Hash)]
pub enum Field {
    /// A maturity, which takes four bytes of its word.
    Maturity,
    /// The index of an output, which takes one byte of its word.
    OutputIndex,
    /// The height of a block, which takes four bytes of its word.
    BlockHeight,
    /// The index of a transaction, which takes two bytes of its word.
    TxIndex,
    /// The index of a witness, which takes one byte of its word.
    WitnessIndex,
    /// The index of the witness that holds a bytecode, one byte.
    BytecodeWitnessIndex,
    /// The index of an input, which takes one byte of its word.
    InputIndex,
    /// The padding of a script.
    Script,
    /// The padding of the data of a script.
    ScriptData,
    /// The padding of a predicate.
    Predicate,
    /// The padding of the data of a predicate.
    PredicateData,
    /// The padding of the data of a message.
    Data,
    /// The padding of a witness.
    Witness,
    /// The order of the storage slots.
    StorageSlots,
}

/// Why a byte image could not be decoded.
#[derive(Debug, Clone, Copy, PartialEq, Eq, Structural, Hash)]
pub enum DecodeError {
    /// The image ends before the value does.
    Truncated,
    /// The tag of a sum type names none of its variants.
    InvalidDiscriminant,
    /// A field holds a value outside its range, or padding that is not zero.
    InvalidField(Field),
}

/// The eight bytes of a word, lowest first.
#[verifier::opaque]
pub open spec fn spec_word(x: u64) -> Seq<u8> {
    seq![
        (x % 0x100) as u8,
        (x / 0x100 % 0x100) as u8,
        (x / 0x1_0000 % 0x100) as u8,
        (x / 0x100_0000 % 0x100) as u8,
        (x / 0x1_0000_0000 % 0x100) as u8,
        (x / 0x100_0000_0000 % 0x100) as u8,
        (x / 0x1_0000_0000_0000 % 0x100) as u8,
        (x / 0x100_0000_0000_0000 % 0x100) as u8,
    ]
}

/// The word that the first eight bytes of `s` stand for.
#[verifier::opaque]
pub open spec fn spec_word_value(s: Seq<u8>) -> u64 {
    (s[0] + s[1] * 0x100 + s[2] * 0x1_0000 + s[3] * 0x100_0000 + s[4] * 0x1_0000_0000 + s[5]
        * 0x100_0000_0000 + s[6] * 0x1_0000_0000_0000 + s[7] * 0x100_0000_0000_0000) as u64
}

/// Number of zero bytes that follow a byte string of `len` bytes.
pub open spec fn spec_padding(len: nat) -> nat {
    ((8 - len % 8) % 8) as nat
}

/// Number of bytes that a byte string of `len` bytes takes with its padding.
pub open spec fn spec_aligned(len: nat) -> nat {
    len + spec_padding(len)
}

/// `len` zero bytes.
pub open spec fn spec_zeros(len: nat) -> Seq<u8> {
    Seq::new(len, |i: int| 0u8)
}

/// A byte string followed by its padding.
#[verifier::opaque]
pub open spec fn spec_padded(bytes: Seq<u8>) -> Seq<u8> {
    bytes + spec_zeros(spec_padding(bytes.len()))
}

/// The value `n`, or the largest `usize` where `n` exceeds it.
pub open spec fn spec_saturate(n: int) -> usize {
    if n <= usize::MAX {
        n as usize
    } else {
        usize::MAX
    }
}

/// Reads a word from the front of `s`.
#[verifier::opaque]
pub open spec fn spec_read_word(s: Seq<u8>) -> Result<(u64, Seq<u8>), DecodeError> {
    if s.len() < 8 {
        Err(DecodeError::Truncated)
    } else {
        Ok((spec_word_value(s), s.skip(8)))
    }
}

/// Reads a word that must not exceed `max`, the largest value of `field`.
#[verifier::opaque]
pub open spec fn spec_read_bounded(s: Seq<u8>, max: u64, field: Field) -> Result<
    (u64, Seq<u8>),
    DecodeError,
> {
    match spec_read_word(s) {
        Err(e) => Err(e),
        Ok((x, rest)) => if x > max {
            Err(DecodeError::InvalidField(field))
        } else {
            Ok((x, rest))
        },
    }
}

/// The array whose bytes are those of `s`.
#[verifier::opaque]
pub open spec fn spec_array32(s: Seq<u8>) -> [u8; 32] {
    choose|a: [u8; 32]| a@ == s
}

/// Reads thirty-two raw bytes from the front of `s`.
#[verifier::opaque]
pub open spec fn spec_read_array32(s: Seq<u8>) -> Result<([u8; 32], Seq<u8>), DecodeError> {
    if s.len() < 32 {
        Err(DecodeError::Truncated)
    } else {
        Ok((spec_array32(s.take(32)), s.skip(32)))
    }
}

/// Reads a byte string of `len` bytes and its padding from the front of `s`.
/// Padding that is not zero makes `field` invalid.
#[verifier::opaque]
pub open spec fn spec_read_bytes(s: Seq<u8>, len: u64, field: Field) -> Result<
    (Seq<u8>, Seq<u8>),
    DecodeError,
> {
    let aligned = spec_aligned(len as nat) as int;
    if s.len() < aligned {
        Err(DecodeError::Truncated)
    } else if s.subrange(len as int, aligned) != spec_zeros(spec_padding(len as nat)) {
        Err(DecodeError::InvalidField(field))
    } else {
        Ok((s.take(len as int), s.skip(aligned)))
    }
}

proof fn lemma_word_parts(x: u64)
    by (bit_vector)
    ensures
        (x % 0x100) + (x / 0x100 % 0x100) * 0x100 + (x / 0x1_0000 % 0x100) * 0x1_0000 + (x
            / 0x100_0000 % 0x100) * 0x100_0000 + (x / 0x1_0000_0000 % 0x100) * 0x1_0000_0000 + (x
            / 0x100_0000_0000 % 0x100) * 0x100_0000_0000 + (x / 0x1_0000_0000_0000 % 0x100)
            * 0x1_0000_0000_0000 + (x / 0x100_0000_0000_0000 % 0x100) * 0x100_0000_0000_0000 == x,
{
}

proof fn lemma_parts_word(b0: u8, b1: u8, b2: u8, b3: u8, b4: u8, b5: u8, b6: u8, b7: u8)
    by (bit_vector)
    ensures
        ({
            let x = (b0 as u64) + (b1 as u64) * 0x100 + (b2 as u64) * 0x1_0000 + (b3 as u64)
                * 0x100_0000 + (b4 as u64) * 0x1_0000_0000 + (b5 as u64) * 0x100_0000_0000 + (
            b6 as u64) * 0x1_0000_0000_0000 + (b7 as u64) * 0x100_0000_0000_0000;
            &&& x <= 0xffff_ffff_ffff_ffff
            &&& x % 0x100 == b0
            &&& x / 0x100 % 0x100 == b1
            &&& x / 0x1_0000 % 0x100 == b2
            &&& x / 0x100_0000 % 0x100 == b3
            &&& x / 0x1_0000_0000 % 0x100 == b4
            &&& x / 0x100_0000_0000 % 0x100 == b5
            &&& x / 0x1_0000_0000_0000 % 0x100 == b6
            &&& x / 0x100_0000_0000_0000 % 0x100 == b7
        }),
{
}

/// Joining byte strings does not depend on how the joins are grouped.
pub proof fn lemma_add_assoc(a: Seq<u8>, b: Seq<u8>, c: Seq<u8>)
    ensures
        (a + b) + c == a + (b + c),
{
    assert((a + b) + c =~= a + (b + c));
}

/// Three pieces joined from the left, and a rest, joined from the right.
pub proof fn lemma_regroup3(a: Seq<u8>, b: Seq<u8>, c: Seq<u8>, rest: Seq<u8>)
    ensures
        a + b + c + rest == a + (b + (c + rest)),
{
    assert(a + b + c + rest =~= a + (b + (c + rest)));
}

/// Four pieces joined from the left, and a rest, joined from the right.
pub proof fn lemma_regroup4(a: Seq<u8>, b: Seq<u8>, c: Seq<u8>, d: Seq<u8>, rest: Seq<u8>)
    ensures
        a + b + c + d + rest == a + (b + (c + (d + rest))),
{
    assert(a + b + c + d + rest =~= a + (b + (c + (d + rest))));
}

/// Five pieces joined from the left, and a rest, joined from the right.
pub proof fn lemma_regroup5(
    a: Seq<u8>,
    b: Seq<u8>,
    c: Seq<u8>,
    d: Seq<u8>,
    e: Seq<u8>,
    rest: Seq<u8>,
)
    ensures
        a + b + c + d + e + rest == a + (b + (c + (d + (e + rest)))),
{
    assert(a + b + c + d + e + rest =~= a + (b + (c + (d + (e + rest)))));
}

/// Six pieces joined from the left, and a rest, joined from the right.
pub proof fn lemma_regroup6(
    a: Seq<u8>,
    b: Seq<u8>,
    c: Seq<u8>,
    d: Seq<u8>,
    e: Seq<u8>,
    f: Seq<u8>,
    rest: Seq<u8>,
)
    ensures
        a + b + c + d + e + f + rest == a + (b + (c + (d + (e + (f + rest))))),
{
    assert(a + b + c + d + e + f + rest =~= a + (b + (c + (d + (e + (f + rest))))));
}

/// A word is read back from its bytes.
pub proof fn lemma_word_value(x: u64)
    ensures
        spec_word(x).len() == 8,
        spec_word_value(spec_word(x)) == x,
{
    reveal(spec_word);
    reveal(spec_word_value);
    lemma_word_parts(x);
}

/// Every word takes eight bytes.
pub proof fn lemma_word_len()
    ensures
        forall|x: u64| #[trigger] spec_word(x).len() == 8,
{
    reveal(spec_word);
}

/// A padded byte string takes its length and its padding.
pub proof fn lemma_padded_len()
    ensures
        forall|bytes: Seq<u8>| #[trigger] spec_padded(bytes).len() == spec_aligned(bytes.len()),
{
    reveal(spec_padded);
}

/// The bytes of a word are those of the word they stand for.
pub proof fn lemma_word_of_value(s: Seq<u8>)
    requires
        s.len() == 8,
    ensures
        spec_word(spec_word_value(s)) == s,
{
    reveal(spec_word);
    reveal(spec_word_value);
    lemma_parts_word(s[0], s[1], s[2], s[3], s[4], s[5], s[6], s[7]);
    assert(spec_word(spec_word_value(s)) =~= s);
}

/// Reading takes from the front of a byte string the word written there.
pub proof fn lemma_read_word(x: u64, rest: Seq<u8>)
    ensures
        spec_read_word(spec_word(x) + rest) == Ok::<(u64, Seq<u8>), DecodeError>((x, rest)),
{
    reveal(spec_read_word);
    reveal(spec_word);
    reveal(spec_word_value);
    let s = spec_word(x) + rest;
    lemma_word_parts(x);
    assert(s.skip(8) =~= rest);
    assert(forall|i: int| 0 <= i < 8 ==> s[i] == spec_word(x)[i]);
}

/// A value within its bound is read back as a bounded word.
pub proof fn lemma_read_bounded(x: u64, max: u64, field: Field, rest: Seq<u8>)
    requires
        x <= max,
    ensures
        spec_read_bounded(spec_word(x) + rest, max, field) == Ok::<(u64, Seq<u8>), DecodeError>(
            (x, rest),
        ),
{
    reveal(spec_read_bounded);
    lemma_read_word(x, rest);
}

/// An array is the one that its bytes stand for.
pub proof fn lemma_array32(a: [u8; 32])
    ensures
        spec_array32(a@) == a,
{
    reveal(spec_array32);
    let b = spec_array32(a@);
    assert(b@ == a@);
    assert(b =~= a);
}

/// Reading takes from the front of a byte string the array written there.
pub proof fn lemma_read_array32(a: [u8; 32], rest: Seq<u8>)
    ensures
        spec_read_array32(a@ + rest) == Ok::<([u8; 32], Seq<u8>), DecodeError>((a, rest)),
{
    reveal(spec_read_array32);
    let s = a@ + rest;
    assert(s.take(32) =~= a@);
    assert(s.skip(32) =~= rest);
    lemma_array32(a);
}

/// Reading takes from the front of a byte string the padded bytes written
/// there.
pub proof fn lemma_read_bytes(bytes: Seq<u8>, field: Field, rest: Seq<u8>)
    requires
        bytes.len() <= u64::MAX,
    ensures
        spec_read_bytes(spec_padded(bytes) + rest, bytes.len() as u64, field) == Ok::<
            (Seq<u8>, Seq<u8>),
            DecodeError,
        >((bytes, rest)),
{
    reveal(spec_read_bytes);
    reveal(spec_padded);
    let s = spec_padded(bytes) + rest;
    let len = bytes.len() as int;
    let aligned = spec_aligned(bytes.len()) as int;
    assert(s.subrange(len, aligned) =~= spec_zeros(spec_padding(bytes.len())));
    assert(s.take(len) =~= bytes);
    assert(s.skip(aligned) =~= rest);
}

/// Appends the eight bytes of `x` to `buffer`.
pub fn write_word(buffer: &mut Vec<u8>, x: u64)
    ensures
        final(buffer)@ == old(buffer)@ + spec_word(x),
{
    buffer.push((x % 0x100) as u8);
    buffer.push((x / 0x100 % 0x100) as u8);
    buffer.push((x / 0x1_0000 % 0x100) as u8);
    buffer.push((x / 0x100_0000 % 0x100) as u8);
    buffer.push((x / 0x1_0000_0000 % 0x100) as u8);
    buffer.push((x / 0x100_0000_0000 % 0x100) as u8);
    buffer.push((x / 0x1_0000_0000_0000 % 0x100) as u8);
    buffer.push((x / 0x100_0000_0000_0000 % 0x100) as u8);
    proof {
        reveal(spec_word);
    }
    assert(buffer@ =~= old(buffer)@ + spec_word(x));
}

/// Appends the bytes of `bytes` to `buffer` as they are.
pub fn write_raw(buffer: &mut Vec<u8>, bytes: &[u8])
    ensures
        final(buffer)@ == old(buffer)@ + bytes@,
{
    let len = bytes.len();
    let mut i: usize = 0;
    while i < len
        invariant
            i <= len,
            len == bytes@.len(),
            buffer@ == old(buffer)@ + bytes@.take(i as int),
        decreases len - i,
    {
        buffer.push(bytes[i]);
        i = i + 1;
        assert(buffer@ =~= old(buffer)@ + bytes@.take(i as int));
    }
    assert(bytes@.take(len as int) =~= bytes@);
}

/// Appends `bytes` and its padding to `buffer`.
pub fn write_padded(buffer: &mut Vec<u8>, bytes: &[u8])
    ensures
        final(buffer)@ == old(buffer)@ + spec_padded(bytes@),
{
    write_raw(buffer, bytes);
    let padding = (8 - bytes.len() % 8) % 8;
    let mut i: usize = 0;
    while i < padding
        invariant
            i <= padding,
            padding == spec_padding(bytes@.len()),
            buffer@ == old(buffer)@ + bytes@ + spec_zeros(i as nat),
        decreases padding - i,
    {
        buffer.push(0);
        i = i + 1;
        assert(buffer@ =~= old(buffer)@ + bytes@ + spec_zeros(i as nat));
    }
    proof {
        reveal(spec_padded);
    }
    assert(buffer@ =~= old(buffer)@ + spec_padded(bytes@));
}

/// Number of bytes that `len` bytes take with their padding, or the largest
/// `usize` where that exceeds it.
pub fn aligned_size(len: usize) -> (r: usize)
    ensures
        r == spec_saturate(spec_aligned(len as nat) as int),
{
    let padding = (8 - len % 8) % 8;
    len.saturating_add(padding)
}

/// A cursor over a byte image, from which values are read front to back.
pub struct Reader<'a> {
    buffer: &'a [u8],
    position: usize,
}

impl<'a> Reader<'a> {
    #[verifier::type_invariant]
    spec fn inside(self) -> bool {
        self.position <= self.buffer@.len()
    }

    /// The bytes that have not been read yet.
    pub closed spec fn remaining(&self) -> Seq<u8> {
        self.buffer@.skip(self.position as int)
    }

    /// A reader at the front of `buffer`.
    pub fn new(buffer: &'a [u8]) -> (r: Reader<'a>)
        ensures
            r.remaining() == buffer@,
    {
        assert(buffer@.skip(0) =~= buffer@);
        Reader { buffer, position: 0 }
    }

    /// Number of bytes that have not been read yet.
    pub fn remaining_len(&self) -> (r: usize)
        ensures
            r == self.remaining().len(),
    {
        proof {
            use_type_invariant(self);
        }
        self.buffer.len() - self.position
    }

    /// The word at the front, which stays unread.
    pub fn peek_word(&self) -> (r: Result<u64, DecodeError>)
        ensures
            match spec_read_word(self.remaining()) {
                Ok((x, _)) => r == Ok::<u64, DecodeError>(x),
                Err(e) => r == Err::<u64, DecodeError>(e),
            },
    {
        proof {
            use_type_invariant(self);
            reveal(spec_read_word);
            reveal(spec_word_value);
        }
        if self.buffer.len() - self.position < 8 {
            return Err(DecodeError::Truncated);
        }
        let p = self.position;
        let b = self.buffer;
        let x = (b[p] as u64) + (b[p + 1] as u64) * 0x100 + (b[p + 2] as u64) * 0x1_0000 + (b[p
            + 3] as u64) * 0x100_0000 + (b[p + 4] as u64) * 0x1_0000_0000 + (b[p + 5] as u64)
            * 0x100_0000_0000 + (b[p + 6] as u64) * 0x1_0000_0000_0000 + (b[p + 7] as u64)
            * 0x100_0000_0000_0000;
        Ok(x)
    }

    /// Reads a word.
    pub fn read_word(&mut self) -> (r: Result<u64, DecodeError>)
        ensures
            match spec_read_word(old(self).remaining()) {
                Ok((x, rest)) => r == Ok::<u64, DecodeError>(x) && final(self).remaining() == rest,
                Err(e) => r == Err::<u64, DecodeError>(e),
            },
    {
        proof {
            use_type_invariant(&*self);
            reveal(spec_read_word);
        }
        match self.peek_word() {
            Ok(x) => {
                assert(self.buffer@.skip(self.position as int).skip(8) =~= self.buffer@.skip(
                    self.position + 8,
                ));
                assert(self.position + 8 <= self.buffer.len());
                self.position = self.position + 8;
                Ok(x)
            },
            Err(e) => Err(e),
        }
    }

    /// Reads a word that must not exceed `max`, the largest value of `field`.
    pub fn read_bounded(&mut self, max: u64, field: Field) -> (r: Result<u64, DecodeError>)
        ensures
            match spec_read_bounded(old(self).remaining(), max, field) {
                Ok((x, rest)) => r == Ok::<u64, DecodeError>(x) && final(self).remaining() == rest,
                Err(e) => r == Err::<u64, DecodeError>(e),
            },
    {
        proof {
            reveal(spec_read_bounded);
        }
        match self.read_word() {
            Ok(x) => if x > max {
                Err(DecodeError::InvalidField(field))
            } else {
                Ok(x)
            },
            Err(e) => Err(e),
        }
    }

    /// Reads a word that holds a `u8`.
    pub fn read_u8(&mut self, field: Field) -> (r: Result<u8, DecodeError>)
        ensures
            match spec_read_bounded(old(self).remaining(), 0xff, field) {
                Ok((x, rest)) => r == Ok::<u8, DecodeError>(x as u8) && final(self).remaining()
                    == rest,
                Err(e) => r == Err::<u8, DecodeError>(e),
            },
    {
        match self.read_bounded(0xff, field) {
            Ok(x) => Ok(x as u8),
            Err(e) => Err(e),
        }
    }

    /// Reads a word that holds a `u16`.
    pub fn read_u16(&mut self, field: Field) -> (r: Result<u16, DecodeError>)
        ensures
            match spec_read_bounded(old(self).remaining(), 0xffff, field) {
                Ok((x, rest)) => r == Ok::<u16, DecodeError>(x as u16) && final(self).remaining()
                    == rest,
                Err(e) => r == Err::<u16, DecodeError>(e),
            },
    {
        match self.read_bounded(0xffff, field) {
            Ok(x) => Ok(x as u16),
            Err(e) => Err(e),
        }
    }

    /// Reads a word that holds a `u32`.
    pub fn read_u32(&mut self, field: Field) -> (r: Result<u32, DecodeError>)
        ensures
            match spec_read_bounded(old(self).remaining(), 0xffff_ffff, field) {
                Ok((x, rest)) => r == Ok::<u32, DecodeError>(x as u32) && final(self).remaining()
                    == rest,
                Err(e) => r == Err::<u32, DecodeError>(e),
            },
    {
        match self.read_bounded(0xffff_ffff, field) {
            Ok(x) => Ok(x as u32),
            Err(e) => Err(e),
        }
    }

    /// Reads thirty-two raw bytes.
    pub fn read_array32(&mut self) -> (r: Result<[u8; 32], DecodeError>)
        ensures
            match spec_read_array32(old(self).remaining()) {
                Ok((a, rest)) => r == Ok::<[u8; 32], DecodeError>(a) && final(self).remaining()
                    == rest,
                Err(e) => r == Err::<[u8; 32], DecodeError>(e),
            },
    {
        proof {
            use_type_invariant(&*self);
            reveal(spec_read_array32);
        }
        if self.buffer.len() - self.position < 32 {
            return Err(DecodeError::Truncated);
        }
        let mut out = [0u8; 32];
        let p = self.position;
        let buffer = self.buffer;
        let mut i: usize = 0;
        while i < 32
            invariant
                i <= 32,
                p + 32 <= buffer.len(),
                forall|j: int| 0 <= j < i ==> out@[j] == buffer@[p + j],
            decreases 32 - i,
        {
            out[i] = buffer[p + i];
            i = i + 1;
        }
        proof {
            let s = self.remaining();
            assert(out@ =~= s.take(32));
            lemma_array32(out);
            assert(s.skip(32) =~= buffer@.skip(p + 32));
        }
        self.position = p + 32;
        Ok(out)
    }

    /// Reads a byte string of `len` bytes and its padding.
    pub fn read_bytes(&mut self, len: u64, field: Field) -> (r: Result<Vec<u8>, DecodeError>)
        ensures
            match spec_read_bytes(old(self).remaining(), len, field) {
                Ok((bytes, rest)) => r matches Ok(v) && v@ == bytes && final(self).remaining()
                    == rest,
                Err(e) => r == Err::<Vec<u8>, DecodeError>(e),
            },
    {
        proof {
            use_type_invariant(&*self);
            reveal(spec_read_bytes);
        }
        let available = self.buffer.len() - self.position;
        if len > available as u64 {
            return Err(DecodeError::Truncated);
        }
        let n = len as usize;
        let padding = (8 - n % 8) % 8;
        if padding > available - n {
            return Err(DecodeError::Truncated);
        }
        let p = self.position;
        let buffer = self.buffer;
        let ghost s = self.remaining();
        let mut k: usize = 0;
        while k < padding
            invariant
                k <= padding,
                p + n + padding <= buffer.len(),
                s == buffer@.skip(p as int),
                s == old(self).remaining(),
                n == len,
                padding == spec_padding(n as nat),
                forall|j: int| p + n <= j < p + n + k ==> buffer@[j] == 0,
            decreases padding - k,
        {
            if buffer[p + n + k] != 0 {
                proof {
                    reveal(spec_read_bytes);
                    let pad = s.subrange(n as int, n + padding);
                    assert(pad[k as int] == buffer@[p + n + k]);
                    assert(spec_zeros(padding as nat)[k as int] == 0);
                }
                return Err(DecodeError::InvalidField(field));
            }
            k = k + 1;
        }
        let mut out: Vec<u8> = Vec::new();
        let mut i: usize = 0;
        while i < n
            invariant
                i <= n,
                p + n <= buffer.len(),
                out@.len() == i,
                forall|j: int| 0 <= j < i ==> out@[j] == buffer@[p + j],
            decreases n - i,
        {
            out.push(buffer[p + i]);
            i = i + 1;
        }
        proof {
            assert(s.subrange(n as int, n + padding) =~= spec_zeros(padding as nat));
            assert(out@ =~= s.take(n as int));
            assert(s.skip(n + padding) =~= buffer@.skip(p + n + padding));
        }
        self.position = p + n + padding;
        Ok(out)
    }
}

/// A type with a canonical byte format. The format is stated over the
/// type's model: `spec_encode` gives the bytes of a value, `spec_decode`
/// reads a value from the front of a byte string.
pub trait Canonical: View + Sized {
    /// The bytes that stand for `v`.
    spec fn spec_encode(v: Self::V) -> Seq<u8>;

    /// Reads a value from the front of `s` and gives the bytes after it.
    spec fn spec_decode(s: Seq<u8>) -> Result<(Self::V, Seq<u8>), DecodeError>;

    /// A model is valid when every length in it fits in a word.
    spec fn spec_valid(v: Self::V) -> bool;

    /// The model of a value is valid.
    proof fn lemma_valid(&self)
        ensures
            Self::spec_valid(self@),
    ;

    /// Decoding reads back what encoding wrote, and stops right after it.
    proof fn lemma_decode_encode(v: Self::V, rest: Seq<u8>)
        requires
            Self::spec_valid(v),
        ensures
            Self::spec_decode(Self::spec_encode(v) + rest) == Ok::<
                (Self::V, Seq<u8>),
                DecodeError,
            >((v, rest)),
    ;

    /// Number of bytes of the value's encoding, saturating.
    fn size(&self) -> (r: usize)
        ensures
            r == spec_saturate(Self::spec_encode(self@).len() as int),
    ;

    /// Appends the value's encoding to `buffer`.
    fn encode(&self, buffer: &mut Vec<u8>)
        ensures
            final(buffer)@ == old(buffer)@ + Self::spec_encode(self@),
    ;

    /// Reads a value from `reader`.
    fn decode(reader: &mut Reader) -> (r: Result<Self, DecodeError>)
        ensures
            match Self::spec_decode(old(reader).remaining()) {
                Ok((v, rest)) => r matches Ok(x) && x@ == v && final(reader).remaining() == rest,
                Err(e) => r matches Err(f) && f == e,
            },
    ;
}

/// The models of the values of `s`.
pub open spec fn spec_views<T: View>(s: Seq<T>) -> Seq<T::V> {
    s.map_values(|x: T| x@)
}

/// The encodings of the values of `vs`, one after the other.
pub open spec fn spec_encode_all<T: Canonical>(vs: Seq<T::V>) -> Seq<u8>
    decreases vs.len(),
{
    if vs.len() == 0 {
        Seq::empty()
    } else {
        T::spec_encode(vs[0]) + spec_encode_all::<T>(vs.skip(1))
    }
}

/// Reads `count` values from the front of `s`.
pub open spec fn spec_decode_all<T: Canonical>(s: Seq<u8>, count: nat) -> Result<
    (Seq<T::V>, Seq<u8>),
    DecodeError,
>
    decreases count,
{
    if count == 0 {
        Ok((Seq::empty(), s))
    } else {
        match T::spec_decode(s) {
            Err(e) => Err(e),
            Ok((v, rest)) => match spec_decode_all::<T>(rest, (count - 1) as nat) {
                Err(e) => Err(e),
                Ok((vs, rest)) => Ok((seq![v] + vs, rest)),
            },
        }
    }
}

/// Every model of `vs` is valid.
pub open spec fn spec_all_valid<T: Canonical>(vs: Seq<T::V>) -> bool {
    forall|i: int| 0 <= i < vs.len() ==> T::spec_valid(#[trigger] vs[i])
}

/// Where the encoding of the value at `index` starts within the encodings
/// of `vs`.
pub open spec fn spec_offset_at<T: Canonical>(vs: Seq<T::V>, index: int) -> nat {
    spec_encode_all::<T>(vs.take(index)).len()
}

/// The encodings of two sequences, one after the other, are the encodings
/// of the joined sequence.
pub proof fn lemma_encode_all_add<T: Canonical>(a: Seq<T::V>, b: Seq<T::V>)
    ensures
        spec_encode_all::<T>(a + b) == spec_encode_all::<T>(a) + spec_encode_all::<T>(b),
    decreases a.len(),
{
    if a.len() == 0 {
        assert(a + b =~= b);
        assert(spec_encode_all::<T>(a) + spec_encode_all::<T>(b) =~= spec_encode_all::<T>(b));
    } else {
        lemma_encode_all_add::<T>(a.skip(1), b);
        assert((a + b).skip(1) =~= a.skip(1) + b);
        assert((a + b)[0] == a[0]);
        assert(spec_encode_all::<T>(a + b) =~= spec_encode_all::<T>(a) + spec_encode_all::<T>(b));
    }
}

/// One more value adds its encoding at the end.
pub proof fn lemma_encode_all_push<T: Canonical>(a: Seq<T::V>, v: T::V)
    ensures
        spec_encode_all::<T>(a.push(v)) == spec_encode_all::<T>(a) + T::spec_encode(v),
{
    lemma_encode_all_add::<T>(a, seq![v]);
    assert(a.push(v) =~= a + seq![v]);
    assert(seq![v].skip(1) =~= Seq::<T::V>::empty());
    assert(spec_encode_all::<T>(Seq::<T::V>::empty()) =~= Seq::<u8>::empty());
    assert(spec_encode_all::<T>(seq![v]) =~= T::spec_encode(v));
}

/// The encoding of the value at `index` lies at its offset within the
/// encodings of the whole sequence.
pub proof fn lemma_encoding_at_offset<T: Canonical>(vs: Seq<T::V>, index: int)
    requires
        0 <= index < vs.len(),
    ensures
        spec_offset_at::<T>(vs, index) + T::spec_encode(vs[index]).len() <= spec_encode_all::<T>(
            vs,
        ).len(),
        spec_encode_all::<T>(vs).subrange(
            spec_offset_at::<T>(vs, index) as int,
            (spec_offset_at::<T>(vs, index) + T::spec_encode(vs[index]).len()) as int,
        ) == T::spec_encode(vs[index]),
        spec_offset_at::<T>(vs, index + 1) == spec_offset_at::<T>(vs, index) + T::spec_encode(
            vs[index],
        ).len(),
{
    let head = vs.take(index);
    let tail = vs.skip(index + 1);
    assert(vs =~= head.push(vs[index]) + tail);
    assert(vs.take(index + 1) =~= head.push(vs[index]));
    lemma_encode_all_add::<T>(head.push(vs[index]), tail);
    lemma_encode_all_push::<T>(head, vs[index]);
    let all = spec_encode_all::<T>(head) + T::spec_encode(vs[index]) + spec_encode_all::<T>(tail);
    assert(all.subrange(
        spec_encode_all::<T>(head).len() as int,
        (spec_encode_all::<T>(head).len() + T::spec_encode(vs[index]).len()) as int,
    ) =~= T::spec_encode(vs[index]));
}

/// Decoding reads back a whole sequence of values.
pub proof fn lemma_decode_encode_all<T: Canonical>(vs: Seq<T::V>, rest: Seq<u8>)
    requires
        spec_all_valid::<T>(vs),
    ensures
        spec_decode_all::<T>(spec_encode_all::<T>(vs) + rest, vs.len()) == Ok::<
            (Seq<T::V>, Seq<u8>),
            DecodeError,
        >((vs, rest)),
    decreases vs.len(),
{
    if vs.len() == 0 {
        assert(spec_encode_all::<T>(vs) + rest =~= rest);
        assert(vs =~= Seq::empty());
    } else {
        let tail = spec_encode_all::<T>(vs.skip(1)) + rest;
        assert(spec_encode_all::<T>(vs) + rest =~= T::spec_encode(vs[0]) + tail);
        T::lemma_decode_encode(vs[0], tail);
        assert(spec_all_valid::<T>(vs.skip(1))) by {
            assert forall|i: int| 0 <= i < vs.skip(1).len() implies T::spec_valid(
                #[trigger] vs.skip(1)[i],
            ) by {
                assert(vs.skip(1)[i] == vs[i + 1]);
            }
        }
        lemma_decode_encode_all::<T>(vs.skip(1), rest);
        assert(seq![vs[0]] + vs.skip(1) =~= vs);
    }
}

/// The models of a vector's values are valid.
pub proof fn lemma_all_valid<T: Canonical>(items: &Vec<T>)
    ensures
        spec_all_valid::<T>(spec_views(items@)),
{
    assert forall|i: int| 0 <= i < spec_views(items@).len() implies T::spec_valid(
        #[trigger] spec_views(items@)[i],
    ) by {
        items@[i].lemma_valid();
    }
}

/// Appends the encodings of `items` to `buffer`, in order.
pub fn encode_all<T: Canonical>(items: &Vec<T>, buffer: &mut Vec<u8>)
    ensures
        final(buffer)@ == old(buffer)@ + spec_encode_all::<T>(spec_views(items@)),
{
    let ghost vs = spec_views(items@);
    let len = items.len();
    let mut i: usize = 0;
    assert(vs.take(0) =~= Seq::empty());
    while i < len
        invariant
            i <= len,
            len == items@.len(),
            vs == spec_views(items@),
            buffer@ == old(buffer)@ + spec_encode_all::<T>(vs.take(i as int)),
        decreases len - i,
    {
        items[i].encode(buffer);
        proof {
            assert(vs.take(i + 1) =~= vs.take(i as int).push(vs[i as int]));
            lemma_encode_all_push::<T>(vs.take(i as int), vs[i as int]);
            assert(buffer@ =~= old(buffer)@ + spec_encode_all::<T>(vs.take(i + 1)));
        }
        i = i + 1;
    }
    assert(vs.take(len as int) =~= vs);
}

/// Number of bytes that the encodings of the first `count` values of
/// `items` take, saturating.
pub fn offset_at<T: Canonical>(items: &Vec<T>, count: usize) -> (r: usize)
    requires
        count <= items@.len(),
    ensures
        r == spec_saturate(spec_offset_at::<T>(spec_views(items@), count as int) as int),
{
    let ghost vs = spec_views(items@);
    let mut total: usize = 0;
    let mut i: usize = 0;
    assert(vs.take(0) =~= Seq::empty());
    while i < count
        invariant
            i <= count <= items@.len(),
            vs == spec_views(items@),
            total == spec_saturate(spec_encode_all::<T>(vs.take(i as int)).len() as int),
        decreases count - i,
    {
        let size = items[i].size();
        proof {
            assert(vs.take(i + 1) =~= vs.take(i as int).push(vs[i as int]));
            lemma_encode_all_push::<T>(vs.take(i as int), vs[i as int]);
        }
        total = total.saturating_add(size);
        i = i + 1;
    }
    total
}

/// Where the encoding of the value at `index` starts, saturating, when the
/// encodings of `items` start at `base`; nowhere if there is no such value.
pub fn offset_in<T: Canonical>(base: usize, items: &Vec<T>, index: usize) -> (r: Option<usize>)
    ensures
        r == if index < items@.len() {
            Some(spec_saturate(base + spec_offset_at::<T>(spec_views(items@), index as int)))
        } else {
            None
        },
{
    if index < items.len() {
        Some(base.saturating_add(offset_at(items, index)))
    } else {
        None
    }
}

/// Number of bytes that the encodings of `items` take, saturating.
pub fn size_all<T: Canonical>(items: &Vec<T>) -> (r: usize)
    ensures
        r == spec_saturate(spec_encode_all::<T>(spec_views(items@)).len() as int),
{
    assert(spec_views(items@).take(items@.len() as int) =~= spec_views(items@));
    offset_at(items, items.len())
}

/// Reads `count` values from `reader`.
pub fn decode_all<T: Canonical>(reader: &mut Reader, count: u64) -> (r: Result<
    Vec<T>,
    DecodeError,
>)
    ensures
        match spec_decode_all::<T>(old(reader).remaining(), count as nat) {
            Ok((vs, rest)) => r matches Ok(items) && spec_views(items@) == vs
                && final(reader).remaining() == rest,
            Err(e) => r matches Err(f) && f == e,
        },
{
    let mut items: Vec<T> = Vec::new();
    let mut i: u64 = 0;
    assert(spec_views(items@) =~= Seq::empty());
    while i < count
        invariant
            i <= count,
            spec_views(items@).len() == i,
            spec_decode_all::<T>(old(reader).remaining(), count as nat) == match spec_decode_all::<
                T,
            >(reader.remaining(), (count - i) as nat) {
                Ok((vs, rest)) => Ok::<(Seq<T::V>, Seq<u8>), DecodeError>(
                    (spec_views(items@) + vs, rest),
                ),
                Err(e) => Err(e),
            },
        decreases count - i,
    {
        let ghost before = spec_views(items@);
        let ghost s = reader.remaining();
        match T::decode(reader) {
            Ok(item) => {
                items.push(item);
                proof {
                    assert(spec_views(items@) =~= before.push(item@));
                    match spec_decode_all::<T>(reader.remaining(), (count - i - 1) as nat) {
                        Ok((vs, rest)) => {
                            assert(before + (seq![item@] + vs) =~= spec_views(items@) + vs);
                        },
                        Err(e) => {},
                    }
                }
            },
            Err(e) => {
                return Err(e);
            },
        }
        i = i + 1;
    }
    proof {
        assert(spec_views(items@) + Seq::<T::V>::empty() =~= spec_views(items@));
    }
    Ok(items)
}

} // verus!
