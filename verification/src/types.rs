//! The plain values that transactions are made of: 32-byte identifiers,
//! references to earlier outputs and transactions, storage slots and
//! witnesses, each with its canonical byte format.

use vstd::prelude::*;

use crate::codec::{
    aligned_size, lemma_array32, lemma_padded_len, lemma_read_array32, lemma_read_bounded,
    lemma_read_bytes, lemma_read_word, lemma_word_len, spec_array32, spec_padded,
    spec_read_array32, spec_read_bounded, spec_read_bytes, spec_read_word, spec_word, spec_zeros,
    write_padded, write_raw, write_word, Canonical, DecodeError, Field, Reader,
};

verus! {

/// A machine word.
pub type Word = u64;

/// Height of a block in the chain.
pub type BlockHeight = u32;

/// Thirty-two bytes: a hash, or an identifier derived from one.
#[derive(Debug, Clone, Copy, PartialEq, Eq, PartialOrd, Ord, Hash)]
pub struct Bytes32(pub [u8; 32]);

/// Identifies an owner of coins or a recipient of messages.
pub type Address = Bytes32;

/// Identifies an asset.
pub type AssetId = Bytes32;

/// Identifies a contract.
pub type ContractId = Bytes32;

/// Makes a message unique.
pub type Nonce = Bytes32;

/// Makes the identifier of a created contract unique.
pub type Salt = Bytes32;

/// Identifies a transaction.
pub type TxId = Bytes32;

/// The number that a byte string stands for when its first byte is the most
/// significant one. Among byte strings of one length, the order of these
/// numbers is the lexicographic order.
pub open spec fn spec_rank(s: Seq<u8>) -> nat
    decreases s.len(),
{
    if s.len() == 0 {
        0
    } else {
        spec_rank(s.drop_last()) * 256 + s.last() as nat
    }
}

/// Two byte strings of one length that first differ at `index` are ranked
/// as their bytes at `index` are.
pub proof fn lemma_rank_first_difference(a: Seq<u8>, b: Seq<u8>, index: int)
    requires
        a.len() == b.len(),
        0 <= index < a.len(),
        a.take(index) == b.take(index),
        a[index] < b[index],
    ensures
        spec_rank(a) < spec_rank(b),
    decreases a.len(),
{
    if index == a.len() - 1 {
        assert(a.drop_last() =~= a.take(index));
        assert(b.drop_last() =~= b.take(index));
    } else {
        assert(a.drop_last().take(index) =~= a.take(index));
        assert(b.drop_last().take(index) =~= b.take(index));
        lemma_rank_first_difference(a.drop_last(), b.drop_last(), index);
    }
}

/// Byte strings of one length and one rank are the same.
pub proof fn lemma_rank_injective(a: Seq<u8>, b: Seq<u8>)
    requires
        a.len() == b.len(),
        spec_rank(a) == spec_rank(b),
    ensures
        a == b,
    decreases a.len(),
{
    if a.len() == 0 {
        assert(a =~= b);
    } else {
        lemma_rank_injective(a.drop_last(), b.drop_last());
        assert(a =~= a.drop_last().push(a.last()));
        assert(b =~= b.drop_last().push(b.last()));
    }
}

impl Bytes32 {
    /// Values of one rank are the same.
    pub proof fn lemma_same_rank(self, other: Bytes32)
        requires
            self.rank() == other.rank(),
        ensures
            self == other,
    {
        lemma_rank_injective(self.0@, other.0@);
        assert(self.0 =~= other.0);
    }

    /// Number of bytes of the value.
    pub const LEN: usize = 32;

    /// The value made of `bytes`.
    pub fn new(bytes: [u8; 32]) -> (r: Bytes32)
        ensures
            r.0 == bytes,
    {
        Bytes32(bytes)
    }

    /// The value made of zeros.
    pub fn zeroed() -> (r: Bytes32)
        ensures
            r == Self::spec_zeroed(),
    {
        let r = Bytes32([0u8; 32]);
        proof {
            assert(r.0@ =~= spec_zeros(32));
            lemma_array32(r.0);
        }
        r
    }

    /// The value made of zeros.
    pub open spec fn spec_zeroed() -> Bytes32 {
        Bytes32(spec_array32(spec_zeros(32)))
    }

    /// The bytes of the value.
    pub open spec fn bytes(&self) -> Seq<u8> {
        self.0@
    }

    /// Rank of the value in the lexicographic order of its bytes.
    pub open spec fn rank(&self) -> nat {
        spec_rank(self.0@)
    }

    /// Tells whether the two values hold the same bytes.
    pub fn same(&self, other: &Bytes32) -> (r: bool)
        ensures
            r == (*self == *other),
    {
        let mut i: usize = 0;
        while i < 32
            invariant
                i <= 32,
                forall|j: int| 0 <= j < i ==> self.0@[j] == other.0@[j],
            decreases 32 - i,
        {
            if self.0[i] != other.0[i] {
                return false;
            }
            i = i + 1;
        }
        assert(self.0 =~= other.0);
        true
    }

    /// Tells whether the value comes before `other` in the lexicographic
    /// order of the bytes.
    pub fn precedes(&self, other: &Bytes32) -> (r: bool)
        ensures
            r == (self.rank() < other.rank()),
    {
        let mut i: usize = 0;
        while i < 32
            invariant
                i <= 32,
                self.0@.take(i as int) == other.0@.take(i as int),
            decreases 32 - i,
        {
            if self.0[i] != other.0[i] {
                proof {
                    if self.0@[i as int] < other.0@[i as int] {
                        lemma_rank_first_difference(self.0@, other.0@, i as int);
                    } else {
                        lemma_rank_first_difference(other.0@, self.0@, i as int);
                    }
                }
                return self.0[i] < other.0[i];
            }
            assert(self.0@.take(i + 1) =~= self.0@.take(i as int).push(self.0@[i as int]));
            assert(other.0@.take(i + 1) =~= other.0@.take(i as int).push(other.0@[i as int]));
            i = i + 1;
        }
        assert(self.0@ =~= self.0@.take(32));
        assert(other.0@ =~= other.0@.take(32));
        false
    }
}

impl Default for Bytes32 {
    fn default() -> (r: Bytes32)
        ensures
            r == Bytes32::spec_zeroed(),
    {
        Bytes32::zeroed()
    }
}

impl View for Bytes32 {
    type V = Bytes32;

    open spec fn view(&self) -> Bytes32 {
        *self
    }
}

/// Names an output of an earlier transaction.
#[derive(Debug, Clone, Copy, PartialEq, Eq, PartialOrd, Ord, Hash)]
pub struct UtxoId {
    /// The transaction that made the output.
    pub tx_id: TxId,
    /// Index of the output in that transaction.
    pub output_index: u8,
}

impl UtxoId {
    /// Number of bytes of the encoding.
    pub const LEN: usize = 40;

    /// The output `output_index` of the transaction `tx_id`.
    pub fn new(tx_id: TxId, output_index: u8) -> (r: UtxoId)
        ensures
            r == (UtxoId { tx_id, output_index }),
    {
        UtxoId { tx_id, output_index }
    }

    /// Tells whether the two values name the same output.
    pub fn same(&self, other: &UtxoId) -> (r: bool)
        ensures
            r == (*self == *other),
    {
        self.output_index == other.output_index && self.tx_id.same(&other.tx_id)
    }
}

impl Default for UtxoId {
    fn default() -> (r: UtxoId)
        ensures
            r == (UtxoId { tx_id: Bytes32::spec_zeroed(), output_index: 0 }),
    {
        UtxoId { tx_id: Bytes32::zeroed(), output_index: 0 }
    }
}

impl View for UtxoId {
    type V = UtxoId;

    open spec fn view(&self) -> UtxoId {
        *self
    }
}

impl Canonical for UtxoId {
    open spec fn spec_encode(v: UtxoId) -> Seq<u8> {
        v.tx_id.0@ + spec_word(v.output_index as u64)
    }

    open spec fn spec_decode(s: Seq<u8>) -> Result<(UtxoId, Seq<u8>), DecodeError> {
        match spec_read_array32(s) {
            Err(e) => Err(e),
            Ok((tx_id, s)) => match spec_read_bounded(s, 0xff, Field::OutputIndex) {
                Err(e) => Err(e),
                Ok((output_index, s)) => Ok(
                    (UtxoId { tx_id: Bytes32(tx_id), output_index: output_index as u8 }, s),
                ),
            },
        }
    }

    open spec fn spec_valid(v: UtxoId) -> bool {
        true
    }

    proof fn lemma_valid(&self) {
    }

    proof fn lemma_decode_encode(v: UtxoId, rest: Seq<u8>) {
        let t1 = spec_word(v.output_index as u64) + rest;
        assert(Self::spec_encode(v) + rest =~= v.tx_id.0@ + t1);
        lemma_read_array32(v.tx_id.0, t1);
        lemma_read_bounded(v.output_index as u64, 0xff, Field::OutputIndex, rest);
    }

    fn size(&self) -> (r: usize) {
        proof {
            lemma_word_len();
        }
        40
    }

    fn encode(&self, buffer: &mut Vec<u8>) {
        write_raw(buffer, self.tx_id.0.as_slice());
        write_word(buffer, self.output_index as u64);
    }

    fn decode(reader: &mut Reader) -> (r: Result<UtxoId, DecodeError>) {
        let tx_id = match reader.read_array32() {
            Ok(x) => x,
            Err(e) => {
                return Err(e);
            },
        };
        let output_index = match reader.read_u8(Field::OutputIndex) {
            Ok(x) => x,
            Err(e) => {
                return Err(e);
            },
        };
        Ok(UtxoId { tx_id: Bytes32(tx_id), output_index })
    }
}

/// Names a transaction by its place in the chain.
#[derive(Debug, Clone, Copy, PartialEq, Eq, PartialOrd, Ord, Hash)]
pub struct TxPointer {
    /// Height of the block that holds the transaction.
    pub block_height: BlockHeight,
    /// Index of the transaction in that block.
    pub tx_index: u16,
}

impl TxPointer {
    /// Number of bytes of the encoding.
    pub const LEN: usize = 16;

    /// The transaction `tx_index` of the block at `block_height`.
    pub fn new(block_height: BlockHeight, tx_index: u16) -> (r: TxPointer)
        ensures
            r == (TxPointer { block_height, tx_index }),
    {
        TxPointer { block_height, tx_index }
    }
}

impl Default for TxPointer {
    fn default() -> (r: TxPointer)
        ensures
            r == (TxPointer { block_height: 0, tx_index: 0 }),
    {
        TxPointer { block_height: 0, tx_index: 0 }
    }
}

impl View for TxPointer {
    type V = TxPointer;

    open spec fn view(&self) -> TxPointer {
        *self
    }
}

impl Canonical for TxPointer {
    open spec fn spec_encode(v: TxPointer) -> Seq<u8> {
        spec_word(v.block_height as u64) + spec_word(v.tx_index as u64)
    }

    open spec fn spec_decode(s: Seq<u8>) -> Result<(TxPointer, Seq<u8>), DecodeError> {
        match spec_read_bounded(s, 0xffff_ffff, Field::BlockHeight) {
            Err(e) => Err(e),
            Ok((block_height, s)) => match spec_read_bounded(s, 0xffff, Field::TxIndex) {
                Err(e) => Err(e),
                Ok((tx_index, s)) => Ok(
                    (TxPointer { block_height: block_height as u32, tx_index: tx_index as u16 }, s),
                ),
            },
        }
    }

    open spec fn spec_valid(v: TxPointer) -> bool {
        true
    }

    proof fn lemma_valid(&self) {
    }

    proof fn lemma_decode_encode(v: TxPointer, rest: Seq<u8>) {
        let t1 = spec_word(v.tx_index as u64) + rest;
        assert(Self::spec_encode(v) + rest =~= spec_word(v.block_height as u64) + t1);
        lemma_read_bounded(v.block_height as u64, 0xffff_ffff, Field::BlockHeight, t1);
        lemma_read_bounded(v.tx_index as u64, 0xffff, Field::TxIndex, rest);
    }

    fn size(&self) -> (r: usize) {
        proof {
            lemma_word_len();
        }
        16
    }

    fn encode(&self, buffer: &mut Vec<u8>) {
        write_word(buffer, self.block_height as u64);
        write_word(buffer, self.tx_index as u64);
    }

    fn decode(reader: &mut Reader) -> (r: Result<TxPointer, DecodeError>) {
        let block_height = match reader.read_u32(Field::BlockHeight) {
            Ok(x) => x,
            Err(e) => {
                return Err(e);
            },
        };
        let tx_index = match reader.read_u16(Field::TxIndex) {
            Ok(x) => x,
            Err(e) => {
                return Err(e);
            },
        };
        Ok(TxPointer { block_height, tx_index })
    }
}

/// A slot of a contract's initial storage.
#[derive(Debug, Clone, Copy, PartialEq, Eq, PartialOrd, Ord, Hash)]
pub struct StorageSlot {
    /// Where the slot lies.
    pub key: Bytes32,
    /// What the slot holds.
    pub value: Bytes32,
}

impl StorageSlot {
    /// Number of bytes of the encoding.
    pub const LEN: usize = 64;

    /// The slot at `key` that holds `value`.
    pub fn new(key: Bytes32, value: Bytes32) -> (r: StorageSlot)
        ensures
            r == (StorageSlot { key, value }),
    {
        StorageSlot { key, value }
    }

    /// Slots are ordered by key, and slots of one key by value: this is the
    /// pair of ranks by which they are ordered.
    pub open spec fn rank(&self) -> (nat, nat) {
        (self.key.rank(), self.value.rank())
    }

    /// The order of the slots.
    pub open spec fn spec_precedes(&self, other: &StorageSlot) -> bool {
        self.key.rank() < other.key.rank() || (self.key.rank() == other.key.rank()
            && self.value.rank() < other.value.rank())
    }

    /// Tells whether the slot comes before `other`.
    #[verifier::when_used_as_spec(spec_precedes)]
    pub fn precedes(&self, other: &StorageSlot) -> (r: bool)
        ensures
            r == self.spec_precedes(other),
    {
        if self.key.precedes(&other.key) {
            true
        } else if other.key.precedes(&self.key) {
            false
        } else {
            self.value.precedes(&other.value)
        }
    }
}

impl Default for StorageSlot {
    fn default() -> (r: StorageSlot)
        ensures
            r == (StorageSlot { key: Bytes32::spec_zeroed(), value: Bytes32::spec_zeroed() }),
    {
        StorageSlot { key: Bytes32::zeroed(), value: Bytes32::zeroed() }
    }
}

impl View for StorageSlot {
    type V = StorageSlot;

    open spec fn view(&self) -> StorageSlot {
        *self
    }
}

impl Canonical for StorageSlot {
    open spec fn spec_encode(v: StorageSlot) -> Seq<u8> {
        v.key.0@ + v.value.0@
    }

    open spec fn spec_decode(s: Seq<u8>) -> Result<(StorageSlot, Seq<u8>), DecodeError> {
        match spec_read_array32(s) {
            Err(e) => Err(e),
            Ok((key, s)) => match spec_read_array32(s) {
                Err(e) => Err(e),
                Ok((value, s)) => Ok((StorageSlot { key: Bytes32(key), value: Bytes32(value) }, s)),
            },
        }
    }

    open spec fn spec_valid(v: StorageSlot) -> bool {
        true
    }

    proof fn lemma_valid(&self) {
    }

    proof fn lemma_decode_encode(v: StorageSlot, rest: Seq<u8>) {
        let t1 = v.value.0@ + rest;
        assert(Self::spec_encode(v) + rest =~= v.key.0@ + t1);
        lemma_read_array32(v.key.0, t1);
        lemma_read_array32(v.value.0, rest);
    }

    fn size(&self) -> (r: usize) {
        64
    }

    fn encode(&self, buffer: &mut Vec<u8>) {
        write_raw(buffer, self.key.0.as_slice());
        write_raw(buffer, self.value.0.as_slice());
    }

    fn decode(reader: &mut Reader) -> (r: Result<StorageSlot, DecodeError>) {
        let key = match reader.read_array32() {
            Ok(x) => x,
            Err(e) => {
                return Err(e);
            },
        };
        let value = match reader.read_array32() {
            Ok(x) => x,
            Err(e) => {
                return Err(e);
            },
        };
        Ok(StorageSlot { key: Bytes32(key), value: Bytes32(value) })
    }
}

/// A byte string that inputs refer to by index: a signature, or the
/// bytecode of a contract.
#[derive(Debug, Clone, PartialEq, Eq, Hash, Default)]
pub struct Witness {
    pub data: Vec<u8>,
}

impl View for Witness {
    type V = Seq<u8>;

    open spec fn view(&self) -> Seq<u8> {
        self.data@
    }
}

impl Witness {
    /// The witness that holds `data`.
    pub fn new(data: Vec<u8>) -> (r: Witness)
        ensures
            r@ == data@,
    {
        Witness { data }
    }

    /// The bytes of the witness.
    pub fn as_vec(&self) -> (r: &Vec<u8>)
        ensures
            r@ == self@,
    {
        &self.data
    }

    /// The bytes of the witness.
    pub fn as_slice(&self) -> (r: &[u8])
        ensures
            r@ == self@,
    {
        self.data.as_slice()
    }

    /// Gives up the bytes of the witness.
    pub fn into_inner(self) -> (r: Vec<u8>)
        ensures
            r@ == self@,
    {
        self.data
    }

    /// Number of bytes of the witness.
    pub fn len(&self) -> (r: usize)
        ensures
            r == self@.len(),
    {
        self.data.len()
    }
}

impl From<Vec<u8>> for Witness {
    fn from(data: Vec<u8>) -> (r: Witness) {
        Witness { data }
    }
}

impl vstd::std_specs::convert::FromSpecImpl<Vec<u8>> for Witness {
    open spec fn obeys_from_spec() -> bool {
        true
    }

    open spec fn from_spec(data: Vec<u8>) -> Witness {
        Witness { data }
    }
}

impl Canonical for Witness {
    open spec fn spec_encode(v: Seq<u8>) -> Seq<u8> {
        spec_word(v.len() as u64) + spec_padded(v)
    }

    open spec fn spec_decode(s: Seq<u8>) -> Result<(Seq<u8>, Seq<u8>), DecodeError> {
        match spec_read_word(s) {
            Err(e) => Err(e),
            Ok((len, s)) => spec_read_bytes(s, len, Field::Witness),
        }
    }

    open spec fn spec_valid(v: Seq<u8>) -> bool {
        v.len() <= u64::MAX
    }

    proof fn lemma_valid(&self) {
        assert(self.data.len() <= u64::MAX);
    }

    proof fn lemma_decode_encode(v: Seq<u8>, rest: Seq<u8>) {
        let t1 = spec_padded(v) + rest;
        assert(Self::spec_encode(v) + rest =~= spec_word(v.len() as u64) + t1);
        lemma_read_word(v.len() as u64, t1);
        lemma_read_bytes(v, Field::Witness, rest);
    }

    fn size(&self) -> (r: usize) {
        proof {
            lemma_word_len();
            lemma_padded_len();
        }
        aligned_size(self.data.len()).saturating_add(8)
    }

    fn encode(&self, buffer: &mut Vec<u8>) {
        write_word(buffer, self.data.len() as u64);
        write_padded(buffer, self.data.as_slice());
        assert(buffer@ =~= old(buffer)@ + Self::spec_encode(self@));
    }

    fn decode(reader: &mut Reader) -> (r: Result<Witness, DecodeError>) {
        let len = match reader.read_word() {
            Ok(x) => x,
            Err(e) => {
                return Err(e);
            },
        };
        let data = match reader.read_bytes(len, Field::Witness) {
            Ok(x) => x,
            Err(e) => {
                return Err(e);
            },
        };
        Ok(Witness { data })
    }
}

} // verus!
