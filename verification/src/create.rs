//! Transactions that create a contract.

use vstd::prelude::*;

use crate::codec::{
    decode_all, encode_all, lemma_add_assoc, lemma_all_valid, lemma_decode_encode_all,
    lemma_read_array32, lemma_read_bounded, lemma_read_word, lemma_regroup4, lemma_regroup6,
    lemma_word_len, offset_in, size_all, spec_offset_at, spec_all_valid, spec_decode_all, spec_encode_all,
    spec_read_array32, spec_read_bounded, spec_read_word, spec_saturate, spec_views, spec_word,
    write_raw, write_word, Canonical, DecodeError, Field, Reader,
};
use crate::crypto::PublicKey;
use crate::executable::{
    lemma_output_views, prepare_inputs_for_predicate, prepare_outputs_for_predicate,
    prepare_outputs_for_script, unsigned_message_input, Executable,
};
use crate::input::{Input, InputView};
use crate::output::Output;
use crate::script::{
    lemma_read_fees, lemma_read_words4, read_fees, read_tag, read_words4, spec_fees,
    spec_read_fees, spec_read_tag, spec_read_words4, spec_words4, write_fees, write_words4,
    TRANSACTION_CREATE,
};
use crate::types::{
    Address, AssetId, BlockHeight, Bytes32, Nonce, Salt, StorageSlot, TxPointer, UtxoId, Witness,
    Word,
};

verus! {

/// Storage slots are in order when none comes before one that stands
/// earlier in the sequence.
pub open spec fn spec_sorted(s: Seq<StorageSlot>) -> bool {
    forall|i: int, j: int|
        #![trigger s[i], s[j]]
        0 <= i < j < s.len() ==> !s[j].spec_precedes(&s[i])
}

/// Tells whether `slots` are in order.
pub fn is_sorted(slots: &Vec<StorageSlot>) -> (r: bool)
    ensures
        r == spec_sorted(slots@),
{
    let n = slots.len();
    if n < 2 {
        return true;
    }
    let mut k: usize = 1;
    while k < n
        invariant
            1 <= k <= n,
            n == slots@.len(),
            spec_sorted(slots@.take(k as int)),
        decreases n - k,
    {
        if slots[k].precedes(&slots[k - 1]) {
            return false;
        }
        proof {
            let before = slots@.take(k as int);
            let after = slots@.take(k + 1);
            assert forall|i: int, j: int|
                #![trigger after[i], after[j]]
                0 <= i < j < after.len() implies !after[j].spec_precedes(&after[i]) by {
                if j < k {
                    assert(!before[j].spec_precedes(&before[i]));
                } else if i < k - 1 {
                    assert(!before[k - 1].spec_precedes(&before[i]));
                }
            }
        }
        k = k + 1;
    }
    assert(slots@.take(n as int) =~= slots@);
    true
}

/// Puts `slots` in order, by key and then by value.
pub fn sort_slots(slots: &mut Vec<StorageSlot>)
    ensures
        spec_sorted(final(slots)@),
        final(slots)@.to_multiset() == old(slots)@.to_multiset(),
{
    let n = slots.len();
    if n < 2 {
        return ;
    }
    let mut i: usize = 1;
    while i < n
        invariant
            1 <= i <= n,
            n == slots@.len(),
            spec_sorted(slots@.take(i as int)),
            slots@.to_multiset() == old(slots)@.to_multiset(),
        decreases n - i,
    {
        let mut j: usize = i;
        proof {
            let s = slots@;
            assert forall|a: int, b: int|
                #![trigger s[a], s[b]]
                0 <= a < b <= i && b != j implies !s[b].spec_precedes(&s[a]) by {
                assert(s.take(i as int)[b] == s[b]);
                assert(s.take(i as int)[a] == s[a]);
            }
        }
        while j > 0 && slots[j].precedes(&slots[j - 1])
            invariant
                j <= i < n,
                n == slots@.len(),
                slots@.to_multiset() == old(slots)@.to_multiset(),
                forall|a: int, b: int|
                    #![trigger slots@[a], slots@[b]]
                    0 <= a < b <= i && b != j ==> !slots@[b].spec_precedes(&slots@[a]),
            decreases j,
        {
            let ghost before = slots@;
            let lower = slots[j - 1];
            let upper = slots[j];
            slots[j - 1] = upper;
            slots[j] = lower;
            proof {
                let mid = before.update(j - 1, upper);
                vstd::seq_lib::to_multiset_update(before, j - 1, upper);
                vstd::seq_lib::to_multiset_update(mid, j as int, lower);
                assert(slots@ == mid.update(j as int, lower));
                assert(slots@.to_multiset() =~= before.to_multiset()) by {
                    broadcast use {
                        vstd::multiset::group_multiset_axioms,
                        vstd::multiset::group_multiset_properties,
                    };

                    before.to_multiset_ensures();
                    mid.to_multiset_ensures();
                    assert(before[j - 1] == lower && before.contains(lower));
                    assert(mid[j as int] == upper && mid.contains(upper));
                }
                let after = slots@;
                assert forall|a: int, b: int|
                    #![trigger after[a], after[b]]
                    0 <= a < b <= i && b != j - 1 implies !after[b].spec_precedes(&after[a]) by {
                    if b == j {
                        if a < j - 1 {
                            assert(!before[j - 1].spec_precedes(&before[a]));
                        }
                    } else if a == j {
                        assert(!before[b].spec_precedes(&before[j - 1]));
                    } else if a == j - 1 {
                        assert(!before[b].spec_precedes(&before[j as int]));
                    } else {
                        assert(!before[b].spec_precedes(&before[a]));
                    }
                }
            }
            j = j - 1;
        }
        proof {
            let s = slots@;
            let t = s.take(i + 1);
            assert forall|a: int, b: int|
                #![trigger t[a], t[b]]
                0 <= a < b < t.len() implies !t[b].spec_precedes(&t[a]) by {
                if b == j {
                    if a < j - 1 {
                        assert(!s[j - 1].spec_precedes(&s[a]));
                    }
                } else {
                    assert(!s[b].spec_precedes(&s[a]));
                }
            }
        }
        i = i + 1;
    }
    assert(slots@.take(n as int) =~= slots@);
}

/// The models of storage slots are the slots themselves.
pub proof fn lemma_slot_views(s: Seq<StorageSlot>)
    ensures
        spec_views(s) == s,
{
    assert(spec_views(s) =~= s);
}

/// A transaction that creates a contract. Its storage slots are in order at
/// all times.
#[derive(Debug, PartialEq, Eq, Hash)]
pub struct Create {
    gas_price: Word,
    gas_limit: Word,
    maturity: BlockHeight,
    bytecode_length: Word,
    bytecode_witness_index: u8,
    salt: Salt,
    storage_slots: Vec<StorageSlot>,
    inputs: Vec<Input>,
    outputs: Vec<Output>,
    witnesses: Vec<Witness>,
}

/// Model of a `Create`.
pub struct CreateView {
    pub gas_price: Word,
    pub gas_limit: Word,
    pub maturity: BlockHeight,
    pub bytecode_length: Word,
    pub bytecode_witness_index: u8,
    pub salt: Salt,
    pub storage_slots: Seq<StorageSlot>,
    pub inputs: Seq<InputView>,
    pub outputs: Seq<Output>,
    pub witnesses: Seq<Seq<u8>>,
}

/// What the static part of an encoded `Create` holds: the fields of fixed
/// size, and the lengths of the sequences that follow in the dynamic part.
#[derive(Debug, Clone, Copy, PartialEq, Eq, Hash)]
pub struct CreateHeader {
    pub gas_price: Word,
    pub gas_limit: Word,
    pub maturity: BlockHeight,
    pub bytecode_length: Word,
    pub bytecode_witness_index: u8,
    pub salt: Salt,
    pub storage_slots_count: u64,
    pub inputs_count: u64,
    pub outputs_count: u64,
    pub witnesses_count: u64,
}

impl View for Create {
    type V = CreateView;

    closed spec fn view(&self) -> CreateView {
        CreateView {
            gas_price: self.gas_price,
            gas_limit: self.gas_limit,
            maturity: self.maturity,
            bytecode_length: self.bytecode_length,
            bytecode_witness_index: self.bytecode_witness_index,
            salt: self.salt,
            storage_slots: self.storage_slots@,
            inputs: spec_views(self.inputs@),
            outputs: spec_views(self.outputs@),
            witnesses: spec_views(self.witnesses@),
        }
    }
}

impl CreateHeader {
    /// The bytes of the header: the static part of the transaction.
    pub open spec fn spec_encode(self) -> Seq<u8> {
        spec_word(TRANSACTION_CREATE) + spec_fees(self.gas_price, self.gas_limit, self.maturity)
            + spec_word(self.bytecode_length) + spec_word(self.bytecode_witness_index as u64)
            + self.salt.0@ + spec_words4(
            (self.storage_slots_count, self.inputs_count, self.outputs_count, self.witnesses_count),
        )
    }

    /// Reads a header from the front of `s`.
    pub open spec fn spec_decode(s: Seq<u8>) -> Result<(CreateHeader, Seq<u8>), DecodeError> {
        match spec_read_tag(s, TRANSACTION_CREATE) {
            Err(e) => Err(e),
            Ok(s) => match spec_read_fees(s) {
                Err(e) => Err(e),
                Ok((fees, s)) => match spec_read_word(s) {
                    Err(e) => Err(e),
                    Ok((bytecode_length, s)) => match spec_read_bounded(
                        s,
                        0xff,
                        Field::BytecodeWitnessIndex,
                    ) {
                        Err(e) => Err(e),
                        Ok((index, s)) => match spec_read_array32(s) {
                            Err(e) => Err(e),
                            Ok((salt, s)) => match spec_read_words4(s) {
                                Err(e) => Err(e),
                                Ok((w, s)) => Ok(
                                    (
                                        CreateHeader {
                                            gas_price: fees.0,
                                            gas_limit: fees.1,
                                            maturity: fees.2,
                                            bytecode_length,
                                            bytecode_witness_index: index as u8,
                                            salt: Bytes32(salt),
                                            storage_slots_count: w.0,
                                            inputs_count: w.1,
                                            outputs_count: w.2,
                                            witnesses_count: w.3,
                                        },
                                        s,
                                    ),
                                ),
                            },
                        },
                    },
                },
            },
        }
    }

    /// The fields of fixed size lie in the header one after the other,
    /// behind the tag.
    pub proof fn lemma_fields(self)
        ensures
            self.spec_encode().len() == 112,
            self.spec_encode().subrange(0, 8) == spec_word(TRANSACTION_CREATE),
            self.spec_encode().subrange(8, 16) == spec_word(self.gas_price),
            self.spec_encode().subrange(16, 24) == spec_word(self.gas_limit),
            self.spec_encode().subrange(24, 32) == spec_word(self.maturity as u64),
            self.spec_encode().subrange(32, 40) == spec_word(self.bytecode_length),
            self.spec_encode().subrange(40, 48) == spec_word(self.bytecode_witness_index as u64),
            self.spec_encode().subrange(48, 80) == self.salt.0@,
    {
        lemma_word_len();
        let e = self.spec_encode();
        assert(e.subrange(0, 8) =~= spec_word(TRANSACTION_CREATE));
        assert(e.subrange(8, 16) =~= spec_word(self.gas_price));
        assert(e.subrange(16, 24) =~= spec_word(self.gas_limit));
        assert(e.subrange(24, 32) =~= spec_word(self.maturity as u64));
        assert(e.subrange(32, 40) =~= spec_word(self.bytecode_length));
        assert(e.subrange(40, 48) =~= spec_word(self.bytecode_witness_index as u64));
        assert(e.subrange(48, 80) =~= self.salt.0@);
    }

    /// A header takes 112 bytes and is read back as it was written.
    pub proof fn lemma_decode_encode(self, rest: Seq<u8>)
        ensures
            self.spec_encode().len() == 112,
            Self::spec_decode(self.spec_encode() + rest) == Ok::<
                (CreateHeader, Seq<u8>),
                DecodeError,
            >((self, rest)),
    {
        lemma_word_len();
        let e1 = spec_fees(self.gas_price, self.gas_limit, self.maturity);
        let e2 = spec_word(self.bytecode_length);
        let e3 = spec_word(self.bytecode_witness_index as u64);
        let e4 = self.salt.0@;
        let w = (
            self.storage_slots_count,
            self.inputs_count,
            self.outputs_count,
            self.witnesses_count,
        );
        let e5 = spec_words4(w);
        let t5 = e5 + rest;
        let t4 = e4 + t5;
        let t3 = e3 + t4;
        let t2 = e2 + t3;
        let t1 = e1 + t2;
        lemma_regroup6(spec_word(TRANSACTION_CREATE), e1, e2, e3, e4, e5, rest);
        lemma_read_word(TRANSACTION_CREATE, t1);
        lemma_read_fees(self.gas_price, self.gas_limit, self.maturity, t2);
        lemma_read_word(self.bytecode_length, t3);
        lemma_read_bounded(
            self.bytecode_witness_index as u64,
            0xff,
            Field::BytecodeWitnessIndex,
            t4,
        );
        lemma_read_array32(self.salt.0, t5);
        lemma_read_words4(w, rest);
    }
}

impl CreateView {
    /// The header that announces the transaction.
    pub open spec fn header(self) -> CreateHeader {
        CreateHeader {
            gas_price: self.gas_price,
            gas_limit: self.gas_limit,
            maturity: self.maturity,
            bytecode_length: self.bytecode_length,
            bytecode_witness_index: self.bytecode_witness_index,
            salt: self.salt,
            storage_slots_count: self.storage_slots.len() as u64,
            inputs_count: self.inputs.len() as u64,
            outputs_count: self.outputs.len() as u64,
            witnesses_count: self.witnesses.len() as u64,
        }
    }

    /// A model is valid when its storage slots are in order and every length
    /// in it fits in a word.
    pub open spec fn valid(self) -> bool {
        &&& spec_sorted(self.storage_slots)
        &&& self.storage_slots.len() <= u64::MAX
        &&& self.inputs.len() <= u64::MAX
        &&& self.outputs.len() <= u64::MAX
        &&& self.witnesses.len() <= u64::MAX
        &&& spec_all_valid::<StorageSlot>(self.storage_slots)
        &&& spec_all_valid::<Input>(self.inputs)
        &&& spec_all_valid::<Output>(self.outputs)
        &&& spec_all_valid::<Witness>(self.witnesses)
    }

    /// The static part of the encoding.
    pub open spec fn spec_static(self) -> Seq<u8> {
        self.header().spec_encode()
    }

    /// The dynamic part of the encoding but for the witnesses: the storage
    /// slots, the inputs and the outputs.
    pub open spec fn spec_metered_dynamic(self) -> Seq<u8> {
        spec_encode_all::<StorageSlot>(self.storage_slots) + spec_encode_all::<Input>(self.inputs)
            + spec_encode_all::<Output>(self.outputs)
    }

    /// The dynamic part of the encoding.
    pub open spec fn spec_dynamic(self) -> Seq<u8> {
        self.spec_metered_dynamic() + spec_encode_all::<Witness>(self.witnesses)
    }

    /// The encoding: the static part, then the dynamic part.
    pub open spec fn spec_encode(self) -> Seq<u8> {
        self.spec_static() + self.spec_dynamic()
    }

    /// Number of bytes of the encoding without its witnesses.
    pub open spec fn spec_metered_size(self) -> nat {
        self.spec_static().len() + self.spec_metered_dynamic().len()
    }

    /// Where the storage slots start in the encoding.
    pub open spec fn spec_storage_slots_offset(self) -> nat {
        112
    }

    /// Where the inputs start in the encoding.
    pub open spec fn spec_inputs_offset(self) -> nat {
        112 + spec_encode_all::<StorageSlot>(self.storage_slots).len()
    }

    /// Where the outputs start in the encoding.
    pub open spec fn spec_outputs_offset(self) -> nat {
        self.spec_inputs_offset() + spec_encode_all::<Input>(self.inputs).len()
    }

    /// Where the witnesses start in the encoding.
    pub open spec fn spec_witnesses_offset(self) -> nat {
        self.spec_outputs_offset() + spec_encode_all::<Output>(self.outputs).len()
    }

    /// Reads what a header announces from the front of `s`. Storage slots
    /// that are not in order make the image invalid.
    pub open spec fn spec_decode_dynamic(h: CreateHeader, s: Seq<u8>) -> Result<
        (CreateView, Seq<u8>),
        DecodeError,
    > {
        match spec_decode_all::<StorageSlot>(s, h.storage_slots_count as nat) {
            Err(e) => Err(e),
            Ok((storage_slots, s)) => if !spec_sorted(storage_slots) {
                Err(DecodeError::InvalidField(Field::StorageSlots))
            } else {
                match spec_decode_all::<Input>(s, h.inputs_count as nat) {
                    Err(e) => Err(e),
                    Ok((inputs, s)) => match spec_decode_all::<Output>(
                        s,
                        h.outputs_count as nat,
                    ) {
                        Err(e) => Err(e),
                        Ok((outputs, s)) => match spec_decode_all::<Witness>(
                            s,
                            h.witnesses_count as nat,
                        ) {
                            Err(e) => Err(e),
                            Ok((witnesses, s)) => Ok(
                                (
                                    CreateView {
                                        gas_price: h.gas_price,
                                        gas_limit: h.gas_limit,
                                        maturity: h.maturity,
                                        bytecode_length: h.bytecode_length,
                                        bytecode_witness_index: h.bytecode_witness_index,
                                        salt: h.salt,
                                        storage_slots,
                                        inputs,
                                        outputs,
                                        witnesses,
                                    },
                                    s,
                                ),
                            ),
                        },
                    },
                }
            },
        }
    }

    /// Reads a transaction from the front of `s`.
    pub open spec fn spec_decode(s: Seq<u8>) -> Result<(CreateView, Seq<u8>), DecodeError> {
        match CreateHeader::spec_decode(s) {
            Err(e) => Err(e),
            Ok((h, s)) => Self::spec_decode_dynamic(h, s),
        }
    }

    /// Decoding reads back what encoding wrote, and stops right after it.
    pub proof fn lemma_decode_encode(self, rest: Seq<u8>)
        requires
            self.valid(),
        ensures
            Self::spec_decode(self.spec_encode() + rest) == Ok::<
                (CreateView, Seq<u8>),
                DecodeError,
            >((self, rest)),
    {
        let e1 = spec_encode_all::<StorageSlot>(self.storage_slots);
        let e2 = spec_encode_all::<Input>(self.inputs);
        let e3 = spec_encode_all::<Output>(self.outputs);
        let e4 = spec_encode_all::<Witness>(self.witnesses);
        let t3 = e4 + rest;
        let t2 = e3 + t3;
        let t1 = e2 + t2;
        lemma_add_assoc(self.spec_static(), self.spec_dynamic(), rest);
        self.header().lemma_decode_encode(self.spec_dynamic() + rest);
        lemma_regroup4(e1, e2, e3, e4, rest);
        lemma_decode_encode_all::<StorageSlot>(self.storage_slots, t1);
        lemma_decode_encode_all::<Input>(self.inputs, t2);
        lemma_decode_encode_all::<Output>(self.outputs, t3);
        lemma_decode_encode_all::<Witness>(self.witnesses, rest);
    }

    /// The offsets of the sequences, added up, give the size of the
    /// encoding.
    pub proof fn lemma_offsets(self)
        ensures
            self.spec_static().len() == 112,
            self.spec_metered_dynamic().len() + 112 == self.spec_witnesses_offset(),
            self.spec_encode().len() == self.spec_witnesses_offset() + spec_encode_all::<Witness>(
                self.witnesses,
            ).len(),
    {
        self.header().lemma_decode_encode(Seq::empty());
    }

    /// The encodings of the inputs, of the outputs and of the witnesses lie
    /// in the encoding of the transaction at their offsets.
    pub proof fn lemma_segments(self)
        ensures
            self.spec_witnesses_offset() + spec_encode_all::<Witness>(self.witnesses).len()
                == self.spec_encode().len(),
            self.spec_encode().subrange(
                self.spec_inputs_offset() as int,
                self.spec_outputs_offset() as int,
            ) == spec_encode_all::<Input>(self.inputs),
            self.spec_encode().subrange(
                self.spec_outputs_offset() as int,
                self.spec_witnesses_offset() as int,
            ) == spec_encode_all::<Output>(self.outputs),
            self.spec_encode().subrange(
                self.spec_witnesses_offset() as int,
                self.spec_encode().len() as int,
            ) == spec_encode_all::<Witness>(self.witnesses),
    {
        self.lemma_offsets();
        let e = self.spec_encode();
        let h = self.spec_static();
        let a = spec_encode_all::<StorageSlot>(self.storage_slots);
        let i = spec_encode_all::<Input>(self.inputs);
        let o = spec_encode_all::<Output>(self.outputs);
        let w = spec_encode_all::<Witness>(self.witnesses);
        assert(e == h + (a + i + o + w));
        assert(e.subrange(self.spec_inputs_offset() as int, self.spec_outputs_offset() as int)
            =~= i);
        assert(e.subrange(self.spec_outputs_offset() as int, self.spec_witnesses_offset() as int)
            =~= o);
        assert(e.subrange(self.spec_witnesses_offset() as int, e.len() as int) =~= w);
    }

    /// The size without the witnesses does not depend on the witnesses.
    pub proof fn lemma_metered_ignores_witnesses(self, witnesses: Seq<Seq<u8>>)
        ensures
            (CreateView { witnesses, ..self }).spec_metered_size() == self.spec_metered_size(),
    {
        self.lemma_offsets();
        (CreateView { witnesses, ..self }).lemma_offsets();
    }
}

impl Clone for Create {
    fn clone(&self) -> (r: Create) {
        proof {
            use_type_invariant(self);
        }
        Create {
            gas_price: self.gas_price,
            gas_limit: self.gas_limit,
            maturity: self.maturity,
            bytecode_length: self.bytecode_length,
            bytecode_witness_index: self.bytecode_witness_index,
            salt: self.salt,
            storage_slots: vstd::slice::slice_to_vec(self.storage_slots.as_slice()),
            inputs: self.inputs.clone(),
            outputs: self.outputs.clone(),
            witnesses: self.witnesses.clone(),
        }
    }
}

/// Storage slots taken out of a `Create` to be changed freely; they are put
/// in order when they are handed back.
#[derive(Debug, Clone, PartialEq, Eq, Hash)]
pub struct StorageSlotRef {
    pub storage_slots: Vec<StorageSlot>,
}

impl Create {
    #[verifier::type_invariant]
    spec fn slots_in_order(self) -> bool {
        spec_sorted(self.storage_slots@)
    }

    /// Builds a transaction from its parts. The storage slots are put in
    /// order. The bytecode length is counted in words of four bytes from the
    /// witness that holds the bytecode, and is zero where there is no such
    /// witness.
    pub fn new(
        gas_price: Word,
        gas_limit: Word,
        maturity: BlockHeight,
        bytecode_witness_index: u8,
        salt: Salt,
        storage_slots: Vec<StorageSlot>,
        inputs: Vec<Input>,
        outputs: Vec<Output>,
        witnesses: Vec<Witness>,
    ) -> (r: Create)
        ensures
            r@.gas_price == gas_price,
            r@.gas_limit == gas_limit,
            r@.maturity == maturity,
            r@.bytecode_witness_index == bytecode_witness_index,
            r@.salt == salt,
            r@.bytecode_length == spec_bytecode_length(
                spec_views(witnesses@),
                bytecode_witness_index,
            ),
            spec_sorted(r@.storage_slots),
            r@.storage_slots.to_multiset() == storage_slots@.to_multiset(),
            r@.inputs == spec_views(inputs@),
            r@.outputs == spec_views(outputs@),
            r@.witnesses == spec_views(witnesses@),
            r@.valid(),
    {
        let bytecode_length = if (bytecode_witness_index as usize) < witnesses.len() {
            (witnesses[bytecode_witness_index as usize].len() / 4) as u64
        } else {
            0
        };
        let mut storage_slots = storage_slots;
        sort_slots(&mut storage_slots);
        let r = Create {
            gas_price,
            gas_limit,
            maturity,
            bytecode_length,
            bytecode_witness_index,
            salt,
            storage_slots,
            inputs,
            outputs,
            witnesses,
        };
        proof {
            r.lemma_valid();
        }
        r
    }

    proof fn lemma_valid(&self)
        requires
            spec_sorted(self.storage_slots@),
        ensures
            self@.valid(),
    {
        assert(self.storage_slots.len() <= u64::MAX);
        assert(self.inputs.len() <= u64::MAX);
        assert(self.outputs.len() <= u64::MAX);
        assert(self.witnesses.len() <= u64::MAX);
        lemma_slot_views(self.storage_slots@);
        lemma_all_valid::<StorageSlot>(&self.storage_slots);
        lemma_all_valid::<Input>(&self.inputs);
        lemma_all_valid::<Output>(&self.outputs);
        lemma_all_valid::<Witness>(&self.witnesses);
    }

    /// The sequences of a transaction are no longer than memory allows.
    pub proof fn lemma_counts(&self)
        ensures
            self@.inputs.len() <= usize::MAX,
            self@.outputs.len() <= usize::MAX,
            self@.witnesses.len() <= usize::MAX,
            self@.storage_slots.len() <= usize::MAX,
    {
        assert(self.storage_slots.len() <= usize::MAX);
        assert(self.inputs.len() <= usize::MAX);
        assert(self.outputs.len() <= usize::MAX);
        assert(self.witnesses.len() <= usize::MAX);
    }

    /// The price of gas.
    pub fn gas_price(&self) -> (r: Word)
        ensures
            r == self@.gas_price,
    {
        self.gas_price
    }

    /// The most gas the transaction may use.
    pub fn gas_limit(&self) -> (r: Word)
        ensures
            r == self@.gas_limit,
    {
        self.gas_limit
    }

    /// The height from which the transaction may be included.
    pub fn maturity(&self) -> (r: BlockHeight)
        ensures
            r == self@.maturity,
    {
        self.maturity
    }

    /// Length of the bytecode in words of four bytes.
    pub fn bytecode_length(&self) -> (r: Word)
        ensures
            r == self@.bytecode_length,
    {
        self.bytecode_length
    }

    /// Index of the witness that holds the bytecode.
    pub fn bytecode_witness_index(&self) -> (r: u8)
        ensures
            r == self@.bytecode_witness_index,
    {
        self.bytecode_witness_index
    }

    /// The salt of the contract's identifier.
    pub fn salt(&self) -> (r: &Salt)
        ensures
            *r == self@.salt,
    {
        &self.salt
    }

    /// The storage slots, which are in order.
    pub fn storage_slots(&self) -> (r: &Vec<StorageSlot>)
        ensures
            r@ == self@.storage_slots,
            spec_sorted(r@),
            self@.valid(),
    {
        proof {
            use_type_invariant(self);
            self.lemma_valid();
        }
        &self.storage_slots
    }

    /// Takes the storage slots out, to be changed and handed back with
    /// `restore_storage_slots`. Until then the transaction has none.
    pub fn storage_slots_mut(&mut self) -> (r: StorageSlotRef)
        ensures
            r.storage_slots@ == old(self)@.storage_slots,
            final(self)@ == (CreateView { storage_slots: Seq::empty(), ..old(self)@ }),
    {
        let mut taken: Vec<StorageSlot> = Vec::new();
        core::mem::swap(&mut self.storage_slots, &mut taken);
        StorageSlotRef { storage_slots: taken }
    }

    /// Hands storage slots back to the transaction, in order.
    pub fn restore_storage_slots(&mut self, slots: StorageSlotRef)
        ensures
            spec_sorted(final(self)@.storage_slots),
            final(self)@.storage_slots.to_multiset() == slots.storage_slots@.to_multiset(),
            final(self)@ == (CreateView {
                storage_slots: final(self)@.storage_slots,
                ..old(self)@
            }),
    {
        let mut storage_slots = slots.storage_slots;
        sort_slots(&mut storage_slots);
        self.storage_slots = storage_slots;
    }
}

impl Create {
    /// Reads the static part of an encoded transaction.
    pub fn decode_static(reader: &mut Reader) -> (r: Result<CreateHeader, DecodeError>)
        ensures
            match CreateHeader::spec_decode(old(reader).remaining()) {
                Ok((h, rest)) => r == Ok::<CreateHeader, DecodeError>(h)
                    && final(reader).remaining() == rest,
                Err(e) => r == Err::<CreateHeader, DecodeError>(e),
            },
    {
        match read_tag(reader, TRANSACTION_CREATE) {
            Ok(_) => {},
            Err(e) => {
                return Err(e);
            },
        }
        let fees = match read_fees(reader) {
            Ok(x) => x,
            Err(e) => {
                return Err(e);
            },
        };
        let bytecode_length = match reader.read_word() {
            Ok(x) => x,
            Err(e) => {
                return Err(e);
            },
        };
        let bytecode_witness_index = match reader.read_u8(Field::BytecodeWitnessIndex) {
            Ok(x) => x,
            Err(e) => {
                return Err(e);
            },
        };
        let salt = match reader.read_array32() {
            Ok(x) => x,
            Err(e) => {
                return Err(e);
            },
        };
        let w = match read_words4(reader) {
            Ok(x) => x,
            Err(e) => {
                return Err(e);
            },
        };
        Ok(
            CreateHeader {
                gas_price: fees.0,
                gas_limit: fees.1,
                maturity: fees.2,
                bytecode_length,
                bytecode_witness_index,
                salt: Bytes32(salt),
                storage_slots_count: w.0,
                inputs_count: w.1,
                outputs_count: w.2,
                witnesses_count: w.3,
            },
        )
    }

    /// Reads the dynamic part that `header` announces.
    pub fn decode_dynamic(header: &CreateHeader, reader: &mut Reader) -> (r: Result<
        Create,
        DecodeError,
    >)
        ensures
            match CreateView::spec_decode_dynamic(*header, old(reader).remaining()) {
                Ok((v, rest)) => r matches Ok(x) && x@ == v && final(reader).remaining() == rest,
                Err(e) => r matches Err(f) && f == e,
            },
    {
        let storage_slots = match decode_all::<StorageSlot>(reader, header.storage_slots_count) {
            Ok(x) => x,
            Err(e) => {
                return Err(e);
            },
        };
        proof {
            lemma_slot_views(storage_slots@);
        }
        if !is_sorted(&storage_slots) {
            return Err(DecodeError::InvalidField(Field::StorageSlots));
        }
        let inputs = match decode_all::<Input>(reader, header.inputs_count) {
            Ok(x) => x,
            Err(e) => {
                return Err(e);
            },
        };
        let outputs = match decode_all::<Output>(reader, header.outputs_count) {
            Ok(x) => x,
            Err(e) => {
                return Err(e);
            },
        };
        let witnesses = match decode_all::<Witness>(reader, header.witnesses_count) {
            Ok(x) => x,
            Err(e) => {
                return Err(e);
            },
        };
        Ok(
            Create {
                gas_price: header.gas_price,
                gas_limit: header.gas_limit,
                maturity: header.maturity,
                bytecode_length: header.bytecode_length,
                bytecode_witness_index: header.bytecode_witness_index,
                salt: header.salt,
                storage_slots,
                inputs,
                outputs,
                witnesses,
            },
        )
    }

    /// Reads a transaction from `reader`.
    pub fn decode(reader: &mut Reader) -> (r: Result<Create, DecodeError>)
        ensures
            match CreateView::spec_decode(old(reader).remaining()) {
                Ok((v, rest)) => r matches Ok(x) && x@ == v && final(reader).remaining() == rest,
                Err(e) => r matches Err(f) && f == e,
            },
    {
        let header = match Create::decode_static(reader) {
            Ok(x) => x,
            Err(e) => {
                return Err(e);
            },
        };
        Create::decode_dynamic(&header, reader)
    }

    /// Number of bytes of the static part of the encoding.
    pub fn size_static(&self) -> (r: usize)
        ensures
            r == self@.spec_static().len(),
    {
        proof {
            self@.lemma_offsets();
        }
        112
    }

    /// Where the gas price lies in the encoding.
    pub fn gas_price_offset(&self) -> (r: usize)
        ensures
            r == 8,
            self@.spec_static().subrange(8, 16) == spec_word(self@.gas_price),
    {
        proof {
            self@.header().lemma_fields();
        }
        8
    }

    /// Where the gas limit lies in the encoding.
    pub fn gas_limit_offset(&self) -> (r: usize)
        ensures
            r == 16,
            self@.spec_static().subrange(16, 24) == spec_word(self@.gas_limit),
    {
        proof {
            self@.header().lemma_fields();
        }
        16
    }

    /// Where the maturity lies in the encoding.
    pub fn maturity_offset(&self) -> (r: usize)
        ensures
            r == 24,
            self@.spec_static().subrange(24, 32) == spec_word(self@.maturity as u64),
    {
        proof {
            self@.header().lemma_fields();
        }
        24
    }

    /// Where the length of the bytecode lies in the encoding.
    pub fn bytecode_length_offset(&self) -> (r: usize)
        ensures
            r == 32,
            self@.spec_static().subrange(32, 40) == spec_word(self@.bytecode_length),
    {
        proof {
            self@.header().lemma_fields();
        }
        32
    }

    /// Where the index of the bytecode's witness lies in the encoding.
    pub fn bytecode_witness_index_offset(&self) -> (r: usize)
        ensures
            r == 40,
            self@.spec_static().subrange(40, 48) == spec_word(self@.bytecode_witness_index as u64),
    {
        proof {
            self@.header().lemma_fields();
        }
        40
    }

    /// Where the salt lies in the encoding.
    pub fn salt_offset(&self) -> (r: usize)
        ensures
            r == 48,
            self@.spec_static().subrange(48, 80) == self@.salt.0@,
    {
        proof {
            self@.header().lemma_fields();
        }
        48
    }

    /// Where the storage slot at `index` lies in the encoding, if there is
    /// such a slot.
    pub fn storage_slots_offset_at(&self, index: usize) -> (r: Option<usize>)
        ensures
            r == if index < self@.storage_slots.len() {
                Some(spec_saturate(112 + 64 * index))
            } else {
                None
            },
    {
        if index >= self.storage_slots.len() {
            None
        } else if index > (usize::MAX - 112) / 64 {
            Some(usize::MAX)
        } else {
            Some(112 + 64 * index)
        }
    }

    /// Where the storage slots start in the encoding.
    pub fn storage_slots_offset(&self) -> (r: usize)
        ensures
            r == self@.spec_storage_slots_offset(),
    {
        112
    }

    /// Where the inputs start in the encoding, saturating.
    pub fn inputs_offset(&self) -> (r: usize)
        ensures
            r == spec_saturate(self@.spec_inputs_offset() as int),
    {
        proof {
            lemma_slot_views(self.storage_slots@);
        }
        size_all(&self.storage_slots).saturating_add(112)
    }

    /// Where the outputs start in the encoding, saturating.
    pub fn outputs_offset(&self) -> (r: usize)
        ensures
            r == spec_saturate(self@.spec_outputs_offset() as int),
    {
        self.inputs_offset().saturating_add(size_all(&self.inputs))
    }

    /// Where the witnesses start in the encoding, saturating.
    pub fn witnesses_offset(&self) -> (r: usize)
        ensures
            r == spec_saturate(self@.spec_witnesses_offset() as int),
    {
        self.outputs_offset().saturating_add(size_all(&self.outputs))
    }

    /// Where the encoding of the input at `index` starts in the encoding of
    /// the transaction, saturating, if there is one.
    pub fn inputs_offset_at(&self, index: usize) -> (r: Option<usize>)
        ensures
            r == if index < self@.inputs.len() {
                Some(
                    spec_saturate(
                        (self@.spec_inputs_offset() + spec_offset_at::<Input>(
                            self@.inputs,
                            index as int,
                        )) as int,
                    ),
                )
            } else {
                None
            },
    {
        offset_in(self.inputs_offset(), &self.inputs, index)
    }

    /// Where the encoding of the output at `index` starts in the encoding of
    /// the transaction, saturating, if there is one.
    pub fn outputs_offset_at(&self, index: usize) -> (r: Option<usize>)
        ensures
            r == if index < self@.outputs.len() {
                Some(
                    spec_saturate(
                        (self@.spec_outputs_offset() + spec_offset_at::<Output>(
                            self@.outputs,
                            index as int,
                        )) as int,
                    ),
                )
            } else {
                None
            },
    {
        offset_in(self.outputs_offset(), &self.outputs, index)
    }

    /// Where the encoding of the witness at `index` starts in the encoding of
    /// the transaction, saturating, if there is one.
    pub fn witnesses_offset_at(&self, index: usize) -> (r: Option<usize>)
        ensures
            r == if index < self@.witnesses.len() {
                Some(
                    spec_saturate(
                        (self@.spec_witnesses_offset() + spec_offset_at::<Witness>(
                            self@.witnesses,
                            index as int,
                        )) as int,
                    ),
                )
            } else {
                None
            },
    {
        offset_in(self.witnesses_offset(), &self.witnesses, index)
    }

    /// Where the code of the predicate of the input at `index` starts in
    /// the encoding of the transaction, saturating, and how long it is, if
    /// there is such an input and a predicate unlocks it.
    pub fn inputs_predicate_offset_at(&self, index: usize) -> (r: Option<(usize, usize)>)
        ensures
            r == if index < self@.inputs.len()
                && self@.inputs[index as int].spec_predicate_offset() is Some {
                Some(
                    (
                        spec_saturate(
                            (self@.spec_inputs_offset() + spec_offset_at::<Input>(
                                self@.inputs,
                                index as int,
                            ) + self@.inputs[index as int].spec_predicate_offset().unwrap())
                                as int,
                        ),
                        self@.inputs[index as int].spec_predicate().unwrap().len() as usize,
                    ),
                )
            } else {
                None
            },
    {
        match self.inputs_offset_at(index) {
            Some(start) => match self.inputs[index].predicate_offset_and_len() {
                Some((offset, len)) => Some((start.saturating_add(offset), len)),
                None => None,
            },
            None => None,
        }
    }

    /// Number of bytes of the dynamic part of the encoding, saturating.
    pub fn size_dynamic(&self) -> (r: usize)
        ensures
            r == spec_saturate(self@.spec_dynamic().len() as int),
    {
        proof {
            lemma_slot_views(self.storage_slots@);
        }
        size_all(&self.storage_slots).saturating_add(size_all(&self.inputs)).saturating_add(
            size_all(&self.outputs),
        ).saturating_add(size_all(&self.witnesses))
    }

    /// Number of bytes of the encoding, saturating.
    pub fn size(&self) -> (r: usize)
        ensures
            r == spec_saturate(self@.spec_encode().len() as int),
    {
        proof {
            self@.lemma_offsets();
        }
        self.witnesses_offset().saturating_add(size_all(&self.witnesses))
    }

    /// Number of bytes of the encoding without its witnesses, saturating.
    /// This is the size that gas is charged for.
    pub fn metered_bytes_size(&self) -> (r: usize)
        ensures
            r == spec_saturate(self@.spec_metered_size() as int),
    {
        proof {
            self@.lemma_offsets();
        }
        self.witnesses_offset()
    }

    /// Appends the static part of the encoding to `buffer`.
    pub fn encode_static(&self, buffer: &mut Vec<u8>)
        ensures
            final(buffer)@ == old(buffer)@ + self@.spec_static(),
    {
        write_word(buffer, TRANSACTION_CREATE);
        write_fees(buffer, self.gas_price, self.gas_limit, self.maturity);
        write_word(buffer, self.bytecode_length);
        write_word(buffer, self.bytecode_witness_index as u64);
        write_raw(buffer, self.salt.0.as_slice());
        write_words4(
            buffer,
            self.storage_slots.len() as u64,
            self.inputs.len() as u64,
            self.outputs.len() as u64,
            self.witnesses.len() as u64,
        );
        assert(buffer@ =~= old(buffer)@ + self@.spec_static());
    }

    /// Appends to `buffer` the encoding that the transaction would have with
    /// the witnesses `witnesses`.
    pub fn encode_with(&self, witnesses: &Vec<Witness>, buffer: &mut Vec<u8>)
        ensures
            final(buffer)@ == old(buffer)@ + (CreateView {
                witnesses: spec_views(witnesses@),
                ..self@
            }).spec_encode(),
    {
        let ghost v = CreateView { witnesses: spec_views(witnesses@), ..self@ };
        proof {
            lemma_slot_views(self.storage_slots@);
        }
        write_word(buffer, TRANSACTION_CREATE);
        write_fees(buffer, self.gas_price, self.gas_limit, self.maturity);
        write_word(buffer, self.bytecode_length);
        write_word(buffer, self.bytecode_witness_index as u64);
        write_raw(buffer, self.salt.0.as_slice());
        write_words4(
            buffer,
            self.storage_slots.len() as u64,
            self.inputs.len() as u64,
            self.outputs.len() as u64,
            witnesses.len() as u64,
        );
        assert(buffer@ =~= old(buffer)@ + v.spec_static());
        let ghost mid = buffer@;
        encode_all(&self.storage_slots, buffer);
        encode_all(&self.inputs, buffer);
        encode_all(&self.outputs, buffer);
        encode_all(witnesses, buffer);
        assert(buffer@ =~= mid + v.spec_dynamic());
        proof {
            lemma_add_assoc(old(buffer)@, v.spec_static(), v.spec_dynamic());
        }
    }

    /// Gives the transaction another gas price.
    pub fn set_gas_price(&mut self, gas_price: Word)
        ensures
            final(self)@ == (CreateView { gas_price: gas_price, ..old(self)@ }),
    {
        proof {
            use_type_invariant(&*self);
        }
        self.gas_price = gas_price;
    }

    /// Gives the transaction another gas limit.
    pub fn set_gas_limit(&mut self, gas_limit: Word)
        ensures
            final(self)@ == (CreateView { gas_limit: gas_limit, ..old(self)@ }),
    {
        proof {
            use_type_invariant(&*self);
        }
        self.gas_limit = gas_limit;
    }

    /// Gives the transaction another maturity.
    pub fn set_maturity(&mut self, maturity: BlockHeight)
        ensures
            final(self)@ == (CreateView { maturity: maturity, ..old(self)@ }),
    {
        proof {
            use_type_invariant(&*self);
        }
        self.maturity = maturity;
    }

    /// Gives the transaction another length of the bytecode.
    pub fn set_bytecode_length(&mut self, bytecode_length: Word)
        ensures
            final(self)@ == (CreateView { bytecode_length: bytecode_length, ..old(self)@ }),
    {
        proof {
            use_type_invariant(&*self);
        }
        self.bytecode_length = bytecode_length;
    }

    /// Makes another witness the one that holds the bytecode.
    pub fn set_bytecode_witness_index(&mut self, bytecode_witness_index: u8)
        ensures
            final(self)@ == (CreateView { bytecode_witness_index: bytecode_witness_index, ..old(self)@ }),
    {
        proof {
            use_type_invariant(&*self);
        }
        self.bytecode_witness_index = bytecode_witness_index;
    }

    /// Gives the transaction another salt.
    pub fn set_salt(&mut self, salt: Salt)
        ensures
            final(self)@ == (CreateView { salt: salt, ..old(self)@ }),
    {
        proof {
            use_type_invariant(&*self);
        }
        self.salt = salt;
    }

    /// Gives the transaction other inputs.
    pub fn set_inputs(&mut self, inputs: Vec<Input>)
        ensures
            final(self)@ == (CreateView { inputs: spec_views(inputs@), ..old(self)@ }),
    {
        proof {
            use_type_invariant(&*self);
        }
        self.inputs = inputs;
    }

    /// Gives the transaction other outputs.
    pub fn set_outputs(&mut self, outputs: Vec<Output>)
        ensures
            final(self)@ == (CreateView { outputs: spec_views(outputs@), ..old(self)@ }),
    {
        proof {
            use_type_invariant(&*self);
        }
        self.outputs = outputs;
    }

    /// Gives the transaction other witnesses.
    pub fn set_witnesses(&mut self, witnesses: Vec<Witness>)
        ensures
            final(self)@ == (CreateView { witnesses: spec_views(witnesses@), ..old(self)@ }),
    {
        proof {
            use_type_invariant(&*self);
        }
        self.witnesses = witnesses;
    }

    /// Appends the dynamic part of the encoding to `buffer`.
    pub fn encode_dynamic(&self, buffer: &mut Vec<u8>)
        ensures
            final(buffer)@ == old(buffer)@ + self@.spec_dynamic(),
    {
        proof {
            lemma_slot_views(self.storage_slots@);
        }
        encode_all(&self.storage_slots, buffer);
        encode_all(&self.inputs, buffer);
        encode_all(&self.outputs, buffer);
        encode_all(&self.witnesses, buffer);
        assert(buffer@ =~= old(buffer)@ + self@.spec_dynamic());
    }

    /// Appends the encoding to `buffer`.
    pub fn encode(&self, buffer: &mut Vec<u8>)
        ensures
            final(buffer)@ == old(buffer)@ + self@.spec_encode(),
            self@.valid(),
    {
        proof {
            use_type_invariant(self);
            self.lemma_valid();
        }
        self.encode_static(buffer);
        self.encode_dynamic(buffer);
        proof {
            lemma_add_assoc(old(buffer)@, self@.spec_static(), self@.spec_dynamic());
        }
    }
}

impl Executable for Create {
    open spec fn spec_inputs(v: CreateView) -> Seq<InputView> {
        v.inputs
    }

    open spec fn spec_outputs(v: CreateView) -> Seq<Output> {
        v.outputs
    }

    open spec fn spec_witnesses(v: CreateView) -> Seq<Seq<u8>> {
        v.witnesses
    }

    open spec fn spec_with(
        v: CreateView,
        inputs: Seq<InputView>,
        outputs: Seq<Output>,
        witnesses: Seq<Seq<u8>>,
    ) -> CreateView {
        CreateView { inputs, outputs, witnesses, ..v }
    }

    fn inputs(&self) -> (r: &Vec<Input>) {
        &self.inputs
    }

    fn outputs(&self) -> (r: &Vec<Output>) {
        &self.outputs
    }

    fn witnesses(&self) -> (r: &Vec<Witness>) {
        &self.witnesses
    }

    fn add_unsigned_coin_input(
        &mut self,
        utxo_id: UtxoId,
        owner: &PublicKey,
        amount: Word,
        asset_id: AssetId,
        tx_pointer: TxPointer,
        maturity: BlockHeight,
        witness_index: u8,
    ) {
        let owner = Input::owner(owner);
        let input = Input::coin_signed(
            utxo_id,
            owner,
            amount,
            asset_id,
            tx_pointer,
            witness_index,
            maturity,
        );
        proof {
            use_type_invariant(&*self);
        }
        let mut inputs: Vec<Input> = Vec::new();
        core::mem::swap(&mut self.inputs, &mut inputs);
        inputs.push(input);
        self.inputs = inputs;
        proof {
            assert(spec_views(self.inputs@).drop_last() =~= spec_views(old(self).inputs@));
        }
    }

    fn add_unsigned_message_input(
        &mut self,
        sender: Address,
        recipient: Address,
        nonce: Nonce,
        amount: Word,
        data: Vec<u8>,
        witness_index: u8,
    ) {
        let input = unsigned_message_input(sender, recipient, nonce, amount, data, witness_index);
        proof {
            use_type_invariant(&*self);
        }
        let mut inputs: Vec<Input> = Vec::new();
        core::mem::swap(&mut self.inputs, &mut inputs);
        inputs.push(input);
        self.inputs = inputs;
        proof {
            assert(spec_views(self.inputs@) =~= spec_views(old(self).inputs@).push(input@));
        }
    }

    fn prepare_init_script(&mut self) {
        proof {
            use_type_invariant(&*self);
        }
        let mut outputs: Vec<Output> = Vec::new();
        core::mem::swap(&mut self.outputs, &mut outputs);
        prepare_outputs_for_script(&mut outputs);
        self.outputs = outputs;
        proof {
            lemma_output_views(self.outputs@);
            lemma_output_views(old(self).outputs@);
        }
    }

    fn prepare_init_predicate(&mut self) {
        proof {
            use_type_invariant(&*self);
        }
        let mut inputs: Vec<Input> = Vec::new();
        core::mem::swap(&mut self.inputs, &mut inputs);
        prepare_inputs_for_predicate(&mut inputs);
        self.inputs = inputs;
        let mut outputs: Vec<Output> = Vec::new();
        core::mem::swap(&mut self.outputs, &mut outputs);
        prepare_outputs_for_predicate(&mut outputs);
        self.outputs = outputs;
        proof {
            lemma_output_views(self.outputs@);
            lemma_output_views(old(self).outputs@);
        }
    }
}

/// Length of the bytecode of a contract in words of four bytes: that of the
/// witness at `index`, or zero where there is none.
pub open spec fn spec_bytecode_length(witnesses: Seq<Seq<u8>>, index: u8) -> Word {
    if index < witnesses.len() {
        (witnesses[index as int].len() / 4) as u64
    } else {
        0
    }
}

} // verus!
