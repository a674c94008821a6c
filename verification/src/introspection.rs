//! Where the inputs, outputs and witnesses of a transaction lie in its byte
//! image, and the instructions through which a running program asks for
//! these places.

use vstd::prelude::*;

use crate::codec::{
    lemma_encoding_at_offset, offset_at, spec_encode_all, spec_offset_at, spec_saturate,
    spec_views, Canonical,
};
use crate::consts::{MEM_SIZE, VM_TX_MEMORY};
use crate::error::PanicReason;
use crate::executable::Executable;
use crate::input::{Input, InputView};
use crate::mint::Mint;
use crate::output::Output;
use crate::script::Script;
use crate::transaction::{Transaction, TransactionView};
use crate::types::{Witness, Word};

verus! {

/// Number of registers of the machine.
pub const VM_REGISTER_COUNT: usize = 64;

/// Index of a register.
pub type RegisterId = usize;

/// Within a byte string that holds the encodings of `vs` from `base` on,
/// the encoding of each value lies at its offset from `base`.
pub proof fn lemma_element_at_offset<T: Canonical>(
    bytes: Seq<u8>,
    base: int,
    vs: Seq<T::V>,
    index: int,
)
    requires
        0 <= base,
        base + spec_encode_all::<T>(vs).len() <= bytes.len(),
        bytes.subrange(base, base + spec_encode_all::<T>(vs).len()) == spec_encode_all::<T>(vs),
        0 <= index < vs.len(),
    ensures
        base + spec_offset_at::<T>(vs, index) + T::spec_encode(vs[index]).len() <= bytes.len(),
        bytes.subrange(
            base + spec_offset_at::<T>(vs, index),
            base + spec_offset_at::<T>(vs, index) + T::spec_encode(vs[index]).len(),
        ) == T::spec_encode(vs[index]),
{
    lemma_encoding_at_offset::<T>(vs, index);
    let all = spec_encode_all::<T>(vs);
    let offset = spec_offset_at::<T>(vs, index) as int;
    let len = T::spec_encode(vs[index]).len() as int;
    assert(bytes.subrange(base + offset, base + offset + len) =~= bytes.subrange(
        base,
        base + all.len(),
    ).subrange(offset, offset + len));
}

impl TransactionView {
    /// The inputs of the transaction; a mint has none.
    pub open spec fn spec_inputs(self) -> Seq<InputView> {
        match self {
            TransactionView::Script(script) => script.inputs,
            TransactionView::Create(create) => create.inputs,
            TransactionView::Mint(_) => Seq::empty(),
        }
    }

    /// The outputs of the transaction; a mint has none.
    pub open spec fn spec_outputs(self) -> Seq<Output> {
        match self {
            TransactionView::Script(script) => script.outputs,
            TransactionView::Create(create) => create.outputs,
            TransactionView::Mint(_) => Seq::empty(),
        }
    }

    /// The witnesses of the transaction; a mint has none.
    pub open spec fn spec_witnesses(self) -> Seq<Seq<u8>> {
        match self {
            TransactionView::Script(script) => script.witnesses,
            TransactionView::Create(create) => create.witnesses,
            TransactionView::Mint(_) => Seq::empty(),
        }
    }

    /// Where the inputs start in the encoding.
    pub open spec fn spec_inputs_offset(self) -> nat {
        match self {
            TransactionView::Script(script) => script.spec_inputs_offset(),
            TransactionView::Create(create) => create.spec_inputs_offset(),
            TransactionView::Mint(mint) => self.spec_encode().len(),
        }
    }

    /// Where the outputs start in the encoding.
    pub open spec fn spec_outputs_offset(self) -> nat {
        match self {
            TransactionView::Script(script) => script.spec_outputs_offset(),
            TransactionView::Create(create) => create.spec_outputs_offset(),
            TransactionView::Mint(mint) => self.spec_encode().len(),
        }
    }

    /// Where the witnesses start in the encoding.
    pub open spec fn spec_witnesses_offset(self) -> nat {
        match self {
            TransactionView::Script(script) => script.spec_witnesses_offset(),
            TransactionView::Create(create) => create.spec_witnesses_offset(),
            TransactionView::Mint(mint) => self.spec_encode().len(),
        }
    }

    /// Where the input at `index` starts in the encoding, if there is one.
    pub open spec fn spec_input_offset(self, index: int) -> Option<nat> {
        if 0 <= index < self.spec_inputs().len() {
            Some(self.spec_inputs_offset() + spec_offset_at::<Input>(self.spec_inputs(), index))
        } else {
            None
        }
    }

    /// Where the output at `index` starts in the encoding, if there is one.
    pub open spec fn spec_output_offset(self, index: int) -> Option<nat> {
        if 0 <= index < self.spec_outputs().len() {
            Some(self.spec_outputs_offset() + spec_offset_at::<Output>(self.spec_outputs(), index))
        } else {
            None
        }
    }

    /// Where the witness at `index` starts in the encoding, if there is one.
    pub open spec fn spec_witness_offset(self, index: int) -> Option<nat> {
        if 0 <= index < self.spec_witnesses().len() {
            Some(
                self.spec_witnesses_offset() + spec_offset_at::<Witness>(
                    self.spec_witnesses(),
                    index,
                ),
            )
        } else {
            None
        }
    }

    /// Number of bytes of the encoding of the input at `index`.
    pub open spec fn spec_input_length(self, index: int) -> Option<nat> {
        if 0 <= index < self.spec_inputs().len() {
            Some(Input::spec_encode(self.spec_inputs()[index]).len())
        } else {
            None
        }
    }

    /// Number of bytes of the encoding of the output at `index`.
    pub open spec fn spec_output_length(self, index: int) -> Option<nat> {
        if 0 <= index < self.spec_outputs().len() {
            Some(Output::spec_encode(self.spec_outputs()[index]).len())
        } else {
            None
        }
    }

    /// Number of bytes of the encoding of the witness at `index`.
    pub open spec fn spec_witness_length(self, index: int) -> Option<nat> {
        if 0 <= index < self.spec_witnesses().len() {
            Some(Witness::spec_encode(self.spec_witnesses()[index]).len())
        } else {
            None
        }
    }

    /// The encodings of the inputs, of the outputs and of the witnesses lie
    /// in the encoding of the transaction at their offsets.
    pub proof fn lemma_segments(self)
        ensures
            self.spec_inputs_offset() <= self.spec_outputs_offset() <= self.spec_witnesses_offset()
                <= self.spec_encode().len(),
            self.spec_encode().subrange(
                self.spec_inputs_offset() as int,
                (self.spec_inputs_offset() + spec_encode_all::<Input>(self.spec_inputs()).len())
                    as int,
            ) == spec_encode_all::<Input>(self.spec_inputs()),
            self.spec_encode().subrange(
                self.spec_outputs_offset() as int,
                (self.spec_outputs_offset() + spec_encode_all::<Output>(
                    self.spec_outputs(),
                ).len()) as int,
            ) == spec_encode_all::<Output>(self.spec_outputs()),
            self.spec_encode().subrange(
                self.spec_witnesses_offset() as int,
                (self.spec_witnesses_offset() + spec_encode_all::<Witness>(
                    self.spec_witnesses(),
                ).len()) as int,
            ) == spec_encode_all::<Witness>(self.spec_witnesses()),
            self.spec_inputs_offset() + spec_encode_all::<Input>(self.spec_inputs()).len()
                <= self.spec_encode().len(),
            self.spec_outputs_offset() + spec_encode_all::<Output>(self.spec_outputs()).len()
                <= self.spec_encode().len(),
            self.spec_witnesses_offset() + spec_encode_all::<Witness>(self.spec_witnesses()).len()
                <= self.spec_encode().len(),
    {
        match self {
            TransactionView::Script(script) => {
                script.lemma_segments();
            },
            TransactionView::Create(create) => {
                create.lemma_segments();
            },
            TransactionView::Mint(_) => {
                let n = self.spec_encode().len() as int;
                assert(self.spec_encode().subrange(n, n) =~= Seq::<u8>::empty());
            },
        }
    }

    /// The bytes of the encoding from the offset of an input on, as many as
    /// its length says, are the encoding of that input; and the next input
    /// starts where it ends.
    pub proof fn lemma_input_at_offset(self, index: int)
        requires
            0 <= index < self.spec_inputs().len(),
        ensures
            self.spec_input_offset(index).unwrap() + self.spec_input_length(index).unwrap()
                <= self.spec_encode().len(),
            self.spec_encode().subrange(
                self.spec_input_offset(index).unwrap() as int,
                (self.spec_input_offset(index).unwrap() + self.spec_input_length(index).unwrap())
                    as int,
            ) == Input::spec_encode(self.spec_inputs()[index]),
            index + 1 < self.spec_inputs().len() ==> self.spec_input_offset(index + 1).unwrap()
                == self.spec_input_offset(index).unwrap() + self.spec_input_length(
                index,
            ).unwrap(),
    {
        self.lemma_segments();
        lemma_element_at_offset::<Input>(
            self.spec_encode(),
            self.spec_inputs_offset() as int,
            self.spec_inputs(),
            index,
        );
        lemma_encoding_at_offset::<Input>(self.spec_inputs(), index);
    }

    /// The bytes of the encoding from the offset of an output on, as many as
    /// its length says, are the encoding of that output.
    pub proof fn lemma_output_at_offset(self, index: int)
        requires
            0 <= index < self.spec_outputs().len(),
        ensures
            self.spec_output_offset(index).unwrap() + self.spec_output_length(index).unwrap()
                <= self.spec_encode().len(),
            self.spec_encode().subrange(
                self.spec_output_offset(index).unwrap() as int,
                (self.spec_output_offset(index).unwrap() + self.spec_output_length(
                    index,
                ).unwrap()) as int,
            ) == Output::spec_encode(self.spec_outputs()[index]),
    {
        self.lemma_segments();
        lemma_element_at_offset::<Output>(
            self.spec_encode(),
            self.spec_outputs_offset() as int,
            self.spec_outputs(),
            index,
        );
    }

    /// The bytes of the encoding from the offset of a witness on, as many as
    /// its length says, are the encoding of that witness.
    pub proof fn lemma_witness_at_offset(self, index: int)
        requires
            0 <= index < self.spec_witnesses().len(),
        ensures
            self.spec_witness_offset(index).unwrap() + self.spec_witness_length(index).unwrap()
                <= self.spec_encode().len(),
            self.spec_encode().subrange(
                self.spec_witness_offset(index).unwrap() as int,
                (self.spec_witness_offset(index).unwrap() + self.spec_witness_length(
                    index,
                ).unwrap()) as int,
            ) == Witness::spec_encode(self.spec_witnesses()[index]),
    {
        self.lemma_segments();
        lemma_element_at_offset::<Witness>(
            self.spec_encode(),
            self.spec_witnesses_offset() as int,
            self.spec_witnesses(),
            index,
        );
    }

    /// In a memory that holds the image of the transaction at
    /// `VM_TX_MEMORY`, the bytes from the start of an input on, as many as
    /// its length says, are the encoding of that input.
    pub proof fn lemma_input_in_memory(self, memory: Seq<u8>, index: int)
        requires
            memory.len() == MEM_SIZE,
            VM_TX_MEMORY + self.spec_encode().len() <= MEM_SIZE,
            memory.subrange(VM_TX_MEMORY as int, VM_TX_MEMORY + self.spec_encode().len())
                == self.spec_encode(),
            0 <= index < self.spec_inputs().len(),
        ensures
            memory.subrange(
                VM_TX_MEMORY + self.spec_input_offset(index).unwrap(),
                VM_TX_MEMORY + self.spec_input_offset(index).unwrap() + self.spec_input_length(
                    index,
                ).unwrap(),
            ) == Input::spec_encode(self.spec_inputs()[index]),
    {
        self.lemma_input_at_offset(index);
        let image = self.spec_encode();
        let offset = self.spec_input_offset(index).unwrap() as int;
        let len = self.spec_input_length(index).unwrap() as int;
        assert(memory.subrange(VM_TX_MEMORY + offset, VM_TX_MEMORY + offset + len)
            =~= memory.subrange(VM_TX_MEMORY as int, VM_TX_MEMORY + image.len()).subrange(
            offset,
            offset + len,
        ));
    }
}

impl Transaction {
    /// The sequences of a transaction are no longer than memory allows.
    pub proof fn lemma_counts(&self)
        ensures
            self@.spec_inputs().len() <= usize::MAX,
            self@.spec_outputs().len() <= usize::MAX,
            self@.spec_witnesses().len() <= usize::MAX,
    {
        match self {
            Transaction::Script(script) => {
                assert(script.inputs.len() <= usize::MAX);
                assert(script.outputs.len() <= usize::MAX);
                assert(script.witnesses.len() <= usize::MAX);
            },
            Transaction::Create(create) => {
                create.lemma_counts();
            },
            Transaction::Mint(_) => {},
        }
    }

    /// The inputs of the transaction; a mint has none.
    pub fn inputs(&self) -> (r: Option<&Vec<Input>>)
        ensures
            match r {
                Some(inputs) => !(*self is Mint) && spec_views(inputs@) == self@.spec_inputs(),
                None => *self is Mint,
            },
    {
        match self {
            Transaction::Script(script) => Some(script.inputs()),
            Transaction::Create(create) => Some(create.inputs()),
            Transaction::Mint(_) => None,
        }
    }

    /// The outputs of the transaction; a mint has none.
    pub fn outputs(&self) -> (r: Option<&Vec<Output>>)
        ensures
            match r {
                Some(outputs) => !(*self is Mint) && spec_views(outputs@) == self@.spec_outputs(),
                None => *self is Mint,
            },
    {
        match self {
            Transaction::Script(script) => Some(script.outputs()),
            Transaction::Create(create) => Some(create.outputs()),
            Transaction::Mint(_) => None,
        }
    }

    /// The witnesses of the transaction; a mint has none.
    pub fn witnesses(&self) -> (r: Option<&Vec<Witness>>)
        ensures
            match r {
                Some(witnesses) => !(*self is Mint) && spec_views(witnesses@)
                    == self@.spec_witnesses(),
                None => *self is Mint,
            },
    {
        match self {
            Transaction::Script(script) => Some(script.witnesses()),
            Transaction::Create(create) => Some(create.witnesses()),
            Transaction::Mint(_) => None,
        }
    }

    /// Where the input at `index` starts in the encoding, saturating, if
    /// there is such an input.
    pub fn input_offset(&self, index: usize) -> (r: Option<usize>)
        ensures
            match self@.spec_input_offset(index as int) {
                Some(offset) => r == Some(spec_saturate(offset as int)),
                None => r is None,
            },
    {
        match self {
            Transaction::Script(script) => if index < script.inputs.len() {
                Some(script.inputs_offset().saturating_add(offset_at(&script.inputs, index)))
            } else {
                None
            },
            Transaction::Create(create) => if index < create.inputs().len() {
                Some(create.inputs_offset().saturating_add(offset_at(create.inputs(), index)))
            } else {
                None
            },
            Transaction::Mint(_) => None,
        }
    }

    /// Where the output at `index` starts in the encoding, saturating, if
    /// there is such an output.
    pub fn output_offset(&self, index: usize) -> (r: Option<usize>)
        ensures
            match self@.spec_output_offset(index as int) {
                Some(offset) => r == Some(spec_saturate(offset as int)),
                None => r is None,
            },
    {
        match self {
            Transaction::Script(script) => if index < script.outputs.len() {
                Some(script.outputs_offset().saturating_add(offset_at(&script.outputs, index)))
            } else {
                None
            },
            Transaction::Create(create) => if index < create.outputs().len() {
                Some(create.outputs_offset().saturating_add(offset_at(create.outputs(), index)))
            } else {
                None
            },
            Transaction::Mint(_) => None,
        }
    }

    /// Where the witness at `index` starts in the encoding, saturating, if
    /// there is such a witness.
    pub fn witness_offset(&self, index: usize) -> (r: Option<usize>)
        ensures
            match self@.spec_witness_offset(index as int) {
                Some(offset) => r == Some(spec_saturate(offset as int)),
                None => r is None,
            },
    {
        match self {
            Transaction::Script(script) => if index < script.witnesses.len() {
                Some(script.witnesses_offset().saturating_add(offset_at(&script.witnesses, index)))
            } else {
                None
            },
            Transaction::Create(create) => if index < create.witnesses().len() {
                Some(
                    create.witnesses_offset().saturating_add(offset_at(create.witnesses(), index)),
                )
            } else {
                None
            },
            Transaction::Mint(_) => None,
        }
    }

    /// Number of bytes of the encoding of the input at `index`, saturating,
    /// if there is such an input.
    pub fn input_length(&self, index: usize) -> (r: Option<usize>)
        ensures
            match self@.spec_input_length(index as int) {
                Some(len) => r == Some(spec_saturate(len as int)),
                None => r is None,
            },
    {
        match self.inputs() {
            Some(inputs) => if index < inputs.len() {
                Some(inputs[index].size())
            } else {
                None
            },
            None => None,
        }
    }

    /// Number of bytes of the encoding of the output at `index`, if there is
    /// such an output.
    pub fn output_length(&self, index: usize) -> (r: Option<usize>)
        ensures
            match self@.spec_output_length(index as int) {
                Some(len) => r == Some(spec_saturate(len as int)),
                None => r is None,
            },
    {
        match self.outputs() {
            Some(outputs) => if index < outputs.len() {
                Some(outputs[index].size())
            } else {
                None
            },
            None => None,
        }
    }

    /// Number of bytes of the encoding of the witness at `index`,
    /// saturating, if there is such a witness.
    pub fn witness_length(&self, index: usize) -> (r: Option<usize>)
        ensures
            match self@.spec_witness_length(index as int) {
                Some(len) => r == Some(spec_saturate(len as int)),
                None => r is None,
            },
    {
        match self.witnesses() {
            Some(witnesses) => if index < witnesses.len() {
                Some(witnesses[index].size())
            } else {
                None
            },
            None => None,
        }
    }
}

/// The address in memory of what lies at `offset` in the image of the
/// transaction, saturating.
pub open spec fn spec_tx_address(offset: nat) -> Word {
    spec_saturate(VM_TX_MEMORY + offset) as Word
}

/// The state that the introspection instructions work on: the registers and
/// the transaction that runs.
#[derive(Debug, Clone, PartialEq, Eq)]
pub struct Interpreter {
    pub registers: [Word; 64],
    pub tx: Transaction,
}

impl Interpreter {
    /// An interpreter for `tx` with all registers at zero.
    pub fn new(tx: Transaction) -> (r: Interpreter)
        ensures
            r.tx == tx,
            forall|i: int| 0 <= i < 64 ==> r.registers@[i] == 0,
    {
        Interpreter { registers: [0u64; 64], tx }
    }

    fn set_or_fail(&mut self, ra: RegisterId, value: Option<usize>, reason: PanicReason) -> (r:
        Result<(), PanicReason>)
        requires
            ra < VM_REGISTER_COUNT,
        ensures
            final(self).tx == old(self).tx,
            match value {
                Some(v) => r is Ok && final(self).registers@ == old(self).registers@.update(
                    ra as int,
                    v as Word,
                ),
                None => r == Err::<(), PanicReason>(reason) && final(self).registers == old(self).registers,
            },
    {
        match value {
            Some(v) => {
                self.registers[ra] = v as Word;
                Ok(())
            },
            None => Err(reason),
        }
    }

    /// Puts the length of the encoding of the input at index `b` into the
    /// register `ra`; fails with `InputNotFound` where there is no such
    /// input.
    pub fn transaction_input_length(&mut self, ra: RegisterId, b: Word) -> (r: Result<
        (),
        PanicReason,
    >)
        requires
            ra < VM_REGISTER_COUNT,
        ensures
            final(self).tx == old(self).tx,
            match old(self).tx@.spec_input_length(b as int) {
                Some(len) => r is Ok && final(self).registers@ == old(self).registers@.update(
                    ra as int,
                    spec_saturate(len as int) as Word,
                ),
                None => r == Err::<(), PanicReason>(PanicReason::InputNotFound) && final(self).registers == old(self).registers,
            },
    {
        proof {
            self.tx.lemma_counts();
        }
        let value = if b <= usize::MAX as u64 {
            self.tx.input_length(b as usize)
        } else {
            None
        };
        self.set_or_fail(ra, value, PanicReason::InputNotFound)
    }

    /// Puts the address in memory of the input at index `b` into the
    /// register `ra`; fails with `InputNotFound` where there is no such
    /// input.
    pub fn transaction_input_start(&mut self, ra: RegisterId, b: Word) -> (r: Result<
        (),
        PanicReason,
    >)
        requires
            ra < VM_REGISTER_COUNT,
        ensures
            final(self).tx == old(self).tx,
            match old(self).tx@.spec_input_offset(b as int) {
                Some(offset) => r is Ok && final(self).registers@ == old(self).registers@.update(
                    ra as int,
                    spec_tx_address(offset),
                ),
                None => r == Err::<(), PanicReason>(PanicReason::InputNotFound) && final(self).registers == old(self).registers,
            },
    {
        proof {
            self.tx.lemma_counts();
        }
        let offset = if b <= usize::MAX as u64 {
            self.tx.input_offset(b as usize)
        } else {
            None
        };
        let value = match offset {
            Some(o) => Some(o.saturating_add(VM_TX_MEMORY)),
            None => None,
        };
        self.set_or_fail(ra, value, PanicReason::InputNotFound)
    }

    /// Puts the length of the encoding of the output at index `b` into the
    /// register `ra`; fails with `OutputNotFound` where there is no such
    /// output.
    pub fn transaction_output_length(&mut self, ra: RegisterId, b: Word) -> (r: Result<
        (),
        PanicReason,
    >)
        requires
            ra < VM_REGISTER_COUNT,
        ensures
            final(self).tx == old(self).tx,
            match old(self).tx@.spec_output_length(b as int) {
                Some(len) => r is Ok && final(self).registers@ == old(self).registers@.update(
                    ra as int,
                    spec_saturate(len as int) as Word,
                ),
                None => r == Err::<(), PanicReason>(PanicReason::OutputNotFound) && final(self).registers == old(self).registers,
            },
    {
        proof {
            self.tx.lemma_counts();
        }
        let value = if b <= usize::MAX as u64 {
            self.tx.output_length(b as usize)
        } else {
            None
        };
        self.set_or_fail(ra, value, PanicReason::OutputNotFound)
    }

    /// Puts the address in memory of the output at index `b` into the
    /// register `ra`; fails with `OutputNotFound` where there is no such
    /// output.
    pub fn transaction_output_start(&mut self, ra: RegisterId, b: Word) -> (r: Result<
        (),
        PanicReason,
    >)
        requires
            ra < VM_REGISTER_COUNT,
        ensures
            final(self).tx == old(self).tx,
            match old(self).tx@.spec_output_offset(b as int) {
                Some(offset) => r is Ok && final(self).registers@ == old(self).registers@.update(
                    ra as int,
                    spec_tx_address(offset),
                ),
                None => r == Err::<(), PanicReason>(PanicReason::OutputNotFound) && final(self).registers == old(self).registers,
            },
    {
        proof {
            self.tx.lemma_counts();
        }
        let offset = if b <= usize::MAX as u64 {
            self.tx.output_offset(b as usize)
        } else {
            None
        };
        let value = match offset {
            Some(o) => Some(o.saturating_add(VM_TX_MEMORY)),
            None => None,
        };
        self.set_or_fail(ra, value, PanicReason::OutputNotFound)
    }

    /// Puts the length of the encoding of the witness at index `b` into the
    /// register `ra`; fails with `WitnessNotFound` where there is no such
    /// witness.
    pub fn transaction_witness_length(&mut self, ra: RegisterId, b: Word) -> (r: Result<
        (),
        PanicReason,
    >)
        requires
            ra < VM_REGISTER_COUNT,
        ensures
            final(self).tx == old(self).tx,
            match old(self).tx@.spec_witness_length(b as int) {
                Some(len) => r is Ok && final(self).registers@ == old(self).registers@.update(
                    ra as int,
                    spec_saturate(len as int) as Word,
                ),
                None => r == Err::<(), PanicReason>(PanicReason::WitnessNotFound) && final(self).registers == old(self).registers,
            },
    {
        proof {
            self.tx.lemma_counts();
        }
        let value = if b <= usize::MAX as u64 {
            self.tx.witness_length(b as usize)
        } else {
            None
        };
        self.set_or_fail(ra, value, PanicReason::WitnessNotFound)
    }

    /// Puts the address in memory of the witness at index `b` into the
    /// register `ra`; fails with `WitnessNotFound` where there is no such
    /// witness.
    pub fn transaction_witness_start(&mut self, ra: RegisterId, b: Word) -> (r: Result<
        (),
        PanicReason,
    >)
        requires
            ra < VM_REGISTER_COUNT,
        ensures
            final(self).tx == old(self).tx,
            match old(self).tx@.spec_witness_offset(b as int) {
                Some(offset) => r is Ok && final(self).registers@ == old(self).registers@.update(
                    ra as int,
                    spec_tx_address(offset),
                ),
                None => r == Err::<(), PanicReason>(PanicReason::WitnessNotFound) && final(self).registers == old(self).registers,
            },
    {
        proof {
            self.tx.lemma_counts();
        }
        let offset = if b <= usize::MAX as u64 {
            self.tx.witness_offset(b as usize)
        } else {
            None
        };
        let value = match offset {
            Some(o) => Some(o.saturating_add(VM_TX_MEMORY)),
            None => None,
        };
        self.set_or_fail(ra, value, PanicReason::WitnessNotFound)
    }
}

} // verus!
