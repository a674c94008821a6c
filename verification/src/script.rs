//! Transactions that run a script.

use vstd::prelude::*;

use crate::codec::{
    aligned_size, decode_all, encode_all, lemma_add_assoc, lemma_all_valid,
    lemma_decode_encode_all, lemma_padded_len, lemma_read_array32, lemma_read_bounded,
    lemma_read_bytes, lemma_read_word, lemma_regroup3, lemma_regroup4, lemma_regroup5,
    lemma_word_len, offset_in, size_all, spec_offset_at, spec_aligned, spec_all_valid, spec_decode_all, spec_encode_all,
    spec_padded, spec_read_array32, spec_read_bounded, spec_read_bytes, spec_read_word,
    spec_saturate, spec_views, spec_word, write_padded, write_raw, write_word, Canonical,
    DecodeError, Field, Reader,
};
use crate::input::{Input, InputView};
use crate::output::Output;
use crate::types::{BlockHeight, Bytes32, Witness, Word};

verus! {

/// Tag of a script transaction in the byte format.
pub const TRANSACTION_SCRIPT: u64 = 0;

/// Tag of a transaction that creates a contract in the byte format.
pub const TRANSACTION_CREATE: u64 = 1;

/// Tag of a transaction that mints coins in the byte format.
pub const TRANSACTION_MINT: u64 = 2;

/// The bytes of a gas price, a gas limit and a maturity.
pub open spec fn spec_fees(gas_price: Word, gas_limit: Word, maturity: BlockHeight) -> Seq<u8> {
    spec_word(gas_price) + spec_word(gas_limit) + spec_word(maturity as u64)
}

/// Reads a gas price, a gas limit and a maturity.
pub open spec fn spec_read_fees(s: Seq<u8>) -> Result<
    ((Word, Word, BlockHeight), Seq<u8>),
    DecodeError,
> {
    match spec_read_word(s) {
        Err(e) => Err(e),
        Ok((gas_price, s)) => match spec_read_word(s) {
            Err(e) => Err(e),
            Ok((gas_limit, s)) => match spec_read_bounded(s, 0xffff_ffff, Field::Maturity) {
                Err(e) => Err(e),
                Ok((maturity, s)) => Ok(((gas_price, gas_limit, maturity as u32), s)),
            },
        },
    }
}

/// Fees are read back as they were written.
pub proof fn lemma_read_fees(
    gas_price: Word,
    gas_limit: Word,
    maturity: BlockHeight,
    rest: Seq<u8>,
)
    ensures
        spec_fees(gas_price, gas_limit, maturity).len() == 24,
        spec_read_fees(spec_fees(gas_price, gas_limit, maturity) + rest) == Ok::<
            ((Word, Word, BlockHeight), Seq<u8>),
            DecodeError,
        >(((gas_price, gas_limit, maturity), rest)),
{
    lemma_word_len();
    let t2 = spec_word(maturity as u64) + rest;
    let t1 = spec_word(gas_limit) + t2;
    lemma_regroup3(spec_word(gas_price), spec_word(gas_limit), spec_word(maturity as u64), rest);
    lemma_read_word(gas_price, t1);
    lemma_read_word(gas_limit, t2);
    lemma_read_bounded(maturity as u64, 0xffff_ffff, Field::Maturity, rest);
}

/// Appends a gas price, a gas limit and a maturity to `buffer`.
pub fn write_fees(buffer: &mut Vec<u8>, gas_price: Word, gas_limit: Word, maturity: BlockHeight)
    ensures
        final(buffer)@ == old(buffer)@ + spec_fees(gas_price, gas_limit, maturity),
{
    write_word(buffer, gas_price);
    write_word(buffer, gas_limit);
    write_word(buffer, maturity as u64);
    assert(buffer@ =~= old(buffer)@ + spec_fees(gas_price, gas_limit, maturity));
}

/// Reads a gas price, a gas limit and a maturity from `reader`.
pub fn read_fees(reader: &mut Reader) -> (r: Result<(Word, Word, BlockHeight), DecodeError>)
    ensures
        match spec_read_fees(old(reader).remaining()) {
            Ok((v, rest)) => r == Ok::<(Word, Word, BlockHeight), DecodeError>(v)
                && final(reader).remaining() == rest,
            Err(e) => r == Err::<(Word, Word, BlockHeight), DecodeError>(e),
        },
{
    let gas_price = match reader.read_word() {
        Ok(x) => x,
        Err(e) => {
            return Err(e);
        },
    };
    let gas_limit = match reader.read_word() {
        Ok(x) => x,
        Err(e) => {
            return Err(e);
        },
    };
    let maturity = match reader.read_u32(Field::Maturity) {
        Ok(x) => x,
        Err(e) => {
            return Err(e);
        },
    };
    Ok((gas_price, gas_limit, maturity))
}

/// The bytes of four words.
pub open spec fn spec_words4(w: (u64, u64, u64, u64)) -> Seq<u8> {
    spec_word(w.0) + spec_word(w.1) + spec_word(w.2) + spec_word(w.3)
}

/// Reads four words.
pub open spec fn spec_read_words4(s: Seq<u8>) -> Result<((u64, u64, u64, u64), Seq<u8>), DecodeError> {
    match spec_read_word(s) {
        Err(e) => Err(e),
        Ok((a, s)) => match spec_read_word(s) {
            Err(e) => Err(e),
            Ok((b, s)) => match spec_read_word(s) {
                Err(e) => Err(e),
                Ok((c, s)) => match spec_read_word(s) {
                    Err(e) => Err(e),
                    Ok((d, s)) => Ok(((a, b, c, d), s)),
                },
            },
        },
    }
}

/// Four words are read back as they were written.
pub proof fn lemma_read_words4(w: (u64, u64, u64, u64), rest: Seq<u8>)
    ensures
        spec_words4(w).len() == 32,
        spec_read_words4(spec_words4(w) + rest) == Ok::<
            ((u64, u64, u64, u64), Seq<u8>),
            DecodeError,
        >((w, rest)),
{
    lemma_word_len();
    let t3 = spec_word(w.3) + rest;
    let t2 = spec_word(w.2) + t3;
    let t1 = spec_word(w.1) + t2;
    lemma_regroup4(spec_word(w.0), spec_word(w.1), spec_word(w.2), spec_word(w.3), rest);
    lemma_read_word(w.0, t1);
    lemma_read_word(w.1, t2);
    lemma_read_word(w.2, t3);
    lemma_read_word(w.3, rest);
}

/// Appends four words to `buffer`.
pub fn write_words4(buffer: &mut Vec<u8>, a: u64, b: u64, c: u64, d: u64)
    ensures
        final(buffer)@ == old(buffer)@ + spec_words4((a, b, c, d)),
{
    write_word(buffer, a);
    write_word(buffer, b);
    write_word(buffer, c);
    write_word(buffer, d);
    assert(buffer@ =~= old(buffer)@ + spec_words4((a, b, c, d)));
}

/// Reads four words from `reader`.
pub fn read_words4(reader: &mut Reader) -> (r: Result<(u64, u64, u64, u64), DecodeError>)
    ensures
        match spec_read_words4(old(reader).remaining()) {
            Ok((v, rest)) => r == Ok::<(u64, u64, u64, u64), DecodeError>(v)
                && final(reader).remaining() == rest,
            Err(e) => r == Err::<(u64, u64, u64, u64), DecodeError>(e),
        },
{
    let a = match reader.read_word() {
        Ok(x) => x,
        Err(e) => {
            return Err(e);
        },
    };
    let b = match reader.read_word() {
        Ok(x) => x,
        Err(e) => {
            return Err(e);
        },
    };
    let c = match reader.read_word() {
        Ok(x) => x,
        Err(e) => {
            return Err(e);
        },
    };
    let d = match reader.read_word() {
        Ok(x) => x,
        Err(e) => {
            return Err(e);
        },
    };
    Ok((a, b, c, d))
}

/// Reads the tag of a transaction, which must be `tag`.
pub open spec fn spec_read_tag(s: Seq<u8>, tag: u64) -> Result<Seq<u8>, DecodeError> {
    match spec_read_word(s) {
        Err(e) => Err(e),
        Ok((found, s)) => if found == tag {
            Ok(s)
        } else {
            Err(DecodeError::InvalidDiscriminant)
        },
    }
}

/// Reads the tag of a transaction from `reader`, which must be `tag`.
pub fn read_tag(reader: &mut Reader, tag: u64) -> (r: Result<(), DecodeError>)
    ensures
        match spec_read_tag(old(reader).remaining(), tag) {
            Ok(rest) => r is Ok && final(reader).remaining() == rest,
            Err(e) => r == Err::<(), DecodeError>(e),
        },
{
    match reader.read_word() {
        Ok(found) => if found == tag {
            Ok(())
        } else {
            Err(DecodeError::InvalidDiscriminant)
        },
        Err(e) => Err(e),
    }
}

/// A transaction that runs a script.
#[derive(Debug, Clone, PartialEq, Eq, Hash, Default)]
pub struct Script {
    pub gas_price: Word,
    pub gas_limit: Word,
    pub maturity: BlockHeight,
    pub receipts_root: Bytes32,
    pub script: Vec<u8>,
    pub script_data: Vec<u8>,
    pub inputs: Vec<Input>,
    pub outputs: Vec<Output>,
    pub witnesses: Vec<Witness>,
}

/// Model of a `Script`.
pub struct ScriptView {
    pub gas_price: Word,
    pub gas_limit: Word,
    pub maturity: BlockHeight,
    pub receipts_root: Bytes32,
    pub script: Seq<u8>,
    pub script_data: Seq<u8>,
    pub inputs: Seq<InputView>,
    pub outputs: Seq<Output>,
    pub witnesses: Seq<Seq<u8>>,
}

/// What the static part of an encoded `Script` holds: the fields of fixed
/// size, and the lengths of those that follow in the dynamic part.
#[derive(Debug, Clone, Copy, PartialEq, Eq, Hash)]
pub struct ScriptHeader {
    pub gas_price: Word,
    pub gas_limit: Word,
    pub maturity: BlockHeight,
    pub receipts_root: Bytes32,
    pub script_len: u64,
    pub script_data_len: u64,
    pub inputs_count: u64,
    pub outputs_count: u64,
    pub witnesses_count: u64,
}

impl View for Script {
    type V = ScriptView;

    open spec fn view(&self) -> ScriptView {
        ScriptView {
            gas_price: self.gas_price,
            gas_limit: self.gas_limit,
            maturity: self.maturity,
            receipts_root: self.receipts_root,
            script: self.script@,
            script_data: self.script_data@,
            inputs: spec_views(self.inputs@),
            outputs: spec_views(self.outputs@),
            witnesses: spec_views(self.witnesses@),
        }
    }
}

impl ScriptHeader {
    /// The bytes of the header: the static part of the transaction.
    pub open spec fn spec_encode(self) -> Seq<u8> {
        spec_word(TRANSACTION_SCRIPT) + spec_fees(self.gas_price, self.gas_limit, self.maturity)
            + self.receipts_root.0@ + spec_word(self.script_len) + spec_words4(
            (self.script_data_len, self.inputs_count, self.outputs_count, self.witnesses_count),
        )
    }

    /// Reads a header from the front of `s`.
    pub open spec fn spec_decode(s: Seq<u8>) -> Result<(ScriptHeader, Seq<u8>), DecodeError> {
        match spec_read_tag(s, TRANSACTION_SCRIPT) {
            Err(e) => Err(e),
            Ok(s) => match spec_read_fees(s) {
                Err(e) => Err(e),
                Ok((fees, s)) => match spec_read_array32(s) {
                    Err(e) => Err(e),
                    Ok((receipts_root, s)) => match spec_read_word(s) {
                        Err(e) => Err(e),
                        Ok((script_len, s)) => match spec_read_words4(s) {
                            Err(e) => Err(e),
                            Ok((w, s)) => Ok(
                                (
                                    ScriptHeader {
                                        gas_price: fees.0,
                                        gas_limit: fees.1,
                                        maturity: fees.2,
                                        receipts_root: Bytes32(receipts_root),
                                        script_len,
                                        script_data_len: w.0,
                                        inputs_count: w.1,
                                        outputs_count: w.2,
                                        witnesses_count: w.3,
                                    },
                                    s,
                                ),
                            ),
                        },
                    },
                },
            },
        }
    }

    /// The fields of fixed size lie in the header one after the other,
    /// behind the tag.
    pub proof fn lemma_fields(self)
        ensures
            self.spec_encode().len() == 104,
            self.spec_encode().subrange(0, 8) == spec_word(TRANSACTION_SCRIPT),
            self.spec_encode().subrange(8, 16) == spec_word(self.gas_price),
            self.spec_encode().subrange(16, 24) == spec_word(self.gas_limit),
            self.spec_encode().subrange(24, 32) == spec_word(self.maturity as u64),
            self.spec_encode().subrange(32, 64) == self.receipts_root.0@,
    {
        lemma_word_len();
        let e = self.spec_encode();
        assert(e.subrange(0, 8) =~= spec_word(TRANSACTION_SCRIPT));
        assert(e.subrange(8, 16) =~= spec_word(self.gas_price));
        assert(e.subrange(16, 24) =~= spec_word(self.gas_limit));
        assert(e.subrange(24, 32) =~= spec_word(self.maturity as u64));
        assert(e.subrange(32, 64) =~= self.receipts_root.0@);
    }

    /// A header takes 104 bytes and is read back as it was written.
    pub proof fn lemma_decode_encode(self, rest: Seq<u8>)
        ensures
            self.spec_encode().len() == 104,
            Self::spec_decode(self.spec_encode() + rest) == Ok::<
                (ScriptHeader, Seq<u8>),
                DecodeError,
            >((self, rest)),
    {
        lemma_word_len();
        let e1 = spec_fees(self.gas_price, self.gas_limit, self.maturity);
        let e2 = self.receipts_root.0@;
        let e3 = spec_word(self.script_len);
        let w = (self.script_data_len, self.inputs_count, self.outputs_count, self.witnesses_count);
        let e4 = spec_words4(w);
        let t4 = e4 + rest;
        let t3 = e3 + t4;
        let t2 = e2 + t3;
        let t1 = e1 + t2;
        lemma_regroup5(spec_word(TRANSACTION_SCRIPT), e1, e2, e3, e4, rest);
        lemma_read_word(TRANSACTION_SCRIPT, t1);
        lemma_read_fees(self.gas_price, self.gas_limit, self.maturity, t2);
        lemma_read_array32(self.receipts_root.0, t3);
        lemma_read_word(self.script_len, t4);
        lemma_read_words4(w, rest);
    }
}

impl ScriptView {
    /// The header that announces the transaction.
    pub open spec fn header(self) -> ScriptHeader {
        ScriptHeader {
            gas_price: self.gas_price,
            gas_limit: self.gas_limit,
            maturity: self.maturity,
            receipts_root: self.receipts_root,
            script_len: self.script.len() as u64,
            script_data_len: self.script_data.len() as u64,
            inputs_count: self.inputs.len() as u64,
            outputs_count: self.outputs.len() as u64,
            witnesses_count: self.witnesses.len() as u64,
        }
    }

    /// The static part of the encoding.
    pub open spec fn spec_static(self) -> Seq<u8> {
        self.header().spec_encode()
    }

    /// The dynamic part of the encoding but for the witnesses: the script,
    /// its data, the inputs and the outputs.
    pub open spec fn spec_metered_dynamic(self) -> Seq<u8> {
        spec_padded(self.script) + spec_padded(self.script_data) + spec_encode_all::<Input>(
            self.inputs,
        ) + spec_encode_all::<Output>(self.outputs)
    }

    /// The dynamic part of the encoding.
    pub open spec fn spec_dynamic(self) -> Seq<u8> {
        self.spec_metered_dynamic() + spec_encode_all::<Witness>(self.witnesses)
    }

    /// Number of bytes of the encoding without its witnesses.
    pub open spec fn spec_metered_size(self) -> nat {
        self.spec_static().len() + self.spec_metered_dynamic().len()
    }

    /// Where the script starts in the encoding.
    pub open spec fn spec_script_offset(self) -> nat {
        104
    }

    /// Where the data of the script starts in the encoding.
    pub open spec fn spec_script_data_offset(self) -> nat {
        104 + spec_aligned(self.script.len())
    }

    /// Where the inputs start in the encoding.
    pub open spec fn spec_inputs_offset(self) -> nat {
        self.spec_script_data_offset() + spec_aligned(self.script_data.len())
    }

    /// Where the outputs start in the encoding.
    pub open spec fn spec_outputs_offset(self) -> nat {
        self.spec_inputs_offset() + spec_encode_all::<Input>(self.inputs).len()
    }

    /// Where the witnesses start in the encoding.
    pub open spec fn spec_witnesses_offset(self) -> nat {
        self.spec_outputs_offset() + spec_encode_all::<Output>(self.outputs).len()
    }

    /// Reads what a header announces from the front of `s`.
    pub open spec fn spec_decode_dynamic(h: ScriptHeader, s: Seq<u8>) -> Result<
        (ScriptView, Seq<u8>),
        DecodeError,
    > {
        match spec_read_bytes(s, h.script_len, Field::Script) {
            Err(e) => Err(e),
            Ok((script, s)) => match spec_read_bytes(s, h.script_data_len, Field::ScriptData) {
                Err(e) => Err(e),
                Ok((script_data, s)) => match spec_decode_all::<Input>(s, h.inputs_count as nat) {
                    Err(e) => Err(e),
                    Ok((inputs, s)) => match spec_decode_all::<Output>(
                        s,
                        h.outputs_count as nat,
                    ) {
                        Err(e) => Err(e),
                        Ok((outputs, s)) => match spec_decode_all::<Witness>(
                            s,
                            h.witnesses_count as nat,
                        ) {
                            Err(e) => Err(e),
                            Ok((witnesses, s)) => Ok(
                                (
                                    ScriptView {
                                        gas_price: h.gas_price,
                                        gas_limit: h.gas_limit,
                                        maturity: h.maturity,
                                        receipts_root: h.receipts_root,
                                        script,
                                        script_data,
                                        inputs,
                                        outputs,
                                        witnesses,
                                    },
                                    s,
                                ),
                            ),
                        },
                    },
                },
            },
        }
    }

    /// The dynamic part is read back as it was written, given the header.
    pub proof fn lemma_decode_dynamic(self, rest: Seq<u8>)
        requires
            Script::spec_valid(self),
        ensures
            Self::spec_decode_dynamic(self.header(), self.spec_dynamic() + rest) == Ok::<
                (ScriptView, Seq<u8>),
                DecodeError,
            >((self, rest)),
    {
        let e1 = spec_padded(self.script);
        let e2 = spec_padded(self.script_data);
        let e3 = spec_encode_all::<Input>(self.inputs);
        let e4 = spec_encode_all::<Output>(self.outputs);
        let e5 = spec_encode_all::<Witness>(self.witnesses);
        let t4 = e5 + rest;
        let t3 = e4 + t4;
        let t2 = e3 + t3;
        let t1 = e2 + t2;
        lemma_regroup5(e1, e2, e3, e4, e5, rest);
        lemma_read_bytes(self.script, Field::Script, t1);
        lemma_read_bytes(self.script_data, Field::ScriptData, t2);
        lemma_decode_encode_all::<Input>(self.inputs, t3);
        lemma_decode_encode_all::<Output>(self.outputs, t4);
        lemma_decode_encode_all::<Witness>(self.witnesses, rest);
    }

    /// The offsets of the sequences, added up, give the size of the
    /// encoding.
    pub proof fn lemma_offsets(self)
        ensures
            self.spec_static().len() == 104,
            self.spec_metered_dynamic().len() + 104 == self.spec_witnesses_offset(),
            self.spec_dynamic().len() + 104 == self.spec_witnesses_offset() + spec_encode_all::<
                Witness,
            >(self.witnesses).len(),
    {
        lemma_padded_len();
        self.header().lemma_decode_encode(Seq::empty());
    }

    /// The encodings of the inputs, of the outputs and of the witnesses lie
    /// in the encoding of the transaction at their offsets.
    pub proof fn lemma_segments(self)
        ensures
            self.spec_witnesses_offset() + spec_encode_all::<Witness>(self.witnesses).len()
                == Script::spec_encode(self).len(),
            Script::spec_encode(self).subrange(
                self.spec_inputs_offset() as int,
                self.spec_outputs_offset() as int,
            ) == spec_encode_all::<Input>(self.inputs),
            Script::spec_encode(self).subrange(
                self.spec_outputs_offset() as int,
                self.spec_witnesses_offset() as int,
            ) == spec_encode_all::<Output>(self.outputs),
            Script::spec_encode(self).subrange(
                self.spec_witnesses_offset() as int,
                Script::spec_encode(self).len() as int,
            ) == spec_encode_all::<Witness>(self.witnesses),
    {
        self.lemma_offsets();
        lemma_padded_len();
        let e = Script::spec_encode(self);
        let h = self.spec_static();
        let a = spec_padded(self.script);
        let b = spec_padded(self.script_data);
        let i = spec_encode_all::<Input>(self.inputs);
        let o = spec_encode_all::<Output>(self.outputs);
        let w = spec_encode_all::<Witness>(self.witnesses);
        assert(e == h + (a + b + i + o + w));
        assert(e.subrange(self.spec_inputs_offset() as int, self.spec_outputs_offset() as int)
            =~= i);
        assert(e.subrange(self.spec_outputs_offset() as int, self.spec_witnesses_offset() as int)
            =~= o);
        assert(e.subrange(self.spec_witnesses_offset() as int, e.len() as int) =~= w);
    }

    /// The size without the witnesses does not depend on the witnesses.
    pub proof fn lemma_metered_ignores_witnesses(self, witnesses: Seq<Seq<u8>>)
        ensures
            (ScriptView { witnesses, ..self }).spec_metered_size() == self.spec_metered_size(),
    {
        self.lemma_offsets();
        (ScriptView { witnesses, ..self }).lemma_offsets();
    }
}

impl Script {
    /// Reads the static part of an encoded script transaction.
    pub fn decode_static(reader: &mut Reader) -> (r: Result<ScriptHeader, DecodeError>)
        ensures
            match ScriptHeader::spec_decode(old(reader).remaining()) {
                Ok((h, rest)) => r == Ok::<ScriptHeader, DecodeError>(h)
                    && final(reader).remaining() == rest,
                Err(e) => r == Err::<ScriptHeader, DecodeError>(e),
            },
    {
        match read_tag(reader, TRANSACTION_SCRIPT) {
            Ok(_) => {},
            Err(e) => {
                return Err(e);
            },
        }
        let fees = match read_fees(reader) {
            Ok(x) => x,
            Err(e) => {
                return Err(e);
            },
        };
        let receipts_root = match reader.read_array32() {
            Ok(x) => x,
            Err(e) => {
                return Err(e);
            },
        };
        let script_len = match reader.read_word() {
            Ok(x) => x,
            Err(e) => {
                return Err(e);
            },
        };
        let w = match read_words4(reader) {
            Ok(x) => x,
            Err(e) => {
                return Err(e);
            },
        };
        Ok(
            ScriptHeader {
                gas_price: fees.0,
                gas_limit: fees.1,
                maturity: fees.2,
                receipts_root: Bytes32(receipts_root),
                script_len,
                script_data_len: w.0,
                inputs_count: w.1,
                outputs_count: w.2,
                witnesses_count: w.3,
            },
        )
    }

    /// Reads the dynamic part that `header` announces.
    pub fn decode_dynamic(header: &ScriptHeader, reader: &mut Reader) -> (r: Result<
        Script,
        DecodeError,
    >)
        ensures
            match ScriptView::spec_decode_dynamic(*header, old(reader).remaining()) {
                Ok((v, rest)) => r matches Ok(x) && x@ == v && final(reader).remaining() == rest,
                Err(e) => r matches Err(f) && f == e,
            },
    {
        let script = match reader.read_bytes(header.script_len, Field::Script) {
            Ok(x) => x,
            Err(e) => {
                return Err(e);
            },
        };
        let script_data = match reader.read_bytes(header.script_data_len, Field::ScriptData) {
            Ok(x) => x,
            Err(e) => {
                return Err(e);
            },
        };
        let inputs = match decode_all::<Input>(reader, header.inputs_count) {
            Ok(x) => x,
            Err(e) => {
                return Err(e);
            },
        };
        let outputs = match decode_all::<Output>(reader, header.outputs_count) {
            Ok(x) => x,
            Err(e) => {
                return Err(e);
            },
        };
        let witnesses = match decode_all::<Witness>(reader, header.witnesses_count) {
            Ok(x) => x,
            Err(e) => {
                return Err(e);
            },
        };
        Ok(
            Script {
                gas_price: header.gas_price,
                gas_limit: header.gas_limit,
                maturity: header.maturity,
                receipts_root: header.receipts_root,
                script,
                script_data,
                inputs,
                outputs,
                witnesses,
            },
        )
    }

    /// Number of bytes of the static part of the encoding.
    pub fn size_static(&self) -> (r: usize)
        ensures
            r == self@.spec_static().len(),
    {
        proof {
            self@.lemma_offsets();
        }
        104
    }

    /// Where the gas price lies in the encoding.
    pub fn gas_price_offset(&self) -> (r: usize)
        ensures
            r == 8,
            self@.spec_static().subrange(8, 16) == spec_word(self.gas_price),
    {
        proof {
            self@.header().lemma_fields();
        }
        8
    }

    /// Where the gas limit lies in the encoding.
    pub fn gas_limit_offset(&self) -> (r: usize)
        ensures
            r == 16,
            self@.spec_static().subrange(16, 24) == spec_word(self.gas_limit),
    {
        proof {
            self@.header().lemma_fields();
        }
        16
    }

    /// Where the maturity lies in the encoding.
    pub fn maturity_offset(&self) -> (r: usize)
        ensures
            r == 24,
            self@.spec_static().subrange(24, 32) == spec_word(self.maturity as u64),
    {
        proof {
            self@.header().lemma_fields();
        }
        24
    }

    /// Where the root of the receipts lies in the encoding.
    pub fn receipts_root_offset(&self) -> (r: usize)
        ensures
            r == 32,
            self@.spec_static().subrange(32, 64) == self.receipts_root.0@,
    {
        proof {
            self@.header().lemma_fields();
        }
        32
    }

    /// Where the script starts in the encoding.
    pub fn script_offset(&self) -> (r: usize)
        ensures
            r == self@.spec_script_offset(),
    {
        104
    }

    /// Where the data of the script starts in the encoding, saturating.
    pub fn script_data_offset(&self) -> (r: usize)
        ensures
            r == spec_saturate(self@.spec_script_data_offset() as int),
    {
        aligned_size(self.script.len()).saturating_add(104)
    }

    /// Where the inputs start in the encoding, saturating.
    pub fn inputs_offset(&self) -> (r: usize)
        ensures
            r == spec_saturate(self@.spec_inputs_offset() as int),
    {
        self.script_data_offset().saturating_add(aligned_size(self.script_data.len()))
    }

    /// Where the outputs start in the encoding, saturating.
    pub fn outputs_offset(&self) -> (r: usize)
        ensures
            r == spec_saturate(self@.spec_outputs_offset() as int),
    {
        self.inputs_offset().saturating_add(size_all(&self.inputs))
    }

    /// Where the witnesses start in the encoding, saturating.
    pub fn witnesses_offset(&self) -> (r: usize)
        ensures
            r == spec_saturate(self@.spec_witnesses_offset() as int),
    {
        self.outputs_offset().saturating_add(size_all(&self.outputs))
    }

    /// Where the encoding of the input at `index` starts in the encoding of
    /// the transaction, saturating, if there is one.
    pub fn inputs_offset_at(&self, index: usize) -> (r: Option<usize>)
        ensures
            r == if index < self@.inputs.len() {
                Some(
                    spec_saturate(
                        (self@.spec_inputs_offset() + spec_offset_at::<Input>(
                            self@.inputs,
                            index as int,
                        )) as int,
                    ),
                )
            } else {
                None
            },
    {
        offset_in(self.inputs_offset(), &self.inputs, index)
    }

    /// Where the encoding of the output at `index` starts in the encoding of
    /// the transaction, saturating, if there is one.
    pub fn outputs_offset_at(&self, index: usize) -> (r: Option<usize>)
        ensures
            r == if index < self@.outputs.len() {
                Some(
                    spec_saturate(
                        (self@.spec_outputs_offset() + spec_offset_at::<Output>(
                            self@.outputs,
                            index as int,
                        )) as int,
                    ),
                )
            } else {
                None
            },
    {
        offset_in(self.outputs_offset(), &self.outputs, index)
    }

    /// Where the encoding of the witness at `index` starts in the encoding of
    /// the transaction, saturating, if there is one.
    pub fn witnesses_offset_at(&self, index: usize) -> (r: Option<usize>)
        ensures
            r == if index < self@.witnesses.len() {
                Some(
                    spec_saturate(
                        (self@.spec_witnesses_offset() + spec_offset_at::<Witness>(
                            self@.witnesses,
                            index as int,
                        )) as int,
                    ),
                )
            } else {
                None
            },
    {
        offset_in(self.witnesses_offset(), &self.witnesses, index)
    }

    /// Where the code of the predicate of the input at `index` starts in
    /// the encoding of the transaction, saturating, and how long it is, if
    /// there is such an input and a predicate unlocks it.
    pub fn inputs_predicate_offset_at(&self, index: usize) -> (r: Option<(usize, usize)>)
        ensures
            r == if index < self@.inputs.len()
                && self@.inputs[index as int].spec_predicate_offset() is Some {
                Some(
                    (
                        spec_saturate(
                            (self@.spec_inputs_offset() + spec_offset_at::<Input>(
                                self@.inputs,
                                index as int,
                            ) + self@.inputs[index as int].spec_predicate_offset().unwrap())
                                as int,
                        ),
                        self@.inputs[index as int].spec_predicate().unwrap().len() as usize,
                    ),
                )
            } else {
                None
            },
    {
        match self.inputs_offset_at(index) {
            Some(start) => match self.inputs[index].predicate_offset_and_len() {
                Some((offset, len)) => Some((start.saturating_add(offset), len)),
                None => None,
            },
            None => None,
        }
    }

    /// Number of bytes of the dynamic part of the encoding, saturating.
    pub fn size_dynamic(&self) -> (r: usize)
        ensures
            r == spec_saturate(self@.spec_dynamic().len() as int),
    {
        proof {
            self@.lemma_offsets();
        }
        proof {
            lemma_padded_len();
        }
        aligned_size(self.script.len()).saturating_add(
            aligned_size(self.script_data.len()),
        ).saturating_add(size_all(&self.inputs)).saturating_add(
            size_all(&self.outputs),
        ).saturating_add(size_all(&self.witnesses))
    }

    /// Number of bytes of the encoding without its witnesses, saturating.
    /// This is the size that gas is charged for.
    pub fn metered_bytes_size(&self) -> (r: usize)
        ensures
            r == spec_saturate(self@.spec_metered_size() as int),
    {
        proof {
            self@.lemma_offsets();
        }
        self.witnesses_offset()
    }

    /// Appends the static part of the encoding to `buffer`.
    pub fn encode_static(&self, buffer: &mut Vec<u8>)
        ensures
            final(buffer)@ == old(buffer)@ + self@.spec_static(),
    {
        write_word(buffer, TRANSACTION_SCRIPT);
        write_fees(buffer, self.gas_price, self.gas_limit, self.maturity);
        write_raw(buffer, self.receipts_root.0.as_slice());
        write_word(buffer, self.script.len() as u64);
        write_words4(
            buffer,
            self.script_data.len() as u64,
            self.inputs.len() as u64,
            self.outputs.len() as u64,
            self.witnesses.len() as u64,
        );
        assert(buffer@ =~= old(buffer)@ + self@.spec_static());
    }

    /// Appends to `buffer` the encoding that the transaction would have with
    /// the root `receipts_root` and the witnesses `witnesses`.
    pub fn encode_with(&self, receipts_root: &Bytes32, witnesses: &Vec<Witness>, buffer: &mut Vec<u8>)
        ensures
            final(buffer)@ == old(buffer)@ + Script::spec_encode(
                ScriptView {
                    receipts_root: *receipts_root,
                    witnesses: spec_views(witnesses@),
                    ..self@
                },
            ),
    {
        let ghost v = ScriptView {
            receipts_root: *receipts_root,
            witnesses: spec_views(witnesses@),
            ..self@
        };
        write_word(buffer, TRANSACTION_SCRIPT);
        write_fees(buffer, self.gas_price, self.gas_limit, self.maturity);
        write_raw(buffer, receipts_root.0.as_slice());
        write_word(buffer, self.script.len() as u64);
        write_words4(
            buffer,
            self.script_data.len() as u64,
            self.inputs.len() as u64,
            self.outputs.len() as u64,
            witnesses.len() as u64,
        );
        assert(buffer@ =~= old(buffer)@ + v.spec_static());
        let ghost mid = buffer@;
        write_padded(buffer, self.script.as_slice());
        write_padded(buffer, self.script_data.as_slice());
        encode_all(&self.inputs, buffer);
        encode_all(&self.outputs, buffer);
        encode_all(witnesses, buffer);
        assert(buffer@ =~= mid + v.spec_dynamic());
        proof {
            lemma_add_assoc(old(buffer)@, v.spec_static(), v.spec_dynamic());
        }
    }

    /// Appends the dynamic part of the encoding to `buffer`.
    pub fn encode_dynamic(&self, buffer: &mut Vec<u8>)
        ensures
            final(buffer)@ == old(buffer)@ + self@.spec_dynamic(),
    {
        write_padded(buffer, self.script.as_slice());
        write_padded(buffer, self.script_data.as_slice());
        encode_all(&self.inputs, buffer);
        encode_all(&self.outputs, buffer);
        encode_all(&self.witnesses, buffer);
        assert(buffer@ =~= old(buffer)@ + self@.spec_dynamic());
    }
}

impl Canonical for Script {
    open spec fn spec_encode(v: ScriptView) -> Seq<u8> {
        v.spec_static() + v.spec_dynamic()
    }

    open spec fn spec_decode(s: Seq<u8>) -> Result<(ScriptView, Seq<u8>), DecodeError> {
        match ScriptHeader::spec_decode(s) {
            Err(e) => Err(e),
            Ok((h, s)) => ScriptView::spec_decode_dynamic(h, s),
        }
    }

    open spec fn spec_valid(v: ScriptView) -> bool {
        &&& v.script.len() <= u64::MAX
        &&& v.script_data.len() <= u64::MAX
        &&& v.inputs.len() <= u64::MAX
        &&& v.outputs.len() <= u64::MAX
        &&& v.witnesses.len() <= u64::MAX
        &&& spec_all_valid::<Input>(v.inputs)
        &&& spec_all_valid::<Output>(v.outputs)
        &&& spec_all_valid::<Witness>(v.witnesses)
    }

    proof fn lemma_valid(&self) {
        assert(self.script.len() <= u64::MAX);
        assert(self.script_data.len() <= u64::MAX);
        assert(self.inputs.len() <= u64::MAX);
        assert(self.outputs.len() <= u64::MAX);
        assert(self.witnesses.len() <= u64::MAX);
        lemma_all_valid::<Input>(&self.inputs);
        lemma_all_valid::<Output>(&self.outputs);
        lemma_all_valid::<Witness>(&self.witnesses);
    }

    proof fn lemma_decode_encode(v: ScriptView, rest: Seq<u8>) {
        lemma_add_assoc(v.spec_static(), v.spec_dynamic(), rest);
        v.header().lemma_decode_encode(v.spec_dynamic() + rest);
        v.lemma_decode_dynamic(rest);
    }

    fn size(&self) -> (r: usize) {
        proof {
            self@.lemma_offsets();
        }
        self.witnesses_offset().saturating_add(size_all(&self.witnesses))
    }

    fn encode(&self, buffer: &mut Vec<u8>) {
        self.encode_static(buffer);
        self.encode_dynamic(buffer);
        proof {
            lemma_add_assoc(old(buffer)@, self@.spec_static(), self@.spec_dynamic());
        }
    }

    fn decode(reader: &mut Reader) -> (r: Result<Script, DecodeError>) {
        let header = match Script::decode_static(reader) {
            Ok(x) => x,
            Err(e) => {
                return Err(e);
            },
        };
        Script::decode_dynamic(&header, reader)
    }
}

} // verus!
