//! The transaction: a script, the creation of a contract, or a mint.

use vstd::prelude::*;

use crate::codec::{
    spec_read_word, spec_saturate, spec_views, Canonical, DecodeError, Reader,
};
use crate::create::{Create, CreateHeader, CreateView};
use crate::input::{self, Input};
use crate::mint::Mint;
use crate::output::{self, Output};
use crate::script::{
    Script, ScriptHeader, ScriptView, TRANSACTION_CREATE, TRANSACTION_MINT, TRANSACTION_SCRIPT,
};
use crate::types::{AssetId, BlockHeight, Bytes32, Salt, StorageSlot, TxPointer, Witness, Word};

verus! {

/// A transaction.
#[derive(Debug, Clone, PartialEq, Eq, Hash)]
pub enum Transaction {
    Script(Script),
    Create(Create),
    Mint(Mint),
}

/// Model of a `Transaction`.
pub enum TransactionView {
    Script(ScriptView),
    Create(CreateView),
    Mint(Mint),
}

/// What the static part of an encoded transaction holds.
#[derive(Debug, Clone, Copy, PartialEq, Eq, Hash)]
pub enum TransactionHeader {
    Script(ScriptHeader),
    Create(CreateHeader),
    Mint(Mint),
}

impl View for Transaction {
    type V = TransactionView;

    open spec fn view(&self) -> TransactionView {
        match *self {
            Transaction::Script(script) => TransactionView::Script(script@),
            Transaction::Create(create) => TransactionView::Create(create@),
            Transaction::Mint(mint) => TransactionView::Mint(mint),
        }
    }
}

impl TransactionView {
    /// A model is valid when the transaction it stands for is.
    pub open spec fn valid(self) -> bool {
        match self {
            TransactionView::Script(script) => Script::spec_valid(script),
            TransactionView::Create(create) => create.valid(),
            TransactionView::Mint(_) => true,
        }
    }

    /// The static part of the encoding. Its first word is the tag that
    /// tells the three kinds of transaction apart.
    pub open spec fn spec_static(self) -> Seq<u8> {
        match self {
            TransactionView::Script(script) => script.spec_static(),
            TransactionView::Create(create) => create.spec_static(),
            TransactionView::Mint(mint) => Mint::spec_encode(mint),
        }
    }

    /// The dynamic part of the encoding.
    pub open spec fn spec_dynamic(self) -> Seq<u8> {
        match self {
            TransactionView::Script(script) => script.spec_dynamic(),
            TransactionView::Create(create) => create.spec_dynamic(),
            TransactionView::Mint(_) => Seq::empty(),
        }
    }

    /// The encoding: the static part, then the dynamic part.
    pub open spec fn spec_encode(self) -> Seq<u8> {
        self.spec_static() + self.spec_dynamic()
    }

    /// Number of bytes of the encoding without its witnesses.
    pub open spec fn spec_metered_size(self) -> nat {
        match self {
            TransactionView::Script(script) => script.spec_metered_size(),
            TransactionView::Create(create) => create.spec_metered_size(),
            TransactionView::Mint(mint) => Mint::spec_encode(mint).len(),
        }
    }

    /// The transaction with other witnesses; a mint has none and stays as
    /// it is.
    pub open spec fn with_witnesses(self, witnesses: Seq<Seq<u8>>) -> TransactionView {
        match self {
            TransactionView::Script(script) => TransactionView::Script(
                ScriptView { witnesses, ..script },
            ),
            TransactionView::Create(create) => TransactionView::Create(
                CreateView { witnesses, ..create },
            ),
            TransactionView::Mint(mint) => self,
        }
    }

    /// Reads the static part of a transaction from the front of `s`: the tag
    /// is looked at first, and decides which header is read.
    pub open spec fn spec_decode_static(s: Seq<u8>) -> Result<
        (TransactionHeader, Seq<u8>),
        DecodeError,
    > {
        match spec_read_word(s) {
            Err(e) => Err(e),
            Ok((tag, _)) => if tag == TRANSACTION_SCRIPT {
                match ScriptHeader::spec_decode(s) {
                    Err(e) => Err(e),
                    Ok((h, s)) => Ok((TransactionHeader::Script(h), s)),
                }
            } else if tag == TRANSACTION_CREATE {
                match CreateHeader::spec_decode(s) {
                    Err(e) => Err(e),
                    Ok((h, s)) => Ok((TransactionHeader::Create(h), s)),
                }
            } else if tag == TRANSACTION_MINT {
                match Mint::spec_decode(s) {
                    Err(e) => Err(e),
                    Ok((mint, s)) => Ok((TransactionHeader::Mint(mint), s)),
                }
            } else {
                Err(DecodeError::InvalidDiscriminant)
            },
        }
    }

    /// Reads what `header` announces from the front of `s`.
    pub open spec fn spec_decode_dynamic(header: TransactionHeader, s: Seq<u8>) -> Result<
        (TransactionView, Seq<u8>),
        DecodeError,
    > {
        match header {
            TransactionHeader::Script(h) => match ScriptView::spec_decode_dynamic(h, s) {
                Err(e) => Err(e),
                Ok((script, s)) => Ok((TransactionView::Script(script), s)),
            },
            TransactionHeader::Create(h) => match CreateView::spec_decode_dynamic(h, s) {
                Err(e) => Err(e),
                Ok((create, s)) => Ok((TransactionView::Create(create), s)),
            },
            TransactionHeader::Mint(mint) => Ok((TransactionView::Mint(mint), s)),
        }
    }

    /// Reads a transaction from the front of `s` and gives the bytes after
    /// it.
    pub open spec fn spec_decode(s: Seq<u8>) -> Result<(TransactionView, Seq<u8>), DecodeError> {
        match Self::spec_decode_static(s) {
            Err(e) => Err(e),
            Ok((header, s)) => Self::spec_decode_dynamic(header, s),
        }
    }

    /// Decoding an encoded transaction gives the transaction back, and stops
    /// right after its last byte.
    pub proof fn lemma_decode_encode(self, rest: Seq<u8>)
        requires
            self.valid(),
        ensures
            Self::spec_decode(self.spec_encode() + rest) == Ok::<
                (TransactionView, Seq<u8>),
                DecodeError,
            >((self, rest)),
    {
        reveal(spec_read_word);
        crate::codec::lemma_word_len();
        match self {
            TransactionView::Script(script) => {
                let t = script.spec_dynamic() + rest;
                crate::codec::lemma_add_assoc(script.spec_static(), script.spec_dynamic(), rest);
                script.header().lemma_decode_encode(t);
                script.lemma_decode_dynamic(rest);
                Self::lemma_tag(script.spec_static() + t, TRANSACTION_SCRIPT);
            },
            TransactionView::Create(create) => {
                let t = create.spec_dynamic() + rest;
                crate::codec::lemma_add_assoc(create.spec_static(), create.spec_dynamic(), rest);
                create.header().lemma_decode_encode(t);
                create.lemma_decode_encode(rest);
                Self::lemma_tag(create.spec_static() + t, TRANSACTION_CREATE);
            },
            TransactionView::Mint(mint) => {
                assert(Mint::spec_encode(mint) + Seq::<u8>::empty() =~= Mint::spec_encode(mint));
                Mint::lemma_decode_encode(mint, rest);
                Self::lemma_tag(Mint::spec_encode(mint) + rest, TRANSACTION_MINT);
            },
        }
    }

    /// Where reading a tag from `s` succeeds, the word at the front of `s`
    /// is that tag.
    proof fn lemma_tag(s: Seq<u8>, tag: u64)
        requires
            crate::script::spec_read_tag(s, tag) is Ok,
        ensures
            spec_read_word(s) matches Ok((found, _)) && found == tag,
    {
    }

    /// The size of the encoding is the size of its static part and the size
    /// of its dynamic part.
    pub proof fn lemma_size(self)
        ensures
            self.spec_encode().len() == self.spec_static().len() + self.spec_dynamic().len(),
    {
    }

    /// The size without the witnesses stays the same whatever witnesses the
    /// transaction is given.
    pub proof fn lemma_metered_ignores_witnesses(self, witnesses: Seq<Seq<u8>>)
        ensures
            self.with_witnesses(witnesses).spec_metered_size() == self.spec_metered_size(),
    {
        match self {
            TransactionView::Script(script) => {
                script.lemma_metered_ignores_witnesses(witnesses);
            },
            TransactionView::Create(create) => {
                create.lemma_metered_ignores_witnesses(witnesses);
            },
            TransactionView::Mint(_) => {},
        }
    }
}

impl Transaction {
    /// A script transaction made of the given parts. The root of its
    /// receipts is all zeros.
    pub fn script(
        gas_price: Word,
        gas_limit: Word,
        maturity: BlockHeight,
        script: Vec<u8>,
        script_data: Vec<u8>,
        inputs: Vec<Input>,
        outputs: Vec<Output>,
        witnesses: Vec<Witness>,
    ) -> (r: Script)
        ensures
            r == (Script {
                gas_price,
                gas_limit,
                maturity,
                receipts_root: Bytes32::spec_zeroed(),
                script,
                script_data,
                inputs,
                outputs,
                witnesses,
            }),
    {
        let receipts_root = Bytes32::zeroed();
        Script {
            gas_price,
            gas_limit,
            maturity,
            receipts_root,
            script,
            script_data,
            inputs,
            outputs,
            witnesses,
        }
    }

    /// A transaction that creates a contract, made of the given parts. The
    /// storage slots are put in order. The length of the bytecode is that of
    /// the witness at `bytecode_witness_index` in words of four bytes, and
    /// zero where there is no such witness.
    pub fn create(
        gas_price: Word,
        gas_limit: Word,
        maturity: BlockHeight,
        bytecode_witness_index: u8,
        salt: Salt,
        storage_slots: Vec<StorageSlot>,
        inputs: Vec<Input>,
        outputs: Vec<Output>,
        witnesses: Vec<Witness>,
    ) -> (r: Create)
        ensures
            r@.gas_price == gas_price,
            r@.gas_limit == gas_limit,
            r@.maturity == maturity,
            r@.bytecode_witness_index == bytecode_witness_index,
            r@.salt == salt,
            r@.bytecode_length == crate::create::spec_bytecode_length(
                spec_views(witnesses@),
                bytecode_witness_index,
            ),
            crate::create::spec_sorted(r@.storage_slots),
            r@.storage_slots.to_multiset() == storage_slots@.to_multiset(),
            r@.inputs == spec_views(inputs@),
            r@.outputs == spec_views(outputs@),
            r@.witnesses == spec_views(witnesses@),
            r@.valid(),
    {
        Create::new(
            gas_price,
            gas_limit,
            maturity,
            bytecode_witness_index,
            salt,
            storage_slots,
            inputs,
            outputs,
            witnesses,
        )
    }

    /// A transaction that mints coins, made of the given parts.
    pub fn mint(
        tx_pointer: TxPointer,
        input_contract: input::Contract,
        output_contract: output::Contract,
        mint_amount: Word,
        mint_asset_id: AssetId,
    ) -> (r: Mint)
        ensures
            r == (Mint { tx_pointer, input_contract, output_contract, mint_amount, mint_asset_id }),
    {
        Mint { tx_pointer, input_contract, output_contract, mint_amount, mint_asset_id }
    }

    /// Tells whether the transaction runs a script.
    pub fn is_script(&self) -> (r: bool)
        ensures
            r == (*self is Script),
    {
        match self {
            Transaction::Script(_) => true,
            _ => false,
        }
    }

    /// Tells whether the transaction creates a contract.
    pub fn is_create(&self) -> (r: bool)
        ensures
            r == (*self is Create),
    {
        match self {
            Transaction::Create(_) => true,
            _ => false,
        }
    }

    /// Tells whether the transaction mints coins.
    pub fn is_mint(&self) -> (r: bool)
        ensures
            r == (*self is Mint),
    {
        match self {
            Transaction::Mint(_) => true,
            _ => false,
        }
    }

    /// The script transaction, if it is one.
    pub fn as_script(&self) -> (r: Option<&Script>)
        ensures
            match *self {
                Transaction::Script(script) => r == Some(&script),
                _ => r is None,
            },
    {
        match self {
            Transaction::Script(script) => Some(script),
            _ => None,
        }
    }

    /// The transaction that creates a contract, if it is one.
    pub fn as_create(&self) -> (r: Option<&Create>)
        ensures
            match *self {
                Transaction::Create(create) => r == Some(&create),
                _ => r is None,
            },
    {
        match self {
            Transaction::Create(create) => Some(create),
            _ => None,
        }
    }

    /// The transaction that mints coins, if it is one.
    pub fn as_mint(&self) -> (r: Option<&Mint>)
        ensures
            match *self {
                Transaction::Mint(mint) => r == Some(&mint),
                _ => r is None,
            },
    {
        match self {
            Transaction::Mint(mint) => Some(mint),
            _ => None,
        }
    }

    /// The script transaction, to be changed, if it is one.
    pub fn as_script_mut(&mut self) -> (r: Option<&mut Script>)
        ensures
            match *old(self) {
                Transaction::Script(script) => r matches Some(s) && *s == script && *final(self)
                    == Transaction::Script(*final(s)),
                _ => r is None && *final(self) == *old(self),
            },
    {
        match self {
            Transaction::Script(script) => Some(script),
            _ => None,
        }
    }

    /// The transaction that creates a contract, to be changed, if it is
    /// one.
    pub fn as_create_mut(&mut self) -> (r: Option<&mut Create>)
        ensures
            match *old(self) {
                Transaction::Create(create) => r matches Some(c) && *c == create && *final(self)
                    == Transaction::Create(*final(c)),
                _ => r is None && *final(self) == *old(self),
            },
    {
        match self {
            Transaction::Create(create) => Some(create),
            _ => None,
        }
    }

    /// The transaction that mints coins, to be changed, if it is one.
    pub fn as_mint_mut(&mut self) -> (r: Option<&mut Mint>)
        ensures
            match *old(self) {
                Transaction::Mint(mint) => r matches Some(m) && *m == mint && *final(self)
                    == Transaction::Mint(*final(m)),
                _ => r is None && *final(self) == *old(self),
            },
    {
        match self {
            Transaction::Mint(mint) => Some(mint),
            _ => None,
        }
    }

    /// Number of bytes of the static part of the encoding.
    pub fn size_static(&self) -> (r: usize)
        ensures
            r == self@.spec_static().len(),
    {
        proof {
            crate::codec::lemma_word_len();
        }
        match self {
            Transaction::Script(script) => script.size_static(),
            Transaction::Create(create) => create.size_static(),
            Transaction::Mint(mint) => mint.size(),
        }
    }

    /// Number of bytes of the dynamic part of the encoding, saturating.
    pub fn size_dynamic(&self) -> (r: usize)
        ensures
            r == spec_saturate(self@.spec_dynamic().len() as int),
    {
        match self {
            Transaction::Script(script) => script.size_dynamic(),
            Transaction::Create(create) => create.size_dynamic(),
            Transaction::Mint(_) => 0,
        }
    }

    /// Number of bytes of the encoding, saturating.
    pub fn size(&self) -> (r: usize)
        ensures
            r == spec_saturate(self@.spec_encode().len() as int),
    {
        match self {
            Transaction::Script(script) => script.size(),
            Transaction::Create(create) => create.size(),
            Transaction::Mint(mint) => {
                assert(Mint::spec_encode(*mint) + Seq::<u8>::empty() =~= Mint::spec_encode(*mint));
                mint.size()
            },
        }
    }

    /// Number of bytes of the encoding without its witnesses, saturating.
    /// This is the size that gas is charged for.
    pub fn metered_bytes_size(&self) -> (r: usize)
        ensures
            r == spec_saturate(self@.spec_metered_size() as int),
    {
        match self {
            Transaction::Script(script) => script.metered_bytes_size(),
            Transaction::Create(create) => create.metered_bytes_size(),
            Transaction::Mint(mint) => mint.size(),
        }
    }

    /// Appends the static part of the encoding to `buffer`.
    pub fn encode_static(&self, buffer: &mut Vec<u8>)
        ensures
            final(buffer)@ == old(buffer)@ + self@.spec_static(),
    {
        match self {
            Transaction::Script(script) => script.encode_static(buffer),
            Transaction::Create(create) => create.encode_static(buffer),
            Transaction::Mint(mint) => mint.encode(buffer),
        }
    }

    /// Appends the dynamic part of the encoding to `buffer`.
    pub fn encode_dynamic(&self, buffer: &mut Vec<u8>)
        ensures
            final(buffer)@ == old(buffer)@ + self@.spec_dynamic(),
    {
        match self {
            Transaction::Script(script) => script.encode_dynamic(buffer),
            Transaction::Create(create) => create.encode_dynamic(buffer),
            Transaction::Mint(_) => {
                assert(buffer@ + Seq::<u8>::empty() =~= buffer@);
            },
        }
    }

    /// Tells that the model of the transaction is valid.
    pub fn validate(&self)
        ensures
            self@.valid(),
    {
        match self {
            Transaction::Script(script) => {
                proof {
                    script.lemma_valid();
                }
            },
            Transaction::Create(create) => {
                let _ = create.storage_slots();
            },
            Transaction::Mint(_) => {},
        }
    }

    /// Appends the encoding to `buffer`.
    pub fn encode(&self, buffer: &mut Vec<u8>)
        ensures
            final(buffer)@ == old(buffer)@ + self@.spec_encode(),
            self@.valid(),
    {
        self.validate();
        self.encode_static(buffer);
        self.encode_dynamic(buffer);
        proof {
            crate::codec::lemma_add_assoc(old(buffer)@, self@.spec_static(), self@.spec_dynamic());
        }
    }

    /// The encoding of the transaction.
    pub fn to_bytes(&self) -> (r: Vec<u8>)
        ensures
            r@ == self@.spec_encode(),
            self@.valid(),
            TransactionView::spec_decode(r@) == Ok::<(TransactionView, Seq<u8>), DecodeError>(
                (self@, Seq::empty()),
            ),
    {
        proof {
            if self@.valid() {
                self@.lemma_decode_encode(Seq::empty());
                assert(self@.spec_encode() + Seq::<u8>::empty() =~= self@.spec_encode());
            }
        }
        let mut buffer: Vec<u8> = Vec::new();
        self.encode(&mut buffer);
        assert(Seq::<u8>::empty() + self@.spec_encode() =~= self@.spec_encode());
        buffer
    }

    /// Reads the static part of an encoded transaction: looks at the tag,
    /// which stays unread, and reads the header that the tag calls for.
    pub fn decode_static(reader: &mut Reader) -> (r: Result<TransactionHeader, DecodeError>)
        ensures
            match TransactionView::spec_decode_static(old(reader).remaining()) {
                Ok((h, rest)) => r == Ok::<TransactionHeader, DecodeError>(h)
                    && final(reader).remaining() == rest,
                Err(e) => r == Err::<TransactionHeader, DecodeError>(e),
            },
    {
        let tag = match reader.peek_word() {
            Ok(x) => x,
            Err(e) => {
                return Err(e);
            },
        };
        if tag == TRANSACTION_SCRIPT {
            match Script::decode_static(reader) {
                Ok(h) => Ok(TransactionHeader::Script(h)),
                Err(e) => Err(e),
            }
        } else if tag == TRANSACTION_CREATE {
            match Create::decode_static(reader) {
                Ok(h) => Ok(TransactionHeader::Create(h)),
                Err(e) => Err(e),
            }
        } else if tag == TRANSACTION_MINT {
            match Mint::decode(reader) {
                Ok(mint) => Ok(TransactionHeader::Mint(mint)),
                Err(e) => Err(e),
            }
        } else {
            Err(DecodeError::InvalidDiscriminant)
        }
    }

    /// Reads the dynamic part that `header` announces.
    pub fn decode_dynamic(header: &TransactionHeader, reader: &mut Reader) -> (r: Result<
        Transaction,
        DecodeError,
    >)
        ensures
            match TransactionView::spec_decode_dynamic(*header, old(reader).remaining()) {
                Ok((v, rest)) => r matches Ok(x) && x@ == v && final(reader).remaining() == rest,
                Err(e) => r matches Err(f) && f == e,
            },
    {
        match header {
            TransactionHeader::Script(h) => match Script::decode_dynamic(h, reader) {
                Ok(script) => Ok(Transaction::Script(script)),
                Err(e) => Err(e),
            },
            TransactionHeader::Create(h) => match Create::decode_dynamic(h, reader) {
                Ok(create) => Ok(Transaction::Create(create)),
                Err(e) => Err(e),
            },
            TransactionHeader::Mint(mint) => Ok(Transaction::Mint(*mint)),
        }
    }

    /// Reads a transaction from `reader`.
    pub fn decode(reader: &mut Reader) -> (r: Result<Transaction, DecodeError>)
        ensures
            match TransactionView::spec_decode(old(reader).remaining()) {
                Ok((v, rest)) => r matches Ok(x) && x@ == v && final(reader).remaining() == rest,
                Err(e) => r matches Err(f) && f == e,
            },
    {
        let header = match Transaction::decode_static(reader) {
            Ok(x) => x,
            Err(e) => {
                return Err(e);
            },
        };
        Transaction::decode_dynamic(&header, reader)
    }

    /// Reads a transaction from the front of `bytes`; what follows it is
    /// not looked at.
    pub fn from_bytes(bytes: &[u8]) -> (r: Result<Transaction, DecodeError>)
        ensures
            match TransactionView::spec_decode(bytes@) {
                Ok((v, _)) => r matches Ok(x) && x@ == v,
                Err(e) => r matches Err(f) && f == e,
            },
    {
        let mut reader = Reader::new(bytes);
        Transaction::decode(&mut reader)
    }
}

impl From<Script> for Transaction {
    fn from(script: Script) -> (r: Transaction) {
        Transaction::Script(script)
    }
}

impl vstd::std_specs::convert::FromSpecImpl<Script> for Transaction {
    open spec fn obeys_from_spec() -> bool {
        true
    }

    open spec fn from_spec(script: Script) -> Transaction {
        Transaction::Script(script)
    }
}

impl From<Create> for Transaction {
    fn from(create: Create) -> (r: Transaction) {
        Transaction::Create(create)
    }
}

impl vstd::std_specs::convert::FromSpecImpl<Create> for Transaction {
    open spec fn obeys_from_spec() -> bool {
        true
    }

    open spec fn from_spec(create: Create) -> Transaction {
        Transaction::Create(create)
    }
}

impl From<Mint> for Transaction {
    fn from(mint: Mint) -> (r: Transaction) {
        Transaction::Mint(mint)
    }
}

impl vstd::std_specs::convert::FromSpecImpl<Mint> for Transaction {
    open spec fn obeys_from_spec() -> bool {
        true
    }

    open spec fn from_spec(mint: Mint) -> Transaction {
        Transaction::Mint(mint)
    }
}

impl Default for Transaction {
    fn default() -> (r: Transaction)
        ensures
            r@ == TransactionView::Script(
                ScriptView {
                    gas_price: 0,
                    gas_limit: 0,
                    maturity: 0,
                    receipts_root: Bytes32::spec_zeroed(),
                    script: Seq::empty(),
                    script_data: Seq::empty(),
                    inputs: Seq::empty(),
                    outputs: Seq::empty(),
                    witnesses: Seq::empty(),
                },
            ),
    {
        proof {
            assert(spec_views(Seq::<Input>::empty()) =~= Seq::<crate::input::InputView>::empty());
            assert(spec_views(Seq::<Output>::empty()) =~= Seq::<Output>::empty());
            assert(spec_views(Seq::<Witness>::empty()) =~= Seq::<Seq<u8>>::empty());
        }
        Transaction::Script(
            Transaction::script(
                0,
                0,
                0,
                Vec::new(),
                Vec::new(),
                Vec::new(),
                Vec::new(),
                Vec::new(),
            ),
        )
    }
}

} // verus!
