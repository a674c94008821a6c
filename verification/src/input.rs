//! The inputs of a transaction.

use vstd::prelude::*;

use crate::codec::{
    aligned_size, lemma_add_assoc, lemma_padded_len, lemma_word_len, lemma_regroup3, lemma_regroup4, lemma_regroup5,
    lemma_regroup6, lemma_read_array32, lemma_read_bounded, lemma_read_bytes, lemma_read_word,
    spec_aligned, spec_padded, spec_read_array32, spec_read_bounded, spec_read_bytes,
    spec_read_word, spec_saturate, spec_word, write_padded, write_raw, write_word, Canonical,
    DecodeError, Field, Reader,
};
use crate::crypto::{sha256, spec_sha256, PublicKey};
use crate::types::{
    Address, AssetId, BlockHeight, Bytes32, ContractId, Nonce, TxPointer, UtxoId, Word,
};

verus! {

/// A coin that a signature unlocks.
#[derive(Debug, Clone, Copy, PartialEq, Eq, Hash)]
pub struct CoinSigned {
    pub utxo_id: UtxoId,
    pub owner: Address,
    pub amount: Word,
    pub asset_id: AssetId,
    pub tx_pointer: TxPointer,
    pub witness_index: u8,
    pub maturity: BlockHeight,
}

/// A coin that a predicate unlocks.
#[derive(Debug, Clone, PartialEq, Eq, Hash)]
pub struct CoinPredicate {
    pub utxo_id: UtxoId,
    pub owner: Address,
    pub amount: Word,
    pub asset_id: AssetId,
    pub tx_pointer: TxPointer,
    pub maturity: BlockHeight,
    pub predicate_gas_used: Word,
    pub predicate: Vec<u8>,
    pub predicate_data: Vec<u8>,
}

/// A contract that the transaction calls.
#[derive(Debug, Clone, Copy, PartialEq, Eq, Hash)]
pub struct Contract {
    pub utxo_id: UtxoId,
    pub balance_root: Bytes32,
    pub state_root: Bytes32,
    pub tx_pointer: TxPointer,
    pub contract_id: ContractId,
}

/// A message without data that a signature unlocks.
#[derive(Debug, Clone, Copy, PartialEq, Eq, Hash)]
pub struct MessageCoinSigned {
    pub sender: Address,
    pub recipient: Address,
    pub amount: Word,
    pub nonce: Nonce,
    pub witness_index: u8,
}

/// A message without data that a predicate unlocks.
#[derive(Debug, Clone, PartialEq, Eq, Hash)]
pub struct MessageCoinPredicate {
    pub sender: Address,
    pub recipient: Address,
    pub amount: Word,
    pub nonce: Nonce,
    pub predicate_gas_used: Word,
    pub predicate: Vec<u8>,
    pub predicate_data: Vec<u8>,
}

/// A message with data that a signature unlocks.
#[derive(Debug, Clone, PartialEq, Eq, Hash)]
pub struct MessageDataSigned {
    pub sender: Address,
    pub recipient: Address,
    pub amount: Word,
    pub nonce: Nonce,
    pub witness_index: u8,
    pub data: Vec<u8>,
}

/// A message with data that a predicate unlocks.
#[derive(Debug, Clone, PartialEq, Eq, Hash)]
pub struct MessageDataPredicate {
    pub sender: Address,
    pub recipient: Address,
    pub amount: Word,
    pub nonce: Nonce,
    pub data: Vec<u8>,
    pub predicate_gas_used: Word,
    pub predicate: Vec<u8>,
    pub predicate_data: Vec<u8>,
}

/// What a transaction spends or calls.
#[derive(Debug, Clone, PartialEq, Eq, Hash)]
pub enum Input {
    CoinSigned(CoinSigned),
    CoinPredicate(CoinPredicate),
    Contract(Contract),
    MessageCoinSigned(MessageCoinSigned),
    MessageCoinPredicate(MessageCoinPredicate),
    MessageDataSigned(MessageDataSigned),
    MessageDataPredicate(MessageDataPredicate),
}

/// Model of a `CoinPredicate`.
pub struct CoinPredicateView {
    pub utxo_id: UtxoId,
    pub owner: Address,
    pub amount: Word,
    pub asset_id: AssetId,
    pub tx_pointer: TxPointer,
    pub maturity: BlockHeight,
    pub predicate_gas_used: Word,
    pub predicate: Seq<u8>,
    pub predicate_data: Seq<u8>,
}

/// Model of a `MessageCoinPredicate`.
pub struct MessageCoinPredicateView {
    pub sender: Address,
    pub recipient: Address,
    pub amount: Word,
    pub nonce: Nonce,
    pub predicate_gas_used: Word,
    pub predicate: Seq<u8>,
    pub predicate_data: Seq<u8>,
}

/// Model of a `MessageDataSigned`.
pub struct MessageDataSignedView {
    pub sender: Address,
    pub recipient: Address,
    pub amount: Word,
    pub nonce: Nonce,
    pub witness_index: u8,
    pub data: Seq<u8>,
}

/// Model of a `MessageDataPredicate`.
pub struct MessageDataPredicateView {
    pub sender: Address,
    pub recipient: Address,
    pub amount: Word,
    pub nonce: Nonce,
    pub data: Seq<u8>,
    pub predicate_gas_used: Word,
    pub predicate: Seq<u8>,
    pub predicate_data: Seq<u8>,
}

/// Model of an `Input`.
pub enum InputView {
    CoinSigned(CoinSigned),
    CoinPredicate(CoinPredicateView),
    Contract(Contract),
    MessageCoinSigned(MessageCoinSigned),
    MessageCoinPredicate(MessageCoinPredicateView),
    MessageDataSigned(MessageDataSignedView),
    MessageDataPredicate(MessageDataPredicateView),
}

impl View for CoinPredicate {
    type V = CoinPredicateView;

    open spec fn view(&self) -> CoinPredicateView {
        CoinPredicateView {
            utxo_id: self.utxo_id,
            owner: self.owner,
            amount: self.amount,
            asset_id: self.asset_id,
            tx_pointer: self.tx_pointer,
            maturity: self.maturity,
            predicate_gas_used: self.predicate_gas_used,
            predicate: self.predicate@,
            predicate_data: self.predicate_data@,
        }
    }
}

impl View for MessageCoinPredicate {
    type V = MessageCoinPredicateView;

    open spec fn view(&self) -> MessageCoinPredicateView {
        MessageCoinPredicateView {
            sender: self.sender,
            recipient: self.recipient,
            amount: self.amount,
            nonce: self.nonce,
            predicate_gas_used: self.predicate_gas_used,
            predicate: self.predicate@,
            predicate_data: self.predicate_data@,
        }
    }
}

impl View for MessageDataSigned {
    type V = MessageDataSignedView;

    open spec fn view(&self) -> MessageDataSignedView {
        MessageDataSignedView {
            sender: self.sender,
            recipient: self.recipient,
            amount: self.amount,
            nonce: self.nonce,
            witness_index: self.witness_index,
            data: self.data@,
        }
    }
}

impl View for MessageDataPredicate {
    type V = MessageDataPredicateView;

    open spec fn view(&self) -> MessageDataPredicateView {
        MessageDataPredicateView {
            sender: self.sender,
            recipient: self.recipient,
            amount: self.amount,
            nonce: self.nonce,
            data: self.data@,
            predicate_gas_used: self.predicate_gas_used,
            predicate: self.predicate@,
            predicate_data: self.predicate_data@,
        }
    }
}

impl View for Input {
    type V = InputView;

    open spec fn view(&self) -> InputView {
        match *self {
            Input::CoinSigned(c) => InputView::CoinSigned(c),
            Input::CoinPredicate(c) => InputView::CoinPredicate(c@),
            Input::Contract(c) => InputView::Contract(c),
            Input::MessageCoinSigned(m) => InputView::MessageCoinSigned(m),
            Input::MessageCoinPredicate(m) => InputView::MessageCoinPredicate(m@),
            Input::MessageDataSigned(m) => InputView::MessageDataSigned(m@),
            Input::MessageDataPredicate(m) => InputView::MessageDataPredicate(m@),
        }
    }
}

/// Tag of `Input::CoinSigned` in the byte format.
pub const INPUT_COIN_SIGNED: u64 = 0;

/// Tag of `Input::CoinPredicate` in the byte format.
pub const INPUT_COIN_PREDICATE: u64 = 1;

/// Tag of `Input::Contract` in the byte format.
pub const INPUT_CONTRACT: u64 = 2;

/// Tag of `Input::MessageCoinSigned` in the byte format.
pub const INPUT_MESSAGE_COIN_SIGNED: u64 = 3;

/// Tag of `Input::MessageCoinPredicate` in the byte format.
pub const INPUT_MESSAGE_COIN_PREDICATE: u64 = 4;

/// Tag of `Input::MessageDataSigned` in the byte format.
pub const INPUT_MESSAGE_DATA_SIGNED: u64 = 5;

/// Tag of `Input::MessageDataPredicate` in the byte format.
pub const INPUT_MESSAGE_DATA_PREDICATE: u64 = 6;

/// The fields that every coin starts with.
pub type CoinHead = (UtxoId, Address, Word, AssetId, TxPointer);

/// The fields that every message starts with.
pub type MessageHead = (Address, Address, Word, Nonce);

/// The bytes of the fields that every coin starts with.
pub open spec fn spec_coin_head(h: CoinHead) -> Seq<u8> {
    UtxoId::spec_encode(h.0) + h.1.0@ + spec_word(h.2) + h.3.0@ + TxPointer::spec_encode(h.4)
}

/// Reads the fields that every coin starts with.
pub open spec fn spec_read_coin_head(s: Seq<u8>) -> Result<(CoinHead, Seq<u8>), DecodeError> {
    match UtxoId::spec_decode(s) {
        Err(e) => Err(e),
        Ok((utxo_id, s)) => match spec_read_array32(s) {
            Err(e) => Err(e),
            Ok((owner, s)) => match spec_read_word(s) {
                Err(e) => Err(e),
                Ok((amount, s)) => match spec_read_array32(s) {
                    Err(e) => Err(e),
                    Ok((asset_id, s)) => match TxPointer::spec_decode(s) {
                        Err(e) => Err(e),
                        Ok((tx_pointer, s)) => Ok(
                            ((utxo_id, Bytes32(owner), amount, Bytes32(asset_id), tx_pointer), s),
                        ),
                    },
                },
            },
        },
    }
}

proof fn lemma_read_coin_head(h: CoinHead, rest: Seq<u8>)
    ensures
        spec_coin_head(h).len() == 128,
        spec_read_coin_head(spec_coin_head(h) + rest) == Ok::<(CoinHead, Seq<u8>), DecodeError>(
            (h, rest),
        ),
{
    lemma_word_len();
    let e0 = UtxoId::spec_encode(h.0);
    let e1 = h.1.0@;
    let e2 = spec_word(h.2);
    let e3 = h.3.0@;
    let e4 = TxPointer::spec_encode(h.4);
    let t4 = e4 + rest;
    let t3 = e3 + t4;
    let t2 = e2 + t3;
    let t1 = e1 + t2;
    lemma_add_assoc(e0 + e1 + e2 + e3, e4, rest);
    lemma_add_assoc(e0 + e1 + e2, e3, t4);
    lemma_add_assoc(e0 + e1, e2, t3);
    lemma_add_assoc(e0, e1, t2);
    UtxoId::lemma_decode_encode(h.0, t1);
    lemma_read_array32(h.1.0, t2);
    lemma_read_word(h.2, t3);
    lemma_read_array32(h.3.0, t4);
    TxPointer::lemma_decode_encode(h.4, rest);
}

fn write_coin_head(
    buffer: &mut Vec<u8>,
    utxo_id: &UtxoId,
    owner: &Address,
    amount: Word,
    asset_id: &AssetId,
    tx_pointer: &TxPointer,
)
    ensures
        final(buffer)@ == old(buffer)@ + spec_coin_head(
            (*utxo_id, *owner, amount, *asset_id, *tx_pointer),
        ),
{
    utxo_id.encode(buffer);
    write_raw(buffer, owner.0.as_slice());
    write_word(buffer, amount);
    write_raw(buffer, asset_id.0.as_slice());
    tx_pointer.encode(buffer);
    assert(buffer@ =~= old(buffer)@ + spec_coin_head(
        (*utxo_id, *owner, amount, *asset_id, *tx_pointer),
    ));
}

fn read_coin_head(reader: &mut Reader) -> (r: Result<CoinHead, DecodeError>)
    ensures
        match spec_read_coin_head(old(reader).remaining()) {
            Ok((h, rest)) => r == Ok::<CoinHead, DecodeError>(h) && final(reader).remaining()
                == rest,
            Err(e) => r == Err::<CoinHead, DecodeError>(e),
        },
{
    let utxo_id = match UtxoId::decode(reader) {
        Ok(x) => x,
        Err(e) => {
            return Err(e);
        },
    };
    let owner = match reader.read_array32() {
        Ok(x) => x,
        Err(e) => {
            return Err(e);
        },
    };
    let amount = match reader.read_word() {
        Ok(x) => x,
        Err(e) => {
            return Err(e);
        },
    };
    let asset_id = match reader.read_array32() {
        Ok(x) => x,
        Err(e) => {
            return Err(e);
        },
    };
    let tx_pointer = match TxPointer::decode(reader) {
        Ok(x) => x,
        Err(e) => {
            return Err(e);
        },
    };
    Ok((utxo_id, Bytes32(owner), amount, Bytes32(asset_id), tx_pointer))
}

/// The bytes of the fields that every message starts with.
pub open spec fn spec_message_head(h: MessageHead) -> Seq<u8> {
    h.0.0@ + h.1.0@ + spec_word(h.2) + h.3.0@
}

/// Reads the fields that every message starts with.
pub open spec fn spec_read_message_head(s: Seq<u8>) -> Result<
    (MessageHead, Seq<u8>),
    DecodeError,
> {
    match spec_read_array32(s) {
        Err(e) => Err(e),
        Ok((sender, s)) => match spec_read_array32(s) {
            Err(e) => Err(e),
            Ok((recipient, s)) => match spec_read_word(s) {
                Err(e) => Err(e),
                Ok((amount, s)) => match spec_read_array32(s) {
                    Err(e) => Err(e),
                    Ok((nonce, s)) => Ok(
                        ((Bytes32(sender), Bytes32(recipient), amount, Bytes32(nonce)), s),
                    ),
                },
            },
        },
    }
}

proof fn lemma_read_message_head(h: MessageHead, rest: Seq<u8>)
    ensures
        spec_message_head(h).len() == 104,
        spec_read_message_head(spec_message_head(h) + rest) == Ok::<
            (MessageHead, Seq<u8>),
            DecodeError,
        >((h, rest)),
{
    lemma_word_len();
    let t3 = h.3.0@ + rest;
    let t2 = spec_word(h.2) + t3;
    let t1 = h.1.0@ + t2;
    lemma_add_assoc(h.0.0@ + h.1.0@ + spec_word(h.2), h.3.0@, rest);
    lemma_add_assoc(h.0.0@ + h.1.0@, spec_word(h.2), t3);
    lemma_add_assoc(h.0.0@, h.1.0@, t2);
    lemma_read_array32(h.0.0, t1);
    lemma_read_array32(h.1.0, t2);
    lemma_read_word(h.2, t3);
    lemma_read_array32(h.3.0, rest);
}

fn write_message_head(
    buffer: &mut Vec<u8>,
    sender: &Address,
    recipient: &Address,
    amount: Word,
    nonce: &Nonce,
)
    ensures
        final(buffer)@ == old(buffer)@ + spec_message_head((*sender, *recipient, amount, *nonce)),
{
    write_raw(buffer, sender.0.as_slice());
    write_raw(buffer, recipient.0.as_slice());
    write_word(buffer, amount);
    write_raw(buffer, nonce.0.as_slice());
    assert(buffer@ =~= old(buffer)@ + spec_message_head((*sender, *recipient, amount, *nonce)));
}

fn read_message_head(reader: &mut Reader) -> (r: Result<MessageHead, DecodeError>)
    ensures
        match spec_read_message_head(old(reader).remaining()) {
            Ok((h, rest)) => r == Ok::<MessageHead, DecodeError>(h) && final(reader).remaining()
                == rest,
            Err(e) => r == Err::<MessageHead, DecodeError>(e),
        },
{
    let sender = match reader.read_array32() {
        Ok(x) => x,
        Err(e) => {
            return Err(e);
        },
    };
    let recipient = match reader.read_array32() {
        Ok(x) => x,
        Err(e) => {
            return Err(e);
        },
    };
    let amount = match reader.read_word() {
        Ok(x) => x,
        Err(e) => {
            return Err(e);
        },
    };
    let nonce = match reader.read_array32() {
        Ok(x) => x,
        Err(e) => {
            return Err(e);
        },
    };
    Ok((Bytes32(sender), Bytes32(recipient), amount, Bytes32(nonce)))
}

/// The words that announce a predicate: the gas it used and the lengths of
/// its code and of its data.
pub open spec fn spec_predicate_head(gas_used: Word, predicate: Seq<u8>, data: Seq<u8>) -> Seq<
    u8,
> {
    spec_word(gas_used) + spec_word(predicate.len() as u64) + spec_word(data.len() as u64)
}

/// The padded code and data of a predicate.
pub open spec fn spec_predicate_tail(predicate: Seq<u8>, data: Seq<u8>) -> Seq<u8> {
    spec_padded(predicate) + spec_padded(data)
}

/// Reads the words that announce a predicate.
pub open spec fn spec_read_predicate_head(s: Seq<u8>) -> Result<
    ((Word, u64, u64), Seq<u8>),
    DecodeError,
> {
    match spec_read_word(s) {
        Err(e) => Err(e),
        Ok((gas_used, s)) => match spec_read_word(s) {
            Err(e) => Err(e),
            Ok((predicate_len, s)) => match spec_read_word(s) {
                Err(e) => Err(e),
                Ok((data_len, s)) => Ok(((gas_used, predicate_len, data_len), s)),
            },
        },
    }
}

/// Reads the code and the data of a predicate, of the lengths announced.
pub open spec fn spec_read_predicate_tail(s: Seq<u8>, predicate_len: u64, data_len: u64) -> Result<
    ((Seq<u8>, Seq<u8>), Seq<u8>),
    DecodeError,
> {
    match spec_read_bytes(s, predicate_len, Field::Predicate) {
        Err(e) => Err(e),
        Ok((predicate, s)) => match spec_read_bytes(s, data_len, Field::PredicateData) {
            Err(e) => Err(e),
            Ok((data, s)) => Ok(((predicate, data), s)),
        },
    }
}

proof fn lemma_read_predicate_head(gas_used: Word, predicate: Seq<u8>, data: Seq<u8>, rest: Seq<u8>)
    ensures
        spec_predicate_head(gas_used, predicate, data).len() == 24,
        spec_read_predicate_head(spec_predicate_head(gas_used, predicate, data) + rest) == Ok::<
            ((Word, u64, u64), Seq<u8>),
            DecodeError,
        >(((gas_used, predicate.len() as u64, data.len() as u64), rest)),
{
    lemma_word_len();
    let t2 = spec_word(data.len() as u64) + rest;
    let t1 = spec_word(predicate.len() as u64) + t2;
    lemma_regroup3(
        spec_word(gas_used),
        spec_word(predicate.len() as u64),
        spec_word(data.len() as u64),
        rest,
    );
    lemma_read_word(gas_used, t1);
    lemma_read_word(predicate.len() as u64, t2);
    lemma_read_word(data.len() as u64, rest);
}

proof fn lemma_read_predicate_tail(predicate: Seq<u8>, data: Seq<u8>, rest: Seq<u8>)
    requires
        predicate.len() <= u64::MAX,
        data.len() <= u64::MAX,
    ensures
        spec_read_predicate_tail(
            spec_predicate_tail(predicate, data) + rest,
            predicate.len() as u64,
            data.len() as u64,
        ) == Ok::<((Seq<u8>, Seq<u8>), Seq<u8>), DecodeError>(((predicate, data), rest)),
{
    let t1 = spec_padded(data) + rest;
    lemma_add_assoc(spec_padded(predicate), spec_padded(data), rest);
    lemma_read_bytes(predicate, Field::Predicate, t1);
    lemma_read_bytes(data, Field::PredicateData, rest);
}

fn write_predicate_head(buffer: &mut Vec<u8>, gas_used: Word, predicate: &Vec<u8>, data: &Vec<u8>)
    ensures
        final(buffer)@ == old(buffer)@ + spec_predicate_head(gas_used, predicate@, data@),
{
    write_word(buffer, gas_used);
    write_word(buffer, predicate.len() as u64);
    write_word(buffer, data.len() as u64);
    assert(buffer@ =~= old(buffer)@ + spec_predicate_head(gas_used, predicate@, data@));
}

fn write_predicate_tail(buffer: &mut Vec<u8>, predicate: &Vec<u8>, data: &Vec<u8>)
    ensures
        final(buffer)@ == old(buffer)@ + spec_predicate_tail(predicate@, data@),
{
    write_padded(buffer, predicate.as_slice());
    write_padded(buffer, data.as_slice());
    assert(buffer@ =~= old(buffer)@ + spec_predicate_tail(predicate@, data@));
}

fn read_predicate_head(reader: &mut Reader) -> (r: Result<(Word, u64, u64), DecodeError>)
    ensures
        match spec_read_predicate_head(old(reader).remaining()) {
            Ok((h, rest)) => r == Ok::<(Word, u64, u64), DecodeError>(h)
                && final(reader).remaining() == rest,
            Err(e) => r == Err::<(Word, u64, u64), DecodeError>(e),
        },
{
    let gas_used = match reader.read_word() {
        Ok(x) => x,
        Err(e) => {
            return Err(e);
        },
    };
    let predicate_len = match reader.read_word() {
        Ok(x) => x,
        Err(e) => {
            return Err(e);
        },
    };
    let data_len = match reader.read_word() {
        Ok(x) => x,
        Err(e) => {
            return Err(e);
        },
    };
    Ok((gas_used, predicate_len, data_len))
}

fn read_predicate_tail(reader: &mut Reader, predicate_len: u64, data_len: u64) -> (r: Result<
    (Vec<u8>, Vec<u8>),
    DecodeError,
>)
    ensures
        match spec_read_predicate_tail(old(reader).remaining(), predicate_len, data_len) {
            Ok(((predicate, data), rest)) => r matches Ok((p, d)) && p@ == predicate && d@ == data
                && final(reader).remaining() == rest,
            Err(e) => r matches Err(f) && f == e,
        },
{
    let predicate = match reader.read_bytes(predicate_len, Field::Predicate) {
        Ok(x) => x,
        Err(e) => {
            return Err(e);
        },
    };
    let data = match reader.read_bytes(data_len, Field::PredicateData) {
        Ok(x) => x,
        Err(e) => {
            return Err(e);
        },
    };
    Ok((predicate, data))
}

impl View for Contract {
    type V = Contract;

    open spec fn view(&self) -> Contract {
        *self
    }
}

impl Canonical for Contract {
    open spec fn spec_encode(v: Contract) -> Seq<u8> {
        UtxoId::spec_encode(v.utxo_id) + v.balance_root.0@ + v.state_root.0@
            + TxPointer::spec_encode(v.tx_pointer) + v.contract_id.0@
    }

    open spec fn spec_decode(s: Seq<u8>) -> Result<(Contract, Seq<u8>), DecodeError> {
        match UtxoId::spec_decode(s) {
            Err(e) => Err(e),
            Ok((utxo_id, s)) => match spec_read_array32(s) {
                Err(e) => Err(e),
                Ok((balance_root, s)) => match spec_read_array32(s) {
                    Err(e) => Err(e),
                    Ok((state_root, s)) => match TxPointer::spec_decode(s) {
                        Err(e) => Err(e),
                        Ok((tx_pointer, s)) => match spec_read_array32(s) {
                            Err(e) => Err(e),
                            Ok((contract_id, s)) => Ok(
                                (
                                    Contract {
                                        utxo_id,
                                        balance_root: Bytes32(balance_root),
                                        state_root: Bytes32(state_root),
                                        tx_pointer,
                                        contract_id: Bytes32(contract_id),
                                    },
                                    s,
                                ),
                            ),
                        },
                    },
                },
            },
        }
    }

    open spec fn spec_valid(v: Contract) -> bool {
        true
    }

    proof fn lemma_valid(&self) {
    }

    proof fn lemma_decode_encode(v: Contract, rest: Seq<u8>) {
        let e1 = UtxoId::spec_encode(v.utxo_id);
        let e2 = v.balance_root.0@;
        let e3 = v.state_root.0@;
        let e4 = TxPointer::spec_encode(v.tx_pointer);
        let e5 = v.contract_id.0@;
        let t4 = e5 + rest;
        let t3 = e4 + t4;
        let t2 = e3 + t3;
        let t1 = e2 + t2;
        lemma_regroup5(e1, e2, e3, e4, e5, rest);
        UtxoId::lemma_decode_encode(v.utxo_id, t1);
        lemma_read_array32(v.balance_root.0, t2);
        lemma_read_array32(v.state_root.0, t3);
        TxPointer::lemma_decode_encode(v.tx_pointer, t4);
        lemma_read_array32(v.contract_id.0, rest);
    }

    fn size(&self) -> (r: usize) {
        proof {
            lemma_word_len();
        }
        152
    }

    fn encode(&self, buffer: &mut Vec<u8>) {
        self.utxo_id.encode(buffer);
        write_raw(buffer, self.balance_root.0.as_slice());
        write_raw(buffer, self.state_root.0.as_slice());
        self.tx_pointer.encode(buffer);
        write_raw(buffer, self.contract_id.0.as_slice());
        assert(buffer@ =~= old(buffer)@ + Self::spec_encode(*self));
    }

    fn decode(reader: &mut Reader) -> (r: Result<Contract, DecodeError>) {
        let utxo_id = match UtxoId::decode(reader) {
            Ok(x) => x,
            Err(e) => {
                return Err(e);
            },
        };
        let balance_root = match reader.read_array32() {
            Ok(x) => x,
            Err(e) => {
                return Err(e);
            },
        };
        let state_root = match reader.read_array32() {
            Ok(x) => x,
            Err(e) => {
                return Err(e);
            },
        };
        let tx_pointer = match TxPointer::decode(reader) {
            Ok(x) => x,
            Err(e) => {
                return Err(e);
            },
        };
        let contract_id = match reader.read_array32() {
            Ok(x) => x,
            Err(e) => {
                return Err(e);
            },
        };
        Ok(
            Contract {
                utxo_id,
                balance_root: Bytes32(balance_root),
                state_root: Bytes32(state_root),
                tx_pointer,
                contract_id: Bytes32(contract_id),
            },
        )
    }
}

impl InputView {
    /// The fields that every coin starts with, where the input is a coin.
    pub open spec fn coin_head(self) -> CoinHead {
        match self {
            InputView::CoinSigned(c) => (c.utxo_id, c.owner, c.amount, c.asset_id, c.tx_pointer),
            InputView::CoinPredicate(c) => (
                c.utxo_id,
                c.owner,
                c.amount,
                c.asset_id,
                c.tx_pointer,
            ),
            _ => arbitrary(),
        }
    }

    /// The fields that every message starts with, where the input is a
    /// message.
    pub open spec fn message_head(self) -> MessageHead {
        match self {
            InputView::MessageCoinSigned(m) => (m.sender, m.recipient, m.amount, m.nonce),
            InputView::MessageCoinPredicate(m) => (m.sender, m.recipient, m.amount, m.nonce),
            InputView::MessageDataSigned(m) => (m.sender, m.recipient, m.amount, m.nonce),
            InputView::MessageDataPredicate(m) => (m.sender, m.recipient, m.amount, m.nonce),
            _ => arbitrary(),
        }
    }

    /// The static part of the encoding: the tag and the fields of fixed
    /// size, among them the lengths of the byte strings.
    pub open spec fn spec_static(self) -> Seq<u8> {
        match self {
            InputView::CoinSigned(c) => spec_word(INPUT_COIN_SIGNED) + spec_coin_head(
                self.coin_head(),
            ) + spec_word(c.witness_index as u64) + spec_word(c.maturity as u64),
            InputView::CoinPredicate(c) => spec_word(INPUT_COIN_PREDICATE) + spec_coin_head(
                self.coin_head(),
            ) + spec_word(c.maturity as u64) + spec_predicate_head(
                c.predicate_gas_used,
                c.predicate,
                c.predicate_data,
            ),
            InputView::Contract(c) => spec_word(INPUT_CONTRACT) + Contract::spec_encode(c),
            InputView::MessageCoinSigned(m) => spec_word(INPUT_MESSAGE_COIN_SIGNED)
                + spec_message_head(self.message_head()) + spec_word(m.witness_index as u64),
            InputView::MessageCoinPredicate(m) => spec_word(INPUT_MESSAGE_COIN_PREDICATE)
                + spec_message_head(self.message_head()) + spec_predicate_head(
                m.predicate_gas_used,
                m.predicate,
                m.predicate_data,
            ),
            InputView::MessageDataSigned(m) => spec_word(INPUT_MESSAGE_DATA_SIGNED)
                + spec_message_head(self.message_head()) + spec_word(m.witness_index as u64)
                + spec_word(m.data.len() as u64),
            InputView::MessageDataPredicate(m) => spec_word(INPUT_MESSAGE_DATA_PREDICATE)
                + spec_message_head(self.message_head()) + spec_word(m.data.len() as u64)
                + spec_predicate_head(m.predicate_gas_used, m.predicate, m.predicate_data),
        }
    }

    /// The dynamic part of the encoding: the byte strings, each padded.
    pub open spec fn spec_dynamic(self) -> Seq<u8> {
        match self {
            InputView::CoinPredicate(c) => spec_predicate_tail(c.predicate, c.predicate_data),
            InputView::MessageCoinPredicate(m) => spec_predicate_tail(
                m.predicate,
                m.predicate_data,
            ),
            InputView::MessageDataSigned(m) => spec_padded(m.data),
            InputView::MessageDataPredicate(m) => spec_padded(m.data) + spec_predicate_tail(
                m.predicate,
                m.predicate_data,
            ),
            _ => Seq::empty(),
        }
    }

    /// Number of bytes of the static part.
    pub open spec fn spec_size_static(self) -> nat {
        match self {
            InputView::CoinSigned(_) => 152,
            InputView::CoinPredicate(_) => 168,
            InputView::Contract(_) => 160,
            InputView::MessageCoinSigned(_) => 120,
            InputView::MessageCoinPredicate(_) => 136,
            InputView::MessageDataSigned(_) => 128,
            InputView::MessageDataPredicate(_) => 144,
        }
    }

    /// Number of bytes of the dynamic part.
    pub open spec fn spec_size_dynamic(self) -> nat {
        match self {
            InputView::CoinPredicate(c) => spec_aligned(c.predicate.len()) + spec_aligned(
                c.predicate_data.len(),
            ),
            InputView::MessageCoinPredicate(m) => spec_aligned(m.predicate.len()) + spec_aligned(
                m.predicate_data.len(),
            ),
            InputView::MessageDataSigned(m) => spec_aligned(m.data.len()),
            InputView::MessageDataPredicate(m) => spec_aligned(m.data.len()) + spec_aligned(
                m.predicate.len(),
            ) + spec_aligned(m.predicate_data.len()),
            _ => 0,
        }
    }

    /// The two parts of the encoding have the sizes that the variant gives.
    pub proof fn lemma_sizes(self)
        ensures
            self.spec_static().len() == self.spec_size_static(),
            self.spec_dynamic().len() == self.spec_size_dynamic(),
    {
        lemma_word_len();
        lemma_padded_len();
        match self {
            InputView::CoinSigned(c) => {
                lemma_read_coin_head(self.coin_head(), Seq::empty());
            },
            InputView::CoinPredicate(c) => {
                lemma_read_coin_head(self.coin_head(), Seq::empty());
                lemma_read_predicate_head(
                    c.predicate_gas_used,
                    c.predicate,
                    c.predicate_data,
                    Seq::empty(),
                );
            },
            InputView::Contract(c) => {},
            InputView::MessageCoinSigned(m) => {
                lemma_read_message_head(self.message_head(), Seq::empty());
            },
            InputView::MessageCoinPredicate(m) => {
                lemma_read_message_head(self.message_head(), Seq::empty());
                lemma_read_predicate_head(
                    m.predicate_gas_used,
                    m.predicate,
                    m.predicate_data,
                    Seq::empty(),
                );
            },
            InputView::MessageDataSigned(m) => {
                lemma_read_message_head(self.message_head(), Seq::empty());
            },
            InputView::MessageDataPredicate(m) => {
                lemma_read_message_head(self.message_head(), Seq::empty());
                lemma_read_predicate_head(
                    m.predicate_gas_used,
                    m.predicate,
                    m.predicate_data,
                    Seq::empty(),
                );
            },
        }
    }
}

/// Reads what follows the tag of a coin that a signature unlocks.
pub open spec fn spec_decode_coin_signed(s: Seq<u8>) -> Result<(InputView, Seq<u8>), DecodeError> {
    match spec_read_coin_head(s) {
        Err(e) => Err(e),
        Ok((h, s)) => match spec_read_bounded(s, 0xff, Field::WitnessIndex) {
            Err(e) => Err(e),
            Ok((witness_index, s)) => match spec_read_bounded(s, 0xffff_ffff, Field::Maturity) {
                Err(e) => Err(e),
                Ok((maturity, s)) => Ok(
                    (
                        InputView::CoinSigned(
                            CoinSigned {
                                utxo_id: h.0,
                                owner: h.1,
                                amount: h.2,
                                asset_id: h.3,
                                tx_pointer: h.4,
                                witness_index: witness_index as u8,
                                maturity: maturity as u32,
                            },
                        ),
                        s,
                    ),
                ),
            },
        },
    }
}

/// Reads what follows the tag of a coin that a predicate unlocks.
pub open spec fn spec_decode_coin_predicate(s: Seq<u8>) -> Result<
    (InputView, Seq<u8>),
    DecodeError,
> {
    match spec_read_coin_head(s) {
        Err(e) => Err(e),
        Ok((h, s)) => match spec_read_bounded(s, 0xffff_ffff, Field::Maturity) {
            Err(e) => Err(e),
            Ok((maturity, s)) => match spec_read_predicate_head(s) {
                Err(e) => Err(e),
                Ok((p, s)) => match spec_read_predicate_tail(s, p.1, p.2) {
                    Err(e) => Err(e),
                    Ok((t, s)) => Ok(
                        (
                            InputView::CoinPredicate(
                                CoinPredicateView {
                                    utxo_id: h.0,
                                    owner: h.1,
                                    amount: h.2,
                                    asset_id: h.3,
                                    tx_pointer: h.4,
                                    maturity: maturity as u32,
                                    predicate_gas_used: p.0,
                                    predicate: t.0,
                                    predicate_data: t.1,
                                },
                            ),
                            s,
                        ),
                    ),
                },
            },
        },
    }
}

/// Reads what follows the tag of a message without data that a signature
/// unlocks.
pub open spec fn spec_decode_message_coin_signed(s: Seq<u8>) -> Result<
    (InputView, Seq<u8>),
    DecodeError,
> {
    match spec_read_message_head(s) {
        Err(e) => Err(e),
        Ok((h, s)) => match spec_read_bounded(s, 0xff, Field::WitnessIndex) {
            Err(e) => Err(e),
            Ok((witness_index, s)) => Ok(
                (
                    InputView::MessageCoinSigned(
                        MessageCoinSigned {
                            sender: h.0,
                            recipient: h.1,
                            amount: h.2,
                            nonce: h.3,
                            witness_index: witness_index as u8,
                        },
                    ),
                    s,
                ),
            ),
        },
    }
}

/// Reads what follows the tag of a message without data that a predicate
/// unlocks.
pub open spec fn spec_decode_message_coin_predicate(s: Seq<u8>) -> Result<
    (InputView, Seq<u8>),
    DecodeError,
> {
    match spec_read_message_head(s) {
        Err(e) => Err(e),
        Ok((h, s)) => match spec_read_predicate_head(s) {
            Err(e) => Err(e),
            Ok((p, s)) => match spec_read_predicate_tail(s, p.1, p.2) {
                Err(e) => Err(e),
                Ok((t, s)) => Ok(
                    (
                        InputView::MessageCoinPredicate(
                            MessageCoinPredicateView {
                                sender: h.0,
                                recipient: h.1,
                                amount: h.2,
                                nonce: h.3,
                                predicate_gas_used: p.0,
                                predicate: t.0,
                                predicate_data: t.1,
                            },
                        ),
                        s,
                    ),
                ),
            },
        },
    }
}

/// Reads what follows the tag of a message with data that a signature
/// unlocks.
pub open spec fn spec_decode_message_data_signed(s: Seq<u8>) -> Result<
    (InputView, Seq<u8>),
    DecodeError,
> {
    match spec_read_message_head(s) {
        Err(e) => Err(e),
        Ok((h, s)) => match spec_read_bounded(s, 0xff, Field::WitnessIndex) {
            Err(e) => Err(e),
            Ok((witness_index, s)) => match spec_read_word(s) {
                Err(e) => Err(e),
                Ok((data_len, s)) => match spec_read_bytes(s, data_len, Field::Data) {
                    Err(e) => Err(e),
                    Ok((data, s)) => Ok(
                        (
                            InputView::MessageDataSigned(
                                MessageDataSignedView {
                                    sender: h.0,
                                    recipient: h.1,
                                    amount: h.2,
                                    nonce: h.3,
                                    witness_index: witness_index as u8,
                                    data,
                                },
                            ),
                            s,
                        ),
                    ),
                },
            },
        },
    }
}

/// Reads what follows the tag of a message with data that a predicate
/// unlocks.
pub open spec fn spec_decode_message_data_predicate(s: Seq<u8>) -> Result<
    (InputView, Seq<u8>),
    DecodeError,
> {
    match spec_read_message_head(s) {
        Err(e) => Err(e),
        Ok((h, s)) => match spec_read_word(s) {
            Err(e) => Err(e),
            Ok((data_len, s)) => match spec_read_predicate_head(s) {
                Err(e) => Err(e),
                Ok((p, s)) => match spec_read_bytes(s, data_len, Field::Data) {
                    Err(e) => Err(e),
                    Ok((data, s)) => match spec_read_predicate_tail(s, p.1, p.2) {
                        Err(e) => Err(e),
                        Ok((t, s)) => Ok(
                            (
                                InputView::MessageDataPredicate(
                                    MessageDataPredicateView {
                                        sender: h.0,
                                        recipient: h.1,
                                        amount: h.2,
                                        nonce: h.3,
                                        data,
                                        predicate_gas_used: p.0,
                                        predicate: t.0,
                                        predicate_data: t.1,
                                    },
                                ),
                                s,
                            ),
                        ),
                    },
                },
            },
        },
    }
}

proof fn lemma_decode_coin_signed(c: CoinSigned, rest: Seq<u8>)
    ensures
        spec_decode_coin_signed(
            spec_coin_head(InputView::CoinSigned(c).coin_head()) + (spec_word(
                c.witness_index as u64,
            ) + (spec_word(c.maturity as u64) + rest)),
        ) == Ok::<(InputView, Seq<u8>), DecodeError>((InputView::CoinSigned(c), rest)),
{
    let t2 = spec_word(c.maturity as u64) + rest;
    let t1 = spec_word(c.witness_index as u64) + t2;
    lemma_read_coin_head(InputView::CoinSigned(c).coin_head(), t1);
    lemma_read_bounded(c.witness_index as u64, 0xff, Field::WitnessIndex, t2);
    lemma_read_bounded(c.maturity as u64, 0xffff_ffff, Field::Maturity, rest);
}

proof fn lemma_decode_coin_predicate(c: CoinPredicateView, rest: Seq<u8>)
    requires
        c.predicate.len() <= u64::MAX,
        c.predicate_data.len() <= u64::MAX,
    ensures
        spec_decode_coin_predicate(
            spec_coin_head(InputView::CoinPredicate(c).coin_head()) + (spec_word(
                c.maturity as u64,
            ) + (spec_predicate_head(c.predicate_gas_used, c.predicate, c.predicate_data) + (
            spec_predicate_tail(c.predicate, c.predicate_data) + rest))),
        ) == Ok::<(InputView, Seq<u8>), DecodeError>((InputView::CoinPredicate(c), rest)),
{
    let t3 = spec_predicate_tail(c.predicate, c.predicate_data) + rest;
    let t2 = spec_predicate_head(c.predicate_gas_used, c.predicate, c.predicate_data) + t3;
    let t1 = spec_word(c.maturity as u64) + t2;
    lemma_read_coin_head(InputView::CoinPredicate(c).coin_head(), t1);
    lemma_read_bounded(c.maturity as u64, 0xffff_ffff, Field::Maturity, t2);
    lemma_read_predicate_head(c.predicate_gas_used, c.predicate, c.predicate_data, t3);
    lemma_read_predicate_tail(c.predicate, c.predicate_data, rest);
}

proof fn lemma_decode_message_coin_signed(m: MessageCoinSigned, rest: Seq<u8>)
    ensures
        spec_decode_message_coin_signed(
            spec_message_head(InputView::MessageCoinSigned(m).message_head()) + (spec_word(
                m.witness_index as u64,
            ) + rest),
        ) == Ok::<(InputView, Seq<u8>), DecodeError>((InputView::MessageCoinSigned(m), rest)),
{
    let t1 = spec_word(m.witness_index as u64) + rest;
    lemma_read_message_head(InputView::MessageCoinSigned(m).message_head(), t1);
    lemma_read_bounded(m.witness_index as u64, 0xff, Field::WitnessIndex, rest);
}

proof fn lemma_decode_message_coin_predicate(m: MessageCoinPredicateView, rest: Seq<u8>)
    requires
        m.predicate.len() <= u64::MAX,
        m.predicate_data.len() <= u64::MAX,
    ensures
        spec_decode_message_coin_predicate(
            spec_message_head(InputView::MessageCoinPredicate(m).message_head()) + (
            spec_predicate_head(m.predicate_gas_used, m.predicate, m.predicate_data) + (
            spec_predicate_tail(m.predicate, m.predicate_data) + rest)),
        ) == Ok::<(InputView, Seq<u8>), DecodeError>((InputView::MessageCoinPredicate(m), rest)),
{
    let t2 = spec_predicate_tail(m.predicate, m.predicate_data) + rest;
    let t1 = spec_predicate_head(m.predicate_gas_used, m.predicate, m.predicate_data) + t2;
    lemma_read_message_head(InputView::MessageCoinPredicate(m).message_head(), t1);
    lemma_read_predicate_head(m.predicate_gas_used, m.predicate, m.predicate_data, t2);
    lemma_read_predicate_tail(m.predicate, m.predicate_data, rest);
}

proof fn lemma_decode_message_data_signed(m: MessageDataSignedView, rest: Seq<u8>)
    requires
        m.data.len() <= u64::MAX,
    ensures
        spec_decode_message_data_signed(
            spec_message_head(InputView::MessageDataSigned(m).message_head()) + (spec_word(
                m.witness_index as u64,
            ) + (spec_word(m.data.len() as u64) + (spec_padded(m.data) + rest))),
        ) == Ok::<(InputView, Seq<u8>), DecodeError>((InputView::MessageDataSigned(m), rest)),
{
    let t3 = spec_padded(m.data) + rest;
    let t2 = spec_word(m.data.len() as u64) + t3;
    let t1 = spec_word(m.witness_index as u64) + t2;
    lemma_read_message_head(InputView::MessageDataSigned(m).message_head(), t1);
    lemma_read_bounded(m.witness_index as u64, 0xff, Field::WitnessIndex, t2);
    lemma_read_word(m.data.len() as u64, t3);
    lemma_read_bytes(m.data, Field::Data, rest);
}

proof fn lemma_decode_message_data_predicate(m: MessageDataPredicateView, rest: Seq<u8>)
    requires
        m.data.len() <= u64::MAX,
        m.predicate.len() <= u64::MAX,
        m.predicate_data.len() <= u64::MAX,
    ensures
        spec_decode_message_data_predicate(
            spec_message_head(InputView::MessageDataPredicate(m).message_head()) + (spec_word(
                m.data.len() as u64,
            ) + (spec_predicate_head(m.predicate_gas_used, m.predicate, m.predicate_data) + (
            spec_padded(m.data) + (spec_predicate_tail(m.predicate, m.predicate_data) + rest)))),
        ) == Ok::<(InputView, Seq<u8>), DecodeError>((InputView::MessageDataPredicate(m), rest)),
{
    let t4 = spec_predicate_tail(m.predicate, m.predicate_data) + rest;
    let t3 = spec_padded(m.data) + t4;
    let t2 = spec_predicate_head(m.predicate_gas_used, m.predicate, m.predicate_data) + t3;
    let t1 = spec_word(m.data.len() as u64) + t2;
    lemma_read_message_head(InputView::MessageDataPredicate(m).message_head(), t1);
    lemma_read_word(m.data.len() as u64, t2);
    lemma_read_predicate_head(m.predicate_gas_used, m.predicate, m.predicate_data, t3);
    lemma_read_bytes(m.data, Field::Data, t4);
    lemma_read_predicate_tail(m.predicate, m.predicate_data, rest);
}

fn decode_coin_signed(reader: &mut Reader) -> (r: Result<Input, DecodeError>)
    ensures
        match spec_decode_coin_signed(old(reader).remaining()) {
            Ok((v, rest)) => r matches Ok(x) && x@ == v && final(reader).remaining() == rest,
            Err(e) => r matches Err(f) && f == e,
        },
{
    let h = match read_coin_head(reader) {
        Ok(x) => x,
        Err(e) => {
            return Err(e);
        },
    };
    let witness_index = match reader.read_u8(Field::WitnessIndex) {
        Ok(x) => x,
        Err(e) => {
            return Err(e);
        },
    };
    let maturity = match reader.read_u32(Field::Maturity) {
        Ok(x) => x,
        Err(e) => {
            return Err(e);
        },
    };
    Ok(
        Input::CoinSigned(
            CoinSigned {
                utxo_id: h.0,
                owner: h.1,
                amount: h.2,
                asset_id: h.3,
                tx_pointer: h.4,
                witness_index,
                maturity,
            },
        ),
    )
}

fn decode_coin_predicate(reader: &mut Reader) -> (r: Result<Input, DecodeError>)
    ensures
        match spec_decode_coin_predicate(old(reader).remaining()) {
            Ok((v, rest)) => r matches Ok(x) && x@ == v && final(reader).remaining() == rest,
            Err(e) => r matches Err(f) && f == e,
        },
{
    let h = match read_coin_head(reader) {
        Ok(x) => x,
        Err(e) => {
            return Err(e);
        },
    };
    let maturity = match reader.read_u32(Field::Maturity) {
        Ok(x) => x,
        Err(e) => {
            return Err(e);
        },
    };
    let p = match read_predicate_head(reader) {
        Ok(x) => x,
        Err(e) => {
            return Err(e);
        },
    };
    let t = match read_predicate_tail(reader, p.1, p.2) {
        Ok(x) => x,
        Err(e) => {
            return Err(e);
        },
    };
    Ok(
        Input::CoinPredicate(
            CoinPredicate {
                utxo_id: h.0,
                owner: h.1,
                amount: h.2,
                asset_id: h.3,
                tx_pointer: h.4,
                maturity,
                predicate_gas_used: p.0,
                predicate: t.0,
                predicate_data: t.1,
            },
        ),
    )
}

fn decode_message_coin_signed(reader: &mut Reader) -> (r: Result<Input, DecodeError>)
    ensures
        match spec_decode_message_coin_signed(old(reader).remaining()) {
            Ok((v, rest)) => r matches Ok(x) && x@ == v && final(reader).remaining() == rest,
            Err(e) => r matches Err(f) && f == e,
        },
{
    let h = match read_message_head(reader) {
        Ok(x) => x,
        Err(e) => {
            return Err(e);
        },
    };
    let witness_index = match reader.read_u8(Field::WitnessIndex) {
        Ok(x) => x,
        Err(e) => {
            return Err(e);
        },
    };
    Ok(
        Input::MessageCoinSigned(
            MessageCoinSigned {
                sender: h.0,
                recipient: h.1,
                amount: h.2,
                nonce: h.3,
                witness_index,
            },
        ),
    )
}

fn decode_message_coin_predicate(reader: &mut Reader) -> (r: Result<Input, DecodeError>)
    ensures
        match spec_decode_message_coin_predicate(old(reader).remaining()) {
            Ok((v, rest)) => r matches Ok(x) && x@ == v && final(reader).remaining() == rest,
            Err(e) => r matches Err(f) && f == e,
        },
{
    let h = match read_message_head(reader) {
        Ok(x) => x,
        Err(e) => {
            return Err(e);
        },
    };
    let p = match read_predicate_head(reader) {
        Ok(x) => x,
        Err(e) => {
            return Err(e);
        },
    };
    let t = match read_predicate_tail(reader, p.1, p.2) {
        Ok(x) => x,
        Err(e) => {
            return Err(e);
        },
    };
    Ok(
        Input::MessageCoinPredicate(
            MessageCoinPredicate {
                sender: h.0,
                recipient: h.1,
                amount: h.2,
                nonce: h.3,
                predicate_gas_used: p.0,
                predicate: t.0,
                predicate_data: t.1,
            },
        ),
    )
}

fn decode_message_data_signed(reader: &mut Reader) -> (r: Result<Input, DecodeError>)
    ensures
        match spec_decode_message_data_signed(old(reader).remaining()) {
            Ok((v, rest)) => r matches Ok(x) && x@ == v && final(reader).remaining() == rest,
            Err(e) => r matches Err(f) && f == e,
        },
{
    let h = match read_message_head(reader) {
        Ok(x) => x,
        Err(e) => {
            return Err(e);
        },
    };
    let witness_index = match reader.read_u8(Field::WitnessIndex) {
        Ok(x) => x,
        Err(e) => {
            return Err(e);
        },
    };
    let data_len = match reader.read_word() {
        Ok(x) => x,
        Err(e) => {
            return Err(e);
        },
    };
    let data = match reader.read_bytes(data_len, Field::Data) {
        Ok(x) => x,
        Err(e) => {
            return Err(e);
        },
    };
    Ok(
        Input::MessageDataSigned(
            MessageDataSigned {
                sender: h.0,
                recipient: h.1,
                amount: h.2,
                nonce: h.3,
                witness_index,
                data,
            },
        ),
    )
}

fn decode_message_data_predicate(reader: &mut Reader) -> (r: Result<Input, DecodeError>)
    ensures
        match spec_decode_message_data_predicate(old(reader).remaining()) {
            Ok((v, rest)) => r matches Ok(x) && x@ == v && final(reader).remaining() == rest,
            Err(e) => r matches Err(f) && f == e,
        },
{
    let h = match read_message_head(reader) {
        Ok(x) => x,
        Err(e) => {
            return Err(e);
        },
    };
    let data_len = match reader.read_word() {
        Ok(x) => x,
        Err(e) => {
            return Err(e);
        },
    };
    let p = match read_predicate_head(reader) {
        Ok(x) => x,
        Err(e) => {
            return Err(e);
        },
    };
    let data = match reader.read_bytes(data_len, Field::Data) {
        Ok(x) => x,
        Err(e) => {
            return Err(e);
        },
    };
    let t = match read_predicate_tail(reader, p.1, p.2) {
        Ok(x) => x,
        Err(e) => {
            return Err(e);
        },
    };
    Ok(
        Input::MessageDataPredicate(
            MessageDataPredicate {
                sender: h.0,
                recipient: h.1,
                amount: h.2,
                nonce: h.3,
                data,
                predicate_gas_used: p.0,
                predicate: t.0,
                predicate_data: t.1,
            },
        ),
    )
}

impl Input {
    /// Number of bytes of the static part of the encoding.
    pub fn size_static(&self) -> (r: usize)
        ensures
            r == self@.spec_static().len(),
    {
        proof {
            self@.lemma_sizes();
        }
        match self {
            Input::CoinSigned(_) => 152,
            Input::CoinPredicate(_) => 168,
            Input::Contract(_) => 160,
            Input::MessageCoinSigned(_) => 120,
            Input::MessageCoinPredicate(_) => 136,
            Input::MessageDataSigned(_) => 128,
            Input::MessageDataPredicate(_) => 144,
        }
    }

    /// Number of bytes of the dynamic part of the encoding, saturating.
    pub fn size_dynamic(&self) -> (r: usize)
        ensures
            r == spec_saturate(self@.spec_dynamic().len() as int),
    {
        proof {
            self@.lemma_sizes();
        }
        match self {
            Input::CoinPredicate(c) => aligned_size(c.predicate.len()).saturating_add(
                aligned_size(c.predicate_data.len()),
            ),
            Input::MessageCoinPredicate(m) => aligned_size(m.predicate.len()).saturating_add(
                aligned_size(m.predicate_data.len()),
            ),
            Input::MessageDataSigned(m) => aligned_size(m.data.len()),
            Input::MessageDataPredicate(m) => aligned_size(m.data.len()).saturating_add(
                aligned_size(m.predicate.len()),
            ).saturating_add(aligned_size(m.predicate_data.len())),
            _ => 0,
        }
    }

    /// Appends the static part of the encoding to `buffer`.
    pub fn encode_static(&self, buffer: &mut Vec<u8>)
        ensures
            final(buffer)@ == old(buffer)@ + self@.spec_static(),
    {
        match self {
            Input::CoinSigned(c) => {
                write_word(buffer, INPUT_COIN_SIGNED);
                write_coin_head(buffer, &c.utxo_id, &c.owner, c.amount, &c.asset_id, &c.tx_pointer);
                write_word(buffer, c.witness_index as u64);
                write_word(buffer, c.maturity as u64);
            },
            Input::CoinPredicate(c) => {
                write_word(buffer, INPUT_COIN_PREDICATE);
                write_coin_head(buffer, &c.utxo_id, &c.owner, c.amount, &c.asset_id, &c.tx_pointer);
                write_word(buffer, c.maturity as u64);
                write_predicate_head(buffer, c.predicate_gas_used, &c.predicate, &c.predicate_data);
            },
            Input::Contract(c) => {
                write_word(buffer, INPUT_CONTRACT);
                c.encode(buffer);
            },
            Input::MessageCoinSigned(m) => {
                write_word(buffer, INPUT_MESSAGE_COIN_SIGNED);
                write_message_head(buffer, &m.sender, &m.recipient, m.amount, &m.nonce);
                write_word(buffer, m.witness_index as u64);
            },
            Input::MessageCoinPredicate(m) => {
                write_word(buffer, INPUT_MESSAGE_COIN_PREDICATE);
                write_message_head(buffer, &m.sender, &m.recipient, m.amount, &m.nonce);
                write_predicate_head(buffer, m.predicate_gas_used, &m.predicate, &m.predicate_data);
            },
            Input::MessageDataSigned(m) => {
                write_word(buffer, INPUT_MESSAGE_DATA_SIGNED);
                write_message_head(buffer, &m.sender, &m.recipient, m.amount, &m.nonce);
                write_word(buffer, m.witness_index as u64);
                write_word(buffer, m.data.len() as u64);
            },
            Input::MessageDataPredicate(m) => {
                write_word(buffer, INPUT_MESSAGE_DATA_PREDICATE);
                write_message_head(buffer, &m.sender, &m.recipient, m.amount, &m.nonce);
                write_word(buffer, m.data.len() as u64);
                write_predicate_head(buffer, m.predicate_gas_used, &m.predicate, &m.predicate_data);
            },
        }
        assert(buffer@ =~= old(buffer)@ + self@.spec_static());
    }

    /// Appends the dynamic part of the encoding to `buffer`.
    pub fn encode_dynamic(&self, buffer: &mut Vec<u8>)
        ensures
            final(buffer)@ == old(buffer)@ + self@.spec_dynamic(),
    {
        match self {
            Input::CoinPredicate(c) => {
                write_predicate_tail(buffer, &c.predicate, &c.predicate_data);
            },
            Input::MessageCoinPredicate(m) => {
                write_predicate_tail(buffer, &m.predicate, &m.predicate_data);
            },
            Input::MessageDataSigned(m) => {
                write_padded(buffer, m.data.as_slice());
            },
            Input::MessageDataPredicate(m) => {
                write_padded(buffer, m.data.as_slice());
                write_predicate_tail(buffer, &m.predicate, &m.predicate_data);
            },
            _ => {},
        }
        assert(buffer@ =~= old(buffer)@ + self@.spec_dynamic());
    }
}

impl Canonical for Input {
    open spec fn spec_encode(v: InputView) -> Seq<u8> {
        v.spec_static() + v.spec_dynamic()
    }

    open spec fn spec_decode(s: Seq<u8>) -> Result<(InputView, Seq<u8>), DecodeError> {
        match spec_read_word(s) {
            Err(e) => Err(e),
            Ok((tag, s)) => if tag == INPUT_COIN_SIGNED {
                spec_decode_coin_signed(s)
            } else if tag == INPUT_COIN_PREDICATE {
                spec_decode_coin_predicate(s)
            } else if tag == INPUT_CONTRACT {
                match Contract::spec_decode(s) {
                    Err(e) => Err(e),
                    Ok((c, s)) => Ok((InputView::Contract(c), s)),
                }
            } else if tag == INPUT_MESSAGE_COIN_SIGNED {
                spec_decode_message_coin_signed(s)
            } else if tag == INPUT_MESSAGE_COIN_PREDICATE {
                spec_decode_message_coin_predicate(s)
            } else if tag == INPUT_MESSAGE_DATA_SIGNED {
                spec_decode_message_data_signed(s)
            } else if tag == INPUT_MESSAGE_DATA_PREDICATE {
                spec_decode_message_data_predicate(s)
            } else {
                Err(DecodeError::InvalidDiscriminant)
            },
        }
    }

    open spec fn spec_valid(v: InputView) -> bool {
        match v {
            InputView::CoinPredicate(c) => c.predicate.len() <= u64::MAX && c.predicate_data.len()
                <= u64::MAX,
            InputView::MessageCoinPredicate(m) => m.predicate.len() <= u64::MAX
                && m.predicate_data.len() <= u64::MAX,
            InputView::MessageDataSigned(m) => m.data.len() <= u64::MAX,
            InputView::MessageDataPredicate(m) => m.data.len() <= u64::MAX && m.predicate.len()
                <= u64::MAX && m.predicate_data.len() <= u64::MAX,
            _ => true,
        }
    }

    proof fn lemma_valid(&self) {
        match self {
            Input::CoinPredicate(c) => {
                assert(c.predicate.len() <= u64::MAX && c.predicate_data.len() <= u64::MAX);
            },
            Input::MessageCoinPredicate(m) => {
                assert(m.predicate.len() <= u64::MAX && m.predicate_data.len() <= u64::MAX);
            },
            Input::MessageDataSigned(m) => {
                assert(m.data.len() <= u64::MAX);
            },
            Input::MessageDataPredicate(m) => {
                assert(m.data.len() <= u64::MAX);
                assert(m.predicate.len() <= u64::MAX && m.predicate_data.len() <= u64::MAX);
            },
            _ => {},
        }
    }

    proof fn lemma_decode_encode(v: InputView, rest: Seq<u8>) {
        let empty = Seq::<u8>::empty();
        assert(v.spec_static() + empty =~= v.spec_static());
        match v {
            InputView::CoinSigned(c) => {
                let head = spec_coin_head(v.coin_head());
                let w1 = spec_word(c.witness_index as u64);
                let w2 = spec_word(c.maturity as u64);
                lemma_regroup4(spec_word(INPUT_COIN_SIGNED), head, w1, w2, rest);
                lemma_read_word(INPUT_COIN_SIGNED, head + (w1 + (w2 + rest)));
                lemma_decode_coin_signed(c, rest);
            },
            InputView::CoinPredicate(c) => {
                let head = spec_coin_head(v.coin_head());
                let w1 = spec_word(c.maturity as u64);
                let ph = spec_predicate_head(c.predicate_gas_used, c.predicate, c.predicate_data);
                let pt = spec_predicate_tail(c.predicate, c.predicate_data);
                lemma_regroup5(spec_word(INPUT_COIN_PREDICATE), head, w1, ph, pt, rest);
                lemma_read_word(INPUT_COIN_PREDICATE, head + (w1 + (ph + (pt + rest))));
                lemma_decode_coin_predicate(c, rest);
            },
            InputView::Contract(c) => {
                lemma_add_assoc(spec_word(INPUT_CONTRACT), Contract::spec_encode(c), rest);
                lemma_read_word(INPUT_CONTRACT, Contract::spec_encode(c) + rest);
                Contract::lemma_decode_encode(c, rest);
            },
            InputView::MessageCoinSigned(m) => {
                let head = spec_message_head(v.message_head());
                let w1 = spec_word(m.witness_index as u64);
                lemma_regroup3(spec_word(INPUT_MESSAGE_COIN_SIGNED), head, w1, rest);
                lemma_read_word(INPUT_MESSAGE_COIN_SIGNED, head + (w1 + rest));
                lemma_decode_message_coin_signed(m, rest);
            },
            InputView::MessageCoinPredicate(m) => {
                let head = spec_message_head(v.message_head());
                let ph = spec_predicate_head(m.predicate_gas_used, m.predicate, m.predicate_data);
                let pt = spec_predicate_tail(m.predicate, m.predicate_data);
                lemma_regroup4(spec_word(INPUT_MESSAGE_COIN_PREDICATE), head, ph, pt, rest);
                lemma_read_word(INPUT_MESSAGE_COIN_PREDICATE, head + (ph + (pt + rest)));
                lemma_decode_message_coin_predicate(m, rest);
            },
            InputView::MessageDataSigned(m) => {
                let head = spec_message_head(v.message_head());
                let w1 = spec_word(m.witness_index as u64);
                let w2 = spec_word(m.data.len() as u64);
                let d = spec_padded(m.data);
                lemma_regroup5(spec_word(INPUT_MESSAGE_DATA_SIGNED), head, w1, w2, d, rest);
                lemma_read_word(INPUT_MESSAGE_DATA_SIGNED, head + (w1 + (w2 + (d + rest))));
                lemma_decode_message_data_signed(m, rest);
            },
            InputView::MessageDataPredicate(m) => {
                let head = spec_message_head(v.message_head());
                let w1 = spec_word(m.data.len() as u64);
                let ph = spec_predicate_head(m.predicate_gas_used, m.predicate, m.predicate_data);
                let d = spec_padded(m.data);
                let pt = spec_predicate_tail(m.predicate, m.predicate_data);
                lemma_add_assoc(v.spec_static(), d, pt);
                lemma_regroup6(spec_word(INPUT_MESSAGE_DATA_PREDICATE), head, w1, ph, d, pt, rest);
                lemma_read_word(
                    INPUT_MESSAGE_DATA_PREDICATE,
                    head + (w1 + (ph + (d + (pt + rest)))),
                );
                lemma_decode_message_data_predicate(m, rest);
            },
        }
    }

    fn size(&self) -> (r: usize) {
        self.size_static().saturating_add(self.size_dynamic())
    }

    fn encode(&self, buffer: &mut Vec<u8>) {
        self.encode_static(buffer);
        self.encode_dynamic(buffer);
        proof {
            lemma_add_assoc(old(buffer)@, self@.spec_static(), self@.spec_dynamic());
        }
    }

    fn decode(reader: &mut Reader) -> (r: Result<Input, DecodeError>) {
        let tag = match reader.read_word() {
            Ok(x) => x,
            Err(e) => {
                return Err(e);
            },
        };
        if tag == INPUT_COIN_SIGNED {
            decode_coin_signed(reader)
        } else if tag == INPUT_COIN_PREDICATE {
            decode_coin_predicate(reader)
        } else if tag == INPUT_CONTRACT {
            match Contract::decode(reader) {
                Ok(c) => Ok(Input::Contract(c)),
                Err(e) => Err(e),
            }
        } else if tag == INPUT_MESSAGE_COIN_SIGNED {
            decode_message_coin_signed(reader)
        } else if tag == INPUT_MESSAGE_COIN_PREDICATE {
            decode_message_coin_predicate(reader)
        } else if tag == INPUT_MESSAGE_DATA_SIGNED {
            decode_message_data_signed(reader)
        } else if tag == INPUT_MESSAGE_DATA_PREDICATE {
            decode_message_data_predicate(reader)
        } else {
            Err(DecodeError::InvalidDiscriminant)
        }
    }
}

impl InputView {
    /// The asset that the input spends: that of a coin, the base asset for
    /// a message, none for a contract.
    pub open spec fn spec_asset_id(self, base_asset_id: AssetId) -> Option<AssetId> {
        match self {
            InputView::CoinSigned(c) => Some(c.asset_id),
            InputView::CoinPredicate(c) => Some(c.asset_id),
            InputView::Contract(_) => None,
            _ => Some(base_asset_id),
        }
    }

    /// The contract that the input names, if it names one.
    pub open spec fn spec_contract_id(self) -> Option<ContractId> {
        match self {
            InputView::Contract(c) => Some(c.contract_id),
            _ => None,
        }
    }

    /// The owner of a coin or the recipient of a message.
    pub open spec fn spec_owner(self) -> Option<Address> {
        match self {
            InputView::CoinSigned(c) => Some(c.owner),
            InputView::CoinPredicate(c) => Some(c.owner),
            InputView::Contract(_) => None,
            InputView::MessageCoinSigned(m) => Some(m.recipient),
            InputView::MessageCoinPredicate(m) => Some(m.recipient),
            InputView::MessageDataSigned(m) => Some(m.recipient),
            InputView::MessageDataPredicate(m) => Some(m.recipient),
        }
    }

    /// The index of the witness that unlocks the input, if a signature
    /// unlocks it.
    pub open spec fn spec_witness_index(self) -> Option<u8> {
        match self {
            InputView::CoinSigned(c) => Some(c.witness_index),
            InputView::MessageCoinSigned(m) => Some(m.witness_index),
            InputView::MessageDataSigned(m) => Some(m.witness_index),
            _ => None,
        }
    }

    /// The code of the predicate that unlocks the input, if a predicate
    /// unlocks it.
    pub open spec fn spec_predicate(self) -> Option<Seq<u8>> {
        match self {
            InputView::CoinPredicate(c) => Some(c.predicate),
            InputView::MessageCoinPredicate(m) => Some(m.predicate),
            InputView::MessageDataPredicate(m) => Some(m.predicate),
            _ => None,
        }
    }

    /// The amount that the input spends; a contract spends none.
    pub open spec fn spec_amount(self) -> Option<Word> {
        match self {
            InputView::CoinSigned(c) => Some(c.amount),
            InputView::CoinPredicate(c) => Some(c.amount),
            InputView::Contract(_) => None,
            InputView::MessageCoinSigned(m) => Some(m.amount),
            InputView::MessageCoinPredicate(m) => Some(m.amount),
            InputView::MessageDataSigned(m) => Some(m.amount),
            InputView::MessageDataPredicate(m) => Some(m.amount),
        }
    }

    /// The height from which a coin may be spent.
    pub open spec fn spec_maturity(self) -> Option<BlockHeight> {
        match self {
            InputView::CoinSigned(c) => Some(c.maturity),
            InputView::CoinPredicate(c) => Some(c.maturity),
            _ => None,
        }
    }

    /// The output that a coin or a contract comes from.
    pub open spec fn spec_utxo_id(self) -> Option<UtxoId> {
        match self {
            InputView::CoinSigned(c) => Some(c.utxo_id),
            InputView::CoinPredicate(c) => Some(c.utxo_id),
            InputView::Contract(c) => Some(c.utxo_id),
            _ => None,
        }
    }

    /// The nonce of a message.
    pub open spec fn spec_nonce(self) -> Option<Nonce> {
        match self {
            InputView::MessageCoinSigned(m) => Some(m.nonce),
            InputView::MessageCoinPredicate(m) => Some(m.nonce),
            InputView::MessageDataSigned(m) => Some(m.nonce),
            InputView::MessageDataPredicate(m) => Some(m.nonce),
            _ => None,
        }
    }

    /// The input as a predicate finds it: what is known only when the
    /// transaction is included is blank. The pointer of a coin is zero, and
    /// of a contract only the identifier stays.
    pub open spec fn spec_prepare_init_predicate(self) -> InputView {
        match self {
            InputView::CoinSigned(c) => InputView::CoinSigned(
                CoinSigned { tx_pointer: TxPointer { block_height: 0, tx_index: 0 }, ..c },
            ),
            InputView::CoinPredicate(c) => InputView::CoinPredicate(
                CoinPredicateView { tx_pointer: TxPointer { block_height: 0, tx_index: 0 }, ..c },
            ),
            InputView::Contract(c) => InputView::Contract(
                Contract {
                    utxo_id: UtxoId { tx_id: Bytes32::spec_zeroed(), output_index: 0 },
                    balance_root: Bytes32::spec_zeroed(),
                    state_root: Bytes32::spec_zeroed(),
                    tx_pointer: TxPointer { block_height: 0, tx_index: 0 },
                    contract_id: c.contract_id,
                },
            ),
            _ => self,
        }
    }
}

impl Input {
    /// A coin of `owner` that the witness at `witness_index` unlocks.
    pub fn coin_signed(
        utxo_id: UtxoId,
        owner: Address,
        amount: Word,
        asset_id: AssetId,
        tx_pointer: TxPointer,
        witness_index: u8,
        maturity: BlockHeight,
    ) -> (r: Input)
        ensures
            r == Input::CoinSigned(
                CoinSigned {
                    utxo_id,
                    owner,
                    amount,
                    asset_id,
                    tx_pointer,
                    witness_index,
                    maturity,
                },
            ),
    {
        Input::CoinSigned(
            CoinSigned { utxo_id, owner, amount, asset_id, tx_pointer, witness_index, maturity },
        )
    }

    /// A coin of `owner` that `predicate` unlocks.
    pub fn coin_predicate(
        utxo_id: UtxoId,
        owner: Address,
        amount: Word,
        asset_id: AssetId,
        tx_pointer: TxPointer,
        maturity: BlockHeight,
        predicate_gas_used: Word,
        predicate: Vec<u8>,
        predicate_data: Vec<u8>,
    ) -> (r: Input)
        ensures
            r == Input::CoinPredicate(
                CoinPredicate {
                    utxo_id,
                    owner,
                    amount,
                    asset_id,
                    tx_pointer,
                    maturity,
                    predicate_gas_used,
                    predicate,
                    predicate_data,
                },
            ),
    {
        Input::CoinPredicate(
            CoinPredicate {
                utxo_id,
                owner,
                amount,
                asset_id,
                tx_pointer,
                maturity,
                predicate_gas_used,
                predicate,
                predicate_data,
            },
        )
    }

    /// The contract `contract_id`, as the output `utxo_id` left it.
    pub fn contract(
        utxo_id: UtxoId,
        balance_root: Bytes32,
        state_root: Bytes32,
        tx_pointer: TxPointer,
        contract_id: ContractId,
    ) -> (r: Input)
        ensures
            r == Input::Contract(
                Contract { utxo_id, balance_root, state_root, tx_pointer, contract_id },
            ),
    {
        Input::Contract(Contract { utxo_id, balance_root, state_root, tx_pointer, contract_id })
    }

    /// A message without data that the witness at `witness_index` unlocks.
    pub fn message_coin_signed(
        sender: Address,
        recipient: Address,
        amount: Word,
        nonce: Nonce,
        witness_index: u8,
    ) -> (r: Input)
        ensures
            r == Input::MessageCoinSigned(
                MessageCoinSigned { sender, recipient, amount, nonce, witness_index },
            ),
    {
        Input::MessageCoinSigned(
            MessageCoinSigned { sender, recipient, amount, nonce, witness_index },
        )
    }

    /// A message without data that `predicate` unlocks.
    pub fn message_coin_predicate(
        sender: Address,
        recipient: Address,
        amount: Word,
        nonce: Nonce,
        predicate_gas_used: Word,
        predicate: Vec<u8>,
        predicate_data: Vec<u8>,
    ) -> (r: Input)
        ensures
            r == Input::MessageCoinPredicate(
                MessageCoinPredicate {
                    sender,
                    recipient,
                    amount,
                    nonce,
                    predicate_gas_used,
                    predicate,
                    predicate_data,
                },
            ),
    {
        Input::MessageCoinPredicate(
            MessageCoinPredicate {
                sender,
                recipient,
                amount,
                nonce,
                predicate_gas_used,
                predicate,
                predicate_data,
            },
        )
    }

    /// A message with data that the witness at `witness_index` unlocks.
    pub fn message_data_signed(
        sender: Address,
        recipient: Address,
        amount: Word,
        nonce: Nonce,
        witness_index: u8,
        data: Vec<u8>,
    ) -> (r: Input)
        ensures
            r == Input::MessageDataSigned(
                MessageDataSigned { sender, recipient, amount, nonce, witness_index, data },
            ),
    {
        Input::MessageDataSigned(
            MessageDataSigned { sender, recipient, amount, nonce, witness_index, data },
        )
    }

    /// A message with data that `predicate` unlocks.
    pub fn message_data_predicate(
        sender: Address,
        recipient: Address,
        amount: Word,
        nonce: Nonce,
        predicate_gas_used: Word,
        data: Vec<u8>,
        predicate: Vec<u8>,
        predicate_data: Vec<u8>,
    ) -> (r: Input)
        ensures
            r == Input::MessageDataPredicate(
                MessageDataPredicate {
                    sender,
                    recipient,
                    amount,
                    nonce,
                    data,
                    predicate_gas_used,
                    predicate,
                    predicate_data,
                },
            ),
    {
        Input::MessageDataPredicate(
            MessageDataPredicate {
                sender,
                recipient,
                amount,
                nonce,
                data,
                predicate_gas_used,
                predicate,
                predicate_data,
            },
        )
    }

    /// The address that owns what `key` can unlock: the digest of the key.
    pub fn owner(key: &PublicKey) -> (r: Address)
        ensures
            r.0@ == key.spec_address(),
    {
        key.address()
    }

    /// The address that owns what `predicate` unlocks: the digest of its
    /// code.
    pub fn predicate_owner(predicate: &[u8]) -> (r: Address)
        ensures
            r.0@ == spec_sha256(predicate@),
    {
        Bytes32(sha256(predicate))
    }

    /// Tells whether `owner` is the address that owns what `predicate`
    /// unlocks.
    pub fn is_predicate_owner_valid(owner: &Address, predicate: &[u8]) -> (r: bool)
        ensures
            r == (owner.0@ == spec_sha256(predicate@)),
    {
        let expected = Input::predicate_owner(predicate);
        proof {
            if owner.0@ == expected.0@ {
                assert(owner.0 =~= expected.0);
            }
        }
        owner.same(&expected)
    }

    /// The asset that the input spends: that of a coin, the base asset for
    /// a message, none for a contract.
    pub fn asset_id(&self, base_asset_id: &AssetId) -> (r: Option<AssetId>)
        ensures
            r == self@.spec_asset_id(*base_asset_id),
    {
        match self {
            Input::CoinSigned(c) => Some(c.asset_id),
            Input::CoinPredicate(c) => Some(c.asset_id),
            Input::Contract(_) => None,
            _ => Some(*base_asset_id),
        }
    }

    /// The contract that the input names, if it names one.
    pub fn contract_id(&self) -> (r: Option<ContractId>)
        ensures
            r == self@.spec_contract_id(),
    {
        match self {
            Input::Contract(c) => Some(c.contract_id),
            _ => None,
        }
    }

    /// The owner of a coin or the recipient of a message.
    pub fn input_owner(&self) -> (r: Option<Address>)
        ensures
            r == self@.spec_owner(),
    {
        match self {
            Input::CoinSigned(c) => Some(c.owner),
            Input::CoinPredicate(c) => Some(c.owner),
            Input::Contract(_) => None,
            Input::MessageCoinSigned(m) => Some(m.recipient),
            Input::MessageCoinPredicate(m) => Some(m.recipient),
            Input::MessageDataSigned(m) => Some(m.recipient),
            Input::MessageDataPredicate(m) => Some(m.recipient),
        }
    }

    /// The index of the witness that unlocks the input, if a signature
    /// unlocks it.
    pub fn witness_index(&self) -> (r: Option<u8>)
        ensures
            r == self@.spec_witness_index(),
    {
        match self {
            Input::CoinSigned(c) => Some(c.witness_index),
            Input::MessageCoinSigned(m) => Some(m.witness_index),
            Input::MessageDataSigned(m) => Some(m.witness_index),
            _ => None,
        }
    }

    /// The code of the predicate that unlocks the input, if a predicate
    /// unlocks it.
    pub fn predicate(&self) -> (r: Option<&Vec<u8>>)
        ensures
            match self@.spec_predicate() {
                Some(p) => r matches Some(x) && x@ == p,
                None => r is None,
            },
    {
        match self {
            Input::CoinPredicate(c) => Some(&c.predicate),
            Input::MessageCoinPredicate(m) => Some(&m.predicate),
            Input::MessageDataPredicate(m) => Some(&m.predicate),
            _ => None,
        }
    }

    /// The amount that the input spends; a contract spends none.
    pub fn amount(&self) -> (r: Option<Word>)
        ensures
            r == self@.spec_amount(),
    {
        match self {
            Input::CoinSigned(c) => Some(c.amount),
            Input::CoinPredicate(c) => Some(c.amount),
            Input::Contract(_) => None,
            Input::MessageCoinSigned(m) => Some(m.amount),
            Input::MessageCoinPredicate(m) => Some(m.amount),
            Input::MessageDataSigned(m) => Some(m.amount),
            Input::MessageDataPredicate(m) => Some(m.amount),
        }
    }

    /// The height from which a coin may be spent.
    pub fn maturity(&self) -> (r: Option<BlockHeight>)
        ensures
            r == self@.spec_maturity(),
    {
        match self {
            Input::CoinSigned(c) => Some(c.maturity),
            Input::CoinPredicate(c) => Some(c.maturity),
            _ => None,
        }
    }

    /// The output that a coin or a contract comes from.
    pub fn utxo_id(&self) -> (r: Option<UtxoId>)
        ensures
            r == self@.spec_utxo_id(),
    {
        match self {
            Input::CoinSigned(c) => Some(c.utxo_id),
            Input::CoinPredicate(c) => Some(c.utxo_id),
            Input::Contract(c) => Some(c.utxo_id),
            _ => None,
        }
    }

    /// The nonce of a message.
    pub fn nonce(&self) -> (r: Option<Nonce>)
        ensures
            r == self@.spec_nonce(),
    {
        match self {
            Input::MessageCoinSigned(m) => Some(m.nonce),
            Input::MessageCoinPredicate(m) => Some(m.nonce),
            Input::MessageDataSigned(m) => Some(m.nonce),
            Input::MessageDataPredicate(m) => Some(m.nonce),
            _ => None,
        }
    }

    /// Blanks what is not known when predicates are verified.
    pub fn prepare_init_predicate(&mut self)
        ensures
            final(self)@ == old(self)@.spec_prepare_init_predicate(),
    {
        match self {
            Input::CoinSigned(c) => {
                c.tx_pointer = TxPointer { block_height: 0, tx_index: 0 };
            },
            Input::CoinPredicate(c) => {
                c.tx_pointer = TxPointer { block_height: 0, tx_index: 0 };
            },
            Input::Contract(c) => {
                c.utxo_id = UtxoId { tx_id: Bytes32::zeroed(), output_index: 0 };
                c.balance_root = Bytes32::zeroed();
                c.state_root = Bytes32::zeroed();
                c.tx_pointer = TxPointer { block_height: 0, tx_index: 0 };
            },
            _ => {},
        }
    }
}

impl InputView {
    /// Where the code of the predicate starts in the encoding of the input,
    /// if a predicate unlocks it: behind the static part, and behind the
    /// data of a message.
    pub open spec fn spec_predicate_offset(self) -> Option<nat> {
        match self {
            InputView::CoinPredicate(_) => Some(168),
            InputView::MessageCoinPredicate(_) => Some(136),
            InputView::MessageDataPredicate(m) => Some(144 + spec_aligned(m.data.len())),
            _ => None,
        }
    }

    /// The code of the predicate lies in the encoding of the input at its
    /// offset.
    pub proof fn lemma_predicate_at_offset(self)
        requires
            self.spec_predicate() is Some,
        ensures
            self.spec_predicate_offset() is Some,
            self.spec_predicate_offset().unwrap() + self.spec_predicate().unwrap().len()
                <= Input::spec_encode(self).len(),
            Input::spec_encode(self).subrange(
                self.spec_predicate_offset().unwrap() as int,
                (self.spec_predicate_offset().unwrap() + self.spec_predicate().unwrap().len())
                    as int,
            ) == self.spec_predicate().unwrap(),
    {
        self.lemma_sizes();
        lemma_padded_len();
        reveal(spec_padded);
        let e = Input::spec_encode(self);
        let p = self.spec_predicate().unwrap();
        let o = self.spec_predicate_offset().unwrap() as int;
        assert(e == self.spec_static() + self.spec_dynamic());
        assert(e.subrange(o, o + p.len()) =~= p);
    }
}

impl Input {
    /// Where the code of the predicate starts in the encoding of the input,
    /// saturating, and how long it is, if a predicate unlocks the input.
    pub fn predicate_offset_and_len(&self) -> (r: Option<(usize, usize)>)
        ensures
            match self@.spec_predicate_offset() {
                Some(offset) => r == Some(
                    (spec_saturate(offset as int), self@.spec_predicate().unwrap().len() as usize),
                ),
                None => r is None,
            },
    {
        match self {
            Input::CoinPredicate(c) => Some((168, c.predicate.len())),
            Input::MessageCoinPredicate(m) => Some((136, m.predicate.len())),
            Input::MessageDataPredicate(m) => Some(
                (aligned_size(m.data.len()).saturating_add(144), m.predicate.len()),
            ),
            _ => None,
        }
    }
}

} // verus!
