//! The outputs of a transaction.

use vstd::prelude::*;

use crate::codec::{
    lemma_read_array32, lemma_read_bounded, lemma_read_word, lemma_word_len, spec_read_array32,
    spec_read_bounded, spec_read_word, spec_word, write_raw, write_word, Canonical, DecodeError,
    Field, Reader,
};
use crate::types::{Address, AssetId, Bytes32, ContractId, Word};

verus! {

/// The new state of a contract that an input of the transaction names.
#[derive(Debug, Clone, Copy, PartialEq, Eq, Hash)]
pub struct Contract {
    /// Index of the input that names the contract.
    pub input_index: u8,
    /// Root of the contract's balances after the transaction.
    pub balance_root: Bytes32,
    /// Root of the contract's state after the transaction.
    pub state_root: Bytes32,
}

/// What a transaction makes.
#[derive(Debug, Clone, Copy, PartialEq, Eq, Hash)]
pub enum Output {
    /// Coins for `to`.
    Coin { to: Address, amount: Word, asset_id: AssetId },
    /// The new state of a contract.
    Contract(Contract),
    /// What is left of an asset, for `to`.
    Change { to: Address, amount: Word, asset_id: AssetId },
    /// Coins that the script decides on while it runs.
    Variable { to: Address, amount: Word, asset_id: AssetId },
    /// A contract that the transaction creates.
    ContractCreated { contract_id: ContractId, state_root: Bytes32 },
}

/// Tag of `Output::Coin` in the byte format.
pub const OUTPUT_COIN: u64 = 0;

/// Tag of `Output::Contract` in the byte format.
pub const OUTPUT_CONTRACT: u64 = 1;

/// Tag of `Output::Change` in the byte format.
pub const OUTPUT_CHANGE: u64 = 2;

/// Tag of `Output::Variable` in the byte format.
pub const OUTPUT_VARIABLE: u64 = 3;

/// Tag of `Output::ContractCreated` in the byte format.
pub const OUTPUT_CONTRACT_CREATED: u64 = 4;

/// Reads an address, an amount and an asset from the front of `s`.
pub open spec fn spec_read_payment(s: Seq<u8>) -> Result<
    ((Address, Word, AssetId), Seq<u8>),
    DecodeError,
> {
    match spec_read_array32(s) {
        Err(e) => Err(e),
        Ok((to, s)) => match spec_read_word(s) {
            Err(e) => Err(e),
            Ok((amount, s)) => match spec_read_array32(s) {
                Err(e) => Err(e),
                Ok((asset_id, s)) => Ok(((Bytes32(to), amount, Bytes32(asset_id)), s)),
            },
        },
    }
}

/// The bytes of an address, an amount and an asset.
pub open spec fn spec_payment(to: Address, amount: Word, asset_id: AssetId) -> Seq<u8> {
    to.0@ + spec_word(amount) + asset_id.0@
}

proof fn lemma_read_payment(to: Address, amount: Word, asset_id: AssetId, rest: Seq<u8>)
    ensures
        spec_read_payment(spec_payment(to, amount, asset_id) + rest) == Ok::<
            ((Address, Word, AssetId), Seq<u8>),
            DecodeError,
        >(((to, amount, asset_id), rest)),
{
    let t2 = asset_id.0@ + rest;
    let t1 = spec_word(amount) + t2;
    assert(spec_payment(to, amount, asset_id) + rest =~= to.0@ + t1);
    lemma_read_array32(to.0, t1);
    lemma_read_word(amount, t2);
    lemma_read_array32(asset_id.0, rest);
}

fn read_payment(reader: &mut Reader) -> (r: Result<(Address, Word, AssetId), DecodeError>)
    ensures
        match spec_read_payment(old(reader).remaining()) {
            Ok((v, rest)) => r == Ok::<(Address, Word, AssetId), DecodeError>(v)
                && final(reader).remaining() == rest,
            Err(e) => r == Err::<(Address, Word, AssetId), DecodeError>(e),
        },
{
    let to = match reader.read_array32() {
        Ok(x) => x,
        Err(e) => {
            return Err(e);
        },
    };
    let amount = match reader.read_word() {
        Ok(x) => x,
        Err(e) => {
            return Err(e);
        },
    };
    let asset_id = match reader.read_array32() {
        Ok(x) => x,
        Err(e) => {
            return Err(e);
        },
    };
    Ok((Bytes32(to), amount, Bytes32(asset_id)))
}

fn write_payment(buffer: &mut Vec<u8>, to: &Address, amount: Word, asset_id: &AssetId)
    ensures
        final(buffer)@ == old(buffer)@ + spec_payment(*to, amount, *asset_id),
{
    write_raw(buffer, to.0.as_slice());
    write_word(buffer, amount);
    write_raw(buffer, asset_id.0.as_slice());
    assert(buffer@ =~= old(buffer)@ + spec_payment(*to, amount, *asset_id));
}

impl View for Contract {
    type V = Contract;

    open spec fn view(&self) -> Contract {
        *self
    }
}

impl Canonical for Contract {
    open spec fn spec_encode(v: Contract) -> Seq<u8> {
        spec_word(v.input_index as u64) + v.balance_root.0@ + v.state_root.0@
    }

    open spec fn spec_decode(s: Seq<u8>) -> Result<(Contract, Seq<u8>), DecodeError> {
        match spec_read_bounded(s, 0xff, Field::InputIndex) {
            Err(e) => Err(e),
            Ok((input_index, s)) => match spec_read_array32(s) {
                Err(e) => Err(e),
                Ok((balance_root, s)) => match spec_read_array32(s) {
                    Err(e) => Err(e),
                    Ok((state_root, s)) => Ok(
                        (
                            Contract {
                                input_index: input_index as u8,
                                balance_root: Bytes32(balance_root),
                                state_root: Bytes32(state_root),
                            },
                            s,
                        ),
                    ),
                },
            },
        }
    }

    open spec fn spec_valid(v: Contract) -> bool {
        true
    }

    proof fn lemma_valid(&self) {
    }

    proof fn lemma_decode_encode(v: Contract, rest: Seq<u8>) {
        let t2 = v.state_root.0@ + rest;
        let t1 = v.balance_root.0@ + t2;
        assert(Self::spec_encode(v) + rest =~= spec_word(v.input_index as u64) + t1);
        lemma_read_bounded(v.input_index as u64, 0xff, Field::InputIndex, t1);
        lemma_read_array32(v.balance_root.0, t2);
        lemma_read_array32(v.state_root.0, rest);
    }

    fn size(&self) -> (r: usize) {
        proof {
            lemma_word_len();
        }
        72
    }

    fn encode(&self, buffer: &mut Vec<u8>) {
        write_word(buffer, self.input_index as u64);
        write_raw(buffer, self.balance_root.0.as_slice());
        write_raw(buffer, self.state_root.0.as_slice());
        assert(buffer@ =~= old(buffer)@ + Self::spec_encode(*self));
    }

    fn decode(reader: &mut Reader) -> (r: Result<Contract, DecodeError>) {
        let input_index = match reader.read_u8(Field::InputIndex) {
            Ok(x) => x,
            Err(e) => {
                return Err(e);
            },
        };
        let balance_root = match reader.read_array32() {
            Ok(x) => x,
            Err(e) => {
                return Err(e);
            },
        };
        let state_root = match reader.read_array32() {
            Ok(x) => x,
            Err(e) => {
                return Err(e);
            },
        };
        Ok(
            Contract {
                input_index,
                balance_root: Bytes32(balance_root),
                state_root: Bytes32(state_root),
            },
        )
    }
}

impl Output {
    /// Coins of `asset_id` for `to`.
    pub fn coin(to: Address, amount: Word, asset_id: AssetId) -> (r: Output)
        ensures
            r == (Output::Coin { to, amount, asset_id }),
    {
        Output::Coin { to, amount, asset_id }
    }

    /// The new state of the contract that the input at `input_index` names.
    pub fn contract(input_index: u8, balance_root: Bytes32, state_root: Bytes32) -> (r: Output)
        ensures
            r == Output::Contract(Contract { input_index, balance_root, state_root }),
    {
        Output::Contract(Contract { input_index, balance_root, state_root })
    }

    /// What is left of `asset_id`, for `to`.
    pub fn change(to: Address, amount: Word, asset_id: AssetId) -> (r: Output)
        ensures
            r == (Output::Change { to, amount, asset_id }),
    {
        Output::Change { to, amount, asset_id }
    }

    /// Coins that the script decides on while it runs.
    pub fn variable(to: Address, amount: Word, asset_id: AssetId) -> (r: Output)
        ensures
            r == (Output::Variable { to, amount, asset_id }),
    {
        Output::Variable { to, amount, asset_id }
    }

    /// The contract `contract_id`, created with the state `state_root`.
    pub fn contract_created(contract_id: ContractId, state_root: Bytes32) -> (r: Output)
        ensures
            r == (Output::ContractCreated { contract_id, state_root }),
    {
        Output::ContractCreated { contract_id, state_root }
    }

    /// The output as a script finds it when it starts: what the script
    /// itself decides is blank. The amount of a change is zero, and a
    /// variable output is all zeros.
    pub open spec fn spec_prepare_init_script(self) -> Output {
        match self {
            Output::Change { to, amount, asset_id } => Output::Change { to, amount: 0, asset_id },
            Output::Variable { .. } => Output::Variable {
                to: Bytes32::spec_zeroed(),
                amount: 0,
                asset_id: Bytes32::spec_zeroed(),
            },
            _ => self,
        }
    }

    /// The output as a predicate finds it: as a script finds it, and the
    /// roots of a contract's new state are zeros as well.
    pub open spec fn spec_prepare_init_predicate(self) -> Output {
        match self {
            Output::Contract(contract) => Output::Contract(
                Contract {
                    input_index: contract.input_index,
                    balance_root: Bytes32::spec_zeroed(),
                    state_root: Bytes32::spec_zeroed(),
                },
            ),
            _ => self.spec_prepare_init_script(),
        }
    }

    /// Blanks what a script decides while it runs.
    pub fn prepare_init_script(&mut self)
        ensures
            *final(self) == old(self).spec_prepare_init_script(),
    {
        match *self {
            Output::Change { to, amount, asset_id } => {
                *self = Output::Change { to, amount: 0, asset_id };
            },
            Output::Variable { .. } => {
                *self = Output::Variable {
                    to: Bytes32::zeroed(),
                    amount: 0,
                    asset_id: Bytes32::zeroed(),
                };
            },
            _ => {},
        }
    }

    /// Blanks what is not known when predicates are verified.
    pub fn prepare_init_predicate(&mut self)
        ensures
            *final(self) == old(self).spec_prepare_init_predicate(),
    {
        match *self {
            Output::Contract(contract) => {
                *self = Output::Contract(
                    Contract {
                        input_index: contract.input_index,
                        balance_root: Bytes32::zeroed(),
                        state_root: Bytes32::zeroed(),
                    },
                );
            },
            _ => {
                self.prepare_init_script();
            },
        }
    }
}

impl View for Output {
    type V = Output;

    open spec fn view(&self) -> Output {
        *self
    }
}

impl Canonical for Output {
    open spec fn spec_encode(v: Output) -> Seq<u8> {
        match v {
            Output::Coin { to, amount, asset_id } => spec_word(OUTPUT_COIN) + spec_payment(
                to,
                amount,
                asset_id,
            ),
            Output::Contract(contract) => spec_word(OUTPUT_CONTRACT) + Contract::spec_encode(
                contract,
            ),
            Output::Change { to, amount, asset_id } => spec_word(OUTPUT_CHANGE) + spec_payment(
                to,
                amount,
                asset_id,
            ),
            Output::Variable { to, amount, asset_id } => spec_word(OUTPUT_VARIABLE)
                + spec_payment(to, amount, asset_id),
            Output::ContractCreated { contract_id, state_root } => spec_word(
                OUTPUT_CONTRACT_CREATED,
            ) + contract_id.0@ + state_root.0@,
        }
    }

    open spec fn spec_decode(s: Seq<u8>) -> Result<(Output, Seq<u8>), DecodeError> {
        match spec_read_word(s) {
            Err(e) => Err(e),
            Ok((tag, s)) => if tag == OUTPUT_COIN {
                match spec_read_payment(s) {
                    Err(e) => Err(e),
                    Ok(((to, amount, asset_id), s)) => Ok(
                        (Output::Coin { to, amount, asset_id }, s),
                    ),
                }
            } else if tag == OUTPUT_CONTRACT {
                match Contract::spec_decode(s) {
                    Err(e) => Err(e),
                    Ok((contract, s)) => Ok((Output::Contract(contract), s)),
                }
            } else if tag == OUTPUT_CHANGE {
                match spec_read_payment(s) {
                    Err(e) => Err(e),
                    Ok(((to, amount, asset_id), s)) => Ok(
                        (Output::Change { to, amount, asset_id }, s),
                    ),
                }
            } else if tag == OUTPUT_VARIABLE {
                match spec_read_payment(s) {
                    Err(e) => Err(e),
                    Ok(((to, amount, asset_id), s)) => Ok(
                        (Output::Variable { to, amount, asset_id }, s),
                    ),
                }
            } else if tag == OUTPUT_CONTRACT_CREATED {
                match spec_read_array32(s) {
                    Err(e) => Err(e),
                    Ok((contract_id, s)) => match spec_read_array32(s) {
                        Err(e) => Err(e),
                        Ok((state_root, s)) => Ok(
                            (
                                Output::ContractCreated {
                                    contract_id: Bytes32(contract_id),
                                    state_root: Bytes32(state_root),
                                },
                                s,
                            ),
                        ),
                    },
                }
            } else {
                Err(DecodeError::InvalidDiscriminant)
            },
        }
    }

    open spec fn spec_valid(v: Output) -> bool {
        true
    }

    proof fn lemma_valid(&self) {
    }

    proof fn lemma_decode_encode(v: Output, rest: Seq<u8>) {
        match v {
            Output::Coin { to, amount, asset_id } => {
                let t1 = spec_payment(to, amount, asset_id) + rest;
                assert(Self::spec_encode(v) + rest =~= spec_word(OUTPUT_COIN) + t1);
                lemma_read_word(OUTPUT_COIN, t1);
                lemma_read_payment(to, amount, asset_id, rest);
            },
            Output::Contract(contract) => {
                let t1 = Contract::spec_encode(contract) + rest;
                assert(Self::spec_encode(v) + rest =~= spec_word(OUTPUT_CONTRACT) + t1);
                lemma_read_word(OUTPUT_CONTRACT, t1);
                Contract::lemma_decode_encode(contract, rest);
            },
            Output::Change { to, amount, asset_id } => {
                let t1 = spec_payment(to, amount, asset_id) + rest;
                assert(Self::spec_encode(v) + rest =~= spec_word(OUTPUT_CHANGE) + t1);
                lemma_read_word(OUTPUT_CHANGE, t1);
                lemma_read_payment(to, amount, asset_id, rest);
            },
            Output::Variable { to, amount, asset_id } => {
                let t1 = spec_payment(to, amount, asset_id) + rest;
                assert(Self::spec_encode(v) + rest =~= spec_word(OUTPUT_VARIABLE) + t1);
                lemma_read_word(OUTPUT_VARIABLE, t1);
                lemma_read_payment(to, amount, asset_id, rest);
            },
            Output::ContractCreated { contract_id, state_root } => {
                let t2 = state_root.0@ + rest;
                let t1 = contract_id.0@ + t2;
                assert(Self::spec_encode(v) + rest =~= spec_word(OUTPUT_CONTRACT_CREATED) + t1);
                lemma_read_word(OUTPUT_CONTRACT_CREATED, t1);
                lemma_read_array32(contract_id.0, t2);
                lemma_read_array32(state_root.0, rest);
            },
        }
    }

    fn size(&self) -> (r: usize) {
        proof {
            lemma_word_len();
        }
        match self {
            Output::ContractCreated { .. } => 72,
            _ => 80,
        }
    }

    fn encode(&self, buffer: &mut Vec<u8>) {
        match self {
            Output::Coin { to, amount, asset_id } => {
                write_word(buffer, OUTPUT_COIN);
                write_payment(buffer, to, *amount, asset_id);
            },
            Output::Contract(contract) => {
                write_word(buffer, OUTPUT_CONTRACT);
                contract.encode(buffer);
            },
            Output::Change { to, amount, asset_id } => {
                write_word(buffer, OUTPUT_CHANGE);
                write_payment(buffer, to, *amount, asset_id);
            },
            Output::Variable { to, amount, asset_id } => {
                write_word(buffer, OUTPUT_VARIABLE);
                write_payment(buffer, to, *amount, asset_id);
            },
            Output::ContractCreated { contract_id, state_root } => {
                write_word(buffer, OUTPUT_CONTRACT_CREATED);
                write_raw(buffer, contract_id.0.as_slice());
                write_raw(buffer, state_root.0.as_slice());
            },
        }
        assert(buffer@ =~= old(buffer)@ + Self::spec_encode(*self));
    }

    fn decode(reader: &mut Reader) -> (r: Result<Output, DecodeError>) {
        let tag = match reader.read_word() {
            Ok(x) => x,
            Err(e) => {
                return Err(e);
            },
        };
        if tag == OUTPUT_COIN {
            match read_payment(reader) {
                Ok((to, amount, asset_id)) => Ok(Output::Coin { to, amount, asset_id }),
                Err(e) => Err(e),
            }
        } else if tag == OUTPUT_CONTRACT {
            match Contract::decode(reader) {
                Ok(contract) => Ok(Output::Contract(contract)),
                Err(e) => Err(e),
            }
        } else if tag == OUTPUT_CHANGE {
            match read_payment(reader) {
                Ok((to, amount, asset_id)) => Ok(Output::Change { to, amount, asset_id }),
                Err(e) => Err(e),
            }
        } else if tag == OUTPUT_VARIABLE {
            match read_payment(reader) {
                Ok((to, amount, asset_id)) => Ok(Output::Variable { to, amount, asset_id }),
                Err(e) => Err(e),
            }
        } else if tag == OUTPUT_CONTRACT_CREATED {
            let contract_id = match reader.read_array32() {
                Ok(x) => x,
                Err(e) => {
                    return Err(e);
                },
            };
            let state_root = match reader.read_array32() {
                Ok(x) => x,
                Err(e) => {
                    return Err(e);
                },
            };
            Ok(
                Output::ContractCreated {
                    contract_id: Bytes32(contract_id),
                    state_root: Bytes32(state_root),
                },
            )
        } else {
            Err(DecodeError::InvalidDiscriminant)
        }
    }
}

} // verus!
