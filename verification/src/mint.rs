//! Transactions that mint coins.

use vstd::prelude::*;

use crate::codec::{
    lemma_read_array32, lemma_read_word, lemma_regroup6, lemma_word_len, spec_read_array32,
    spec_read_word, spec_word, write_raw, write_word, Canonical, DecodeError, Reader,
};
use crate::input;
use crate::output;
use crate::script::{read_tag, spec_read_tag, TRANSACTION_MINT};
use crate::types::{AssetId, Bytes32, TxPointer, Word};

verus! {

/// A transaction that mints coins for the producer of a block.
#[derive(Debug, Clone, Copy, PartialEq, Eq, Hash)]
pub struct Mint {
    /// Where the transaction stands in the chain.
    pub tx_pointer: TxPointer,
    /// The contract that receives the coins, as it was.
    pub input_contract: input::Contract,
    /// The contract that receives the coins, as it becomes.
    pub output_contract: output::Contract,
    /// How many coins are minted.
    pub mint_amount: Word,
    /// The asset that is minted.
    pub mint_asset_id: AssetId,
}

impl View for Mint {
    type V = Mint;

    open spec fn view(&self) -> Mint {
        *self
    }
}

impl Canonical for Mint {
    open spec fn spec_encode(v: Mint) -> Seq<u8> {
        spec_word(TRANSACTION_MINT) + TxPointer::spec_encode(v.tx_pointer)
            + input::Contract::spec_encode(v.input_contract) + output::Contract::spec_encode(
            v.output_contract,
        ) + spec_word(v.mint_amount) + v.mint_asset_id.0@
    }

    open spec fn spec_decode(s: Seq<u8>) -> Result<(Mint, Seq<u8>), DecodeError> {
        match spec_read_tag(s, TRANSACTION_MINT) {
            Err(e) => Err(e),
            Ok(s) => match TxPointer::spec_decode(s) {
                Err(e) => Err(e),
                Ok((tx_pointer, s)) => match input::Contract::spec_decode(s) {
                    Err(e) => Err(e),
                    Ok((input_contract, s)) => match output::Contract::spec_decode(s) {
                        Err(e) => Err(e),
                        Ok((output_contract, s)) => match spec_read_word(s) {
                            Err(e) => Err(e),
                            Ok((mint_amount, s)) => match spec_read_array32(s) {
                                Err(e) => Err(e),
                                Ok((mint_asset_id, s)) => Ok(
                                    (
                                        Mint {
                                            tx_pointer,
                                            input_contract,
                                            output_contract,
                                            mint_amount,
                                            mint_asset_id: Bytes32(mint_asset_id),
                                        },
                                        s,
                                    ),
                                ),
                            },
                        },
                    },
                },
            },
        }
    }

    open spec fn spec_valid(v: Mint) -> bool {
        true
    }

    proof fn lemma_valid(&self) {
    }

    proof fn lemma_decode_encode(v: Mint, rest: Seq<u8>) {
        let e1 = TxPointer::spec_encode(v.tx_pointer);
        let e2 = input::Contract::spec_encode(v.input_contract);
        let e3 = output::Contract::spec_encode(v.output_contract);
        let e4 = spec_word(v.mint_amount);
        let e5 = v.mint_asset_id.0@;
        let t5 = e5 + rest;
        let t4 = e4 + t5;
        let t3 = e3 + t4;
        let t2 = e2 + t3;
        let t1 = e1 + t2;
        lemma_regroup6(spec_word(TRANSACTION_MINT), e1, e2, e3, e4, e5, rest);
        lemma_read_word(TRANSACTION_MINT, t1);
        TxPointer::lemma_decode_encode(v.tx_pointer, t2);
        input::Contract::lemma_decode_encode(v.input_contract, t3);
        output::Contract::lemma_decode_encode(v.output_contract, t4);
        lemma_read_word(v.mint_amount, t5);
        lemma_read_array32(v.mint_asset_id.0, rest);
    }

    fn size(&self) -> (r: usize) {
        proof {
            lemma_word_len();
        }
        288
    }

    fn encode(&self, buffer: &mut Vec<u8>) {
        write_word(buffer, TRANSACTION_MINT);
        self.tx_pointer.encode(buffer);
        self.input_contract.encode(buffer);
        self.output_contract.encode(buffer);
        write_word(buffer, self.mint_amount);
        write_raw(buffer, self.mint_asset_id.0.as_slice());
        assert(buffer@ =~= old(buffer)@ + Self::spec_encode(*self));
    }

    fn decode(reader: &mut Reader) -> (r: Result<Mint, DecodeError>) {
        match read_tag(reader, TRANSACTION_MINT) {
            Ok(_) => {},
            Err(e) => {
                return Err(e);
            },
        }
        let tx_pointer = match TxPointer::decode(reader) {
            Ok(x) => x,
            Err(e) => {
                return Err(e);
            },
        };
        let input_contract = match input::Contract::decode(reader) {
            Ok(x) => x,
            Err(e) => {
                return Err(e);
            },
        };
        let output_contract = match output::Contract::decode(reader) {
            Ok(x) => x,
            Err(e) => {
                return Err(e);
            },
        };
        let mint_amount = match reader.read_word() {
            Ok(x) => x,
            Err(e) => {
                return Err(e);
            },
        };
        let mint_asset_id = match reader.read_array32() {
            Ok(x) => x,
            Err(e) => {
                return Err(e);
            },
        };
        Ok(
            Mint {
                tx_pointer,
                input_contract,
                output_contract,
                mint_amount,
                mint_asset_id: Bytes32(mint_asset_id),
            },
        )
    }
}

impl Mint {
    /// Number of bytes of the encoding, which has no dynamic part.
    pub const LEN: usize = 288;

    /// The fields lie in the encoding one after the other, behind the tag.
    pub proof fn lemma_fields(self)
        ensures
            Self::spec_encode(self).len() == 288,
            Self::spec_encode(self).subrange(8, 24) == TxPointer::spec_encode(self.tx_pointer),
            Self::spec_encode(self).subrange(24, 176) == input::Contract::spec_encode(
                self.input_contract,
            ),
            Self::spec_encode(self).subrange(176, 248) == output::Contract::spec_encode(
                self.output_contract,
            ),
            Self::spec_encode(self).subrange(248, 256) == spec_word(self.mint_amount),
            Self::spec_encode(self).subrange(256, 288) == self.mint_asset_id.0@,
    {
        lemma_word_len();
        let e = Self::spec_encode(self);
        assert(e.subrange(8, 24) =~= TxPointer::spec_encode(self.tx_pointer));
        assert(e.subrange(24, 176) =~= input::Contract::spec_encode(self.input_contract));
        assert(e.subrange(176, 248) =~= output::Contract::spec_encode(self.output_contract));
        assert(e.subrange(248, 256) =~= spec_word(self.mint_amount));
        assert(e.subrange(256, 288) =~= self.mint_asset_id.0@);
    }

    /// Where the pointer of the transaction lies in the encoding.
    pub fn tx_pointer_offset(&self) -> (r: usize)
        ensures
            r == 8,
    {
        8
    }

    /// Where the contract as it was lies in the encoding.
    pub fn input_contract_offset(&self) -> (r: usize)
        ensures
            r == 24,
    {
        24
    }

    /// Where the contract as it becomes lies in the encoding.
    pub fn output_contract_offset(&self) -> (r: usize)
        ensures
            r == 176,
    {
        176
    }

    /// Where the amount lies in the encoding.
    pub fn mint_amount_offset(&self) -> (r: usize)
        ensures
            r == 248,
    {
        248
    }

    /// Where the asset lies in the encoding.
    pub fn mint_asset_id_offset(&self) -> (r: usize)
        ensures
            r == 256,
    {
        256
    }
}

} // verus!
