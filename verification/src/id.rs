//! The identifier of a transaction, and the signing of its inputs. The
//! identifier does not depend on the signatures, so that a signature can
//! sign it.

use vstd::prelude::*;

use crate::codec::{
    lemma_array32, spec_array32, spec_views, spec_word, spec_zeros, write_word, Canonical,
};
use crate::crypto::{
    sha256, spec_public_key, spec_sha256, spec_signature, SecretKey, Signature,
};
use crate::executable::Executable;
use crate::input::{CoinSigned, Input, InputView};
use crate::script::{Script, ScriptView};
use crate::create::CreateView;
use crate::transaction::{Transaction, TransactionView};
use crate::types::{Address, AssetId, Bytes32, TxPointer, UtxoId, Witness, Word};

verus! {

/// Identifies a chain.
pub type ChainId = u64;

/// Tells whether the signature in the witness at `index` unlocks `input`.
pub open spec fn spec_input_refers(input: InputView, index: int) -> bool {
    match input.spec_witness_index() {
        Some(w) => w == index,
        None => false,
    }
}

/// Tells whether `input` belongs to `owner` and the signature in the witness
/// at `index` unlocks it.
pub open spec fn spec_input_unlocks(input: InputView, owner: Seq<u8>, index: int) -> bool {
    spec_input_refers(input, index) && match input.spec_owner() {
        Some(o) => o.0@ == owner,
        None => false,
    }
}

/// Tells whether one of `inputs` is unlocked by the signature in the witness
/// at `index`.
pub open spec fn spec_refers(inputs: Seq<InputView>, index: int) -> bool {
    exists|i: int| 0 <= i < inputs.len() && spec_input_refers(#[trigger] inputs[i], index)
}

/// Tells whether one of `inputs` belongs to `owner` and is unlocked by the
/// signature in the witness at `index`.
pub open spec fn spec_unlocks(inputs: Seq<InputView>, owner: Seq<u8>, index: int) -> bool {
    exists|i: int| 0 <= i < inputs.len() && spec_input_unlocks(#[trigger] inputs[i], owner, index)
}

/// The witnesses with zeros in place of every signature that unlocks an
/// input; the lengths stay.
pub open spec fn spec_normalized_witnesses(inputs: Seq<InputView>, witnesses: Seq<Seq<u8>>) -> Seq<
    Seq<u8>,
> {
    Seq::new(
        witnesses.len(),
        |w: int|
            if spec_refers(inputs, w) {
                spec_zeros(witnesses[w].len())
            } else {
                witnesses[w]
            },
    )
}

/// The witnesses with `signature` in place of every witness that unlocks an
/// input of `owner`.
pub open spec fn spec_signed_witnesses(
    inputs: Seq<InputView>,
    witnesses: Seq<Seq<u8>>,
    owner: Seq<u8>,
    signature: Seq<u8>,
) -> Seq<Seq<u8>> {
    Seq::new(
        witnesses.len(),
        |w: int|
            if spec_unlocks(inputs, owner, w) {
                signature
            } else {
                witnesses[w]
            },
    )
}

impl TransactionView {
    /// The transaction as it is hashed: the root of the receipts of a script
    /// is zero, and so is every signature that unlocks an input.
    pub open spec fn spec_normalized(self) -> TransactionView {
        match self {
            TransactionView::Script(script) => TransactionView::Script(
                ScriptView {
                    receipts_root: Bytes32::spec_zeroed(),
                    witnesses: spec_normalized_witnesses(script.inputs, script.witnesses),
                    ..script
                },
            ),
            TransactionView::Create(create) => TransactionView::Create(
                CreateView {
                    witnesses: spec_normalized_witnesses(create.inputs, create.witnesses),
                    ..create
                },
            ),
            TransactionView::Mint(_) => self,
        }
    }

    /// The identifier of the transaction on the chain `chain_id`: the digest
    /// of the chain's identifier followed by the encoding of the normalized
    /// transaction.
    pub open spec fn spec_id(self, chain_id: ChainId) -> Seq<u8> {
        spec_sha256(spec_word(chain_id) + self.spec_normalized().spec_encode())
    }

    /// The transaction with `signature` in every witness that unlocks an
    /// input of `owner`.
    pub open spec fn spec_signed(self, owner: Seq<u8>, signature: Seq<u8>) -> TransactionView {
        self.with_witnesses(
            spec_signed_witnesses(self.spec_inputs(), self.spec_witnesses(), owner, signature),
        )
    }

    /// Signing does not change the identifier, provided that the witnesses
    /// it fills had the length of the signature before.
    pub proof fn lemma_id_ignores_signatures(
        self,
        owner: Seq<u8>,
        signature: Seq<u8>,
        chain_id: ChainId,
    )
        requires
            forall|w: int|
                0 <= w < self.spec_witnesses().len() && spec_unlocks(self.spec_inputs(), owner, w)
                    ==> (#[trigger] self.spec_witnesses()[w]).len() == signature.len(),
        ensures
            self.spec_signed(owner, signature).spec_id(chain_id) == self.spec_id(chain_id),
    {
        let inputs = self.spec_inputs();
        let before = self.spec_witnesses();
        let after = spec_signed_witnesses(inputs, before, owner, signature);
        let a = spec_normalized_witnesses(inputs, before);
        let b = spec_normalized_witnesses(inputs, after);
        assert forall|w: int| 0 <= w < a.len() implies a[w] == b[w] by {
            if spec_unlocks(inputs, owner, w) {
                let i = choose|i: int|
                    0 <= i < inputs.len() && spec_input_unlocks(#[trigger] inputs[i], owner, w);
                assert(spec_input_refers(inputs[i], w));
                assert(spec_refers(inputs, w));
                assert(before[w].len() == signature.len());
            }
        }
        assert(a =~= b);
        match self {
            TransactionView::Script(script) => {
                assert(self.spec_signed(owner, signature).spec_normalized()
                    == self.spec_normalized());
            },
            TransactionView::Create(create) => {
                assert(self.spec_signed(owner, signature).spec_normalized()
                    == self.spec_normalized());
            },
            TransactionView::Mint(_) => {},
        }
    }
}

/// Tells whether one of `inputs` is unlocked by the signature in the witness
/// at `index`.
pub fn refers(inputs: &Vec<Input>, index: usize) -> (r: bool)
    ensures
        r == spec_refers(spec_views(inputs@), index as int),
{
    let ghost views = spec_views(inputs@);
    let n = inputs.len();
    let mut i: usize = 0;
    while i < n
        invariant
            i <= n,
            n == inputs@.len(),
            views == spec_views(inputs@),
            forall|j: int| 0 <= j < i ==> !spec_input_refers(#[trigger] views[j], index as int),
        decreases n - i,
    {
        match inputs[i].witness_index() {
            Some(w) => if w as usize == index {
                assert(spec_input_refers(views[i as int], index as int));
                return true;
            },
            None => {},
        }
        i = i + 1;
    }
    false
}

/// Tells whether one of `inputs` belongs to `owner` and is unlocked by the
/// signature in the witness at `index`.
pub fn unlocks(inputs: &Vec<Input>, owner: &Address, index: usize) -> (r: bool)
    ensures
        r == spec_unlocks(spec_views(inputs@), owner.0@, index as int),
{
    let ghost views = spec_views(inputs@);
    let n = inputs.len();
    let mut i: usize = 0;
    while i < n
        invariant
            i <= n,
            n == inputs@.len(),
            views == spec_views(inputs@),
            forall|j: int|
                0 <= j < i ==> !spec_input_unlocks(#[trigger] views[j], owner.0@, index as int),
        decreases n - i,
    {
        match (inputs[i].witness_index(), inputs[i].input_owner()) {
            (Some(w), Some(o)) => {
                proof {
                    if o.0@ == owner.0@ {
                        assert(o.0 =~= owner.0);
                    }
                }
                if w as usize == index && o.same(owner) {
                    assert(spec_input_unlocks(views[i as int], owner.0@, index as int));
                    return true;
                }
            },
            _ => {},
        }
        i = i + 1;
    }
    false
}

/// A witness of `len` zero bytes.
pub fn zero_witness(len: usize) -> (r: Witness)
    ensures
        r@ == spec_zeros(len as nat),
{
    let mut data: Vec<u8> = Vec::new();
    let mut i: usize = 0;
    while i < len
        invariant
            i <= len,
            data@ == spec_zeros(i as nat),
        decreases len - i,
    {
        data.push(0);
        i = i + 1;
        assert(data@ =~= spec_zeros(i as nat));
    }
    Witness::new(data)
}

/// The witnesses with zeros in place of every signature that unlocks an
/// input.
pub fn normalized_witnesses(inputs: &Vec<Input>, witnesses: &Vec<Witness>) -> (r: Vec<Witness>)
    ensures
        spec_views(r@) == spec_normalized_witnesses(spec_views(inputs@), spec_views(witnesses@)),
{
    let ghost target = spec_normalized_witnesses(spec_views(inputs@), spec_views(witnesses@));
    let mut out: Vec<Witness> = Vec::new();
    let n = witnesses.len();
    let mut w: usize = 0;
    while w < n
        invariant
            w <= n,
            n == witnesses@.len(),
            target == spec_normalized_witnesses(spec_views(inputs@), spec_views(witnesses@)),
            out@.len() == w,
            forall|j: int| 0 <= j < w ==> (#[trigger] out@[j])@ == target[j],
        decreases n - w,
    {
        let witness = if refers(inputs, w) {
            zero_witness(witnesses[w].len())
        } else {
            Witness::new(vstd::slice::slice_to_vec(witnesses[w].as_slice()))
        };
        out.push(witness);
        w = w + 1;
    }
    assert(spec_views(out@) =~= target);
    out
}

/// The witnesses with `signature` in place of every witness that unlocks an
/// input of `owner`.
pub fn signed_witnesses(
    inputs: &Vec<Input>,
    witnesses: &Vec<Witness>,
    owner: &Address,
    signature: &Signature,
) -> (r: Vec<Witness>)
    ensures
        spec_views(r@) == spec_signed_witnesses(
            spec_views(inputs@),
            spec_views(witnesses@),
            owner.0@,
            signature.0@,
        ),
{
    let ghost target = spec_signed_witnesses(
        spec_views(inputs@),
        spec_views(witnesses@),
        owner.0@,
        signature.0@,
    );
    let mut out: Vec<Witness> = Vec::new();
    let n = witnesses.len();
    let mut w: usize = 0;
    while w < n
        invariant
            w <= n,
            n == witnesses@.len(),
            target == spec_signed_witnesses(
                spec_views(inputs@),
                spec_views(witnesses@),
                owner.0@,
                signature.0@,
            ),
            out@.len() == w,
            forall|j: int| 0 <= j < w ==> (#[trigger] out@[j])@ == target[j],
        decreases n - w,
    {
        let witness = if unlocks(inputs, owner, w) {
            Witness::new(vstd::slice::slice_to_vec(signature.0.as_slice()))
        } else {
            Witness::new(vstd::slice::slice_to_vec(witnesses[w].as_slice()))
        };
        out.push(witness);
        w = w + 1;
    }
    assert(spec_views(out@) =~= target);
    out
}

impl Transaction {
    /// The identifier of the transaction on the chain `chain_id`.
    pub fn id(&self, chain_id: ChainId) -> (r: Bytes32)
        ensures
            r.0@ == self@.spec_id(chain_id),
    {
        let mut buffer: Vec<u8> = Vec::new();
        write_word(&mut buffer, chain_id);
        assert(buffer@ =~= spec_word(chain_id));
        match self {
            Transaction::Script(script) => {
                let witnesses = normalized_witnesses(&script.inputs, &script.witnesses);
                script.encode_with(&Bytes32::zeroed(), &witnesses, &mut buffer);
            },
            Transaction::Create(create) => {
                let witnesses = normalized_witnesses(create.inputs(), create.witnesses());
                create.encode_with(&witnesses, &mut buffer);
            },
            Transaction::Mint(mint) => {
                mint.encode(&mut buffer);
                assert(self@.spec_encode() =~= crate::mint::Mint::spec_encode(*mint));
            },
        }
        Bytes32(sha256(buffer.as_slice()))
    }

    /// Puts `signature` into every witness that unlocks an input of
    /// `owner`. Witnesses that no such input refers to stay as they are, and
    /// no witness is added.
    pub fn fill_witnesses(&mut self, owner: &Address, signature: &Signature)
        ensures
            final(self)@ == old(self)@.spec_signed(owner.0@, signature.0@),
    {
        match self {
            Transaction::Script(script) => {
                let witnesses = signed_witnesses(
                    &script.inputs,
                    &script.witnesses,
                    owner,
                    signature,
                );
                script.witnesses = witnesses;
            },
            Transaction::Create(create) => {
                let witnesses = signed_witnesses(
                    create.inputs(),
                    create.witnesses(),
                    owner,
                    signature,
                );
                create.set_witnesses(witnesses);
            },
            Transaction::Mint(_) => {},
        }
    }

    /// Signs the identifier of the transaction with `secret` and puts the
    /// signature into every witness that unlocks an input of the key's
    /// address. Tells whether it did: where `secret` is no key, or no
    /// signature comes out, the transaction stays as it is.
    pub fn sign_inputs(&mut self, secret: &SecretKey, chain_id: ChainId) -> (r: bool)
        ensures
            match (
                spec_public_key(secret.0@),
                spec_signature(secret.0@, old(self)@.spec_id(chain_id)),
            ) {
                (Some(key), Some(signature)) => r && final(self)@ == old(self)@.spec_signed(
                    spec_sha256(key),
                    signature,
                ),
                _ => !r && final(self)@ == old(self)@,
            },
    {
        let key = match secret.public_key() {
            Some(key) => key,
            None => {
                return false;
            },
        };
        let owner = Input::owner(&key);
        let id = self.id(chain_id);
        let signature = match Signature::sign(secret, &id) {
            Some(signature) => signature,
            None => {
                return false;
            },
        };
        self.fill_witnesses(&owner, &signature);
        true
    }
}

/// The script that `default_test_tx` makes before it signs: it does
/// nothing, and spends one coin of `owner` that its only witness, sixty-four
/// zero bytes, is to unlock.
pub open spec fn spec_unsigned_test_tx(
    owner: Address,
    utxo_id: UtxoId,
    amount: Word,
    asset_id: AssetId,
) -> TransactionView {
    TransactionView::Script(
        ScriptView {
            gas_price: 0,
            gas_limit: 0,
            maturity: 0,
            receipts_root: Bytes32::spec_zeroed(),
            script: Seq::empty(),
            script_data: Seq::empty(),
            inputs: seq![
                InputView::CoinSigned(
                    CoinSigned {
                        utxo_id,
                        owner,
                        amount,
                        asset_id,
                        tx_pointer: TxPointer { block_height: 0, tx_index: 0 },
                        witness_index: 0,
                        maturity: 0,
                    },
                ),
            ],
            outputs: Seq::empty(),
            witnesses: seq![spec_zeros(64)],
        },
    )
}

/// The transaction that `default_test_tx` makes of its arguments: the
/// unsigned script of the address of the key of `secret`, with the signature
/// of its identifier by `secret` in its witness. There is none where
/// `secret` has no public key or no signature comes out.
pub open spec fn spec_default_test_tx(
    secret: Seq<u8>,
    utxo_id: UtxoId,
    amount: Word,
    asset_id: AssetId,
    chain_id: ChainId,
) -> Option<TransactionView> {
    match spec_public_key(secret) {
        None => None,
        Some(key) => {
            let owner = Bytes32(spec_array32(spec_sha256(key)));
            let unsigned = spec_unsigned_test_tx(owner, utxo_id, amount, asset_id);
            match spec_signature(secret, unsigned.spec_id(chain_id)) {
                None => None,
                Some(signature) => Some(unsigned.spec_signed(spec_sha256(key), signature)),
            }
        },
    }
}

impl Transaction {
    /// A small script for trials: it does nothing and spends one coin of
    /// the key `secret`, signed for the chain `chain_id`. The coin is what
    /// the caller draws at random. There is none where `secret` is no key
    /// or no signature comes out. The witness of the script holds the
    /// signature of the script's own identifier.
    pub fn default_test_tx(
        secret: &SecretKey,
        utxo_id: UtxoId,
        amount: Word,
        asset_id: AssetId,
        chain_id: ChainId,
    ) -> (r: Option<Transaction>)
        ensures
            match spec_default_test_tx(secret.0@, utxo_id, amount, asset_id, chain_id) {
                Some(v) => r matches Some(tx) && tx@ == v && Some(tx@.spec_witnesses()[0])
                    == spec_signature(secret.0@, tx@.spec_id(chain_id)),
                None => r is None,
            },
    {
        let key = match secret.public_key() {
            Some(key) => key,
            None => {
                return None;
            },
        };
        let ghost address = spec_sha256(spec_public_key(secret.0@).unwrap());
        let ghost owner = Bytes32(spec_array32(address));
        let mut script = Transaction::script(
            0,
            0,
            0,
            Vec::new(),
            Vec::new(),
            Vec::new(),
            Vec::new(),
            Vec::new(),
        );
        script.add_unsigned_coin_input(
            utxo_id,
            &key,
            amount,
            asset_id,
            TxPointer { block_height: 0, tx_index: 0 },
            0,
            0,
        );
        proof {
            let added = Script::spec_inputs(script@);
            assert(added.len() == 1);
            assert(added.last() == added[0]);
            let coin = added[0]->CoinSigned_0;
            lemma_array32(coin.owner.0);
            assert(coin.owner == owner);
            assert(spec_views(script.witnesses@).len() == 0);
            assert(script.witnesses@.len() == 0);
        }
        script.witnesses.push(zero_witness(64));
        let mut tx = Transaction::Script(script);
        let ghost before = tx@;
        proof {
            let unsigned = spec_unsigned_test_tx(owner, utxo_id, amount, asset_id);
            assert(before.spec_inputs() =~= unsigned.spec_inputs());
            assert(before.spec_outputs() =~= unsigned.spec_outputs());
            assert(before.spec_witnesses() =~= unsigned.spec_witnesses());
            assert(before->Script_0.script =~= Seq::<u8>::empty());
            assert(before->Script_0.script_data =~= Seq::<u8>::empty());
            assert(before == unsigned);
        }
        if !tx.sign_inputs(secret, chain_id) {
            return None;
        }
        proof {
            let signature = spec_signature(secret.0@, before.spec_id(chain_id)).unwrap();
            let inputs = before.spec_inputs();
            let witnesses = before.spec_witnesses();
            assert(signature.len() == 64);
            assert(spec_input_unlocks(inputs[0], address, 0));
            assert(spec_unlocks(inputs, address, 0));
            before.lemma_id_ignores_signatures(address, signature, chain_id);
            assert(tx@.spec_witnesses() == spec_signed_witnesses(
                inputs,
                witnesses,
                address,
                signature,
            ));
        }
        Some(tx)
    }
}

} // verus!
