//! What script transactions and transactions that create a contract have in
//! common: inputs, outputs and witnesses, and the questions asked of them.

use vstd::prelude::*;

use crate::codec::spec_views;
use crate::crypto::{spec_sha256, spec_unique, unique, PublicKey};
use crate::input::{Input, InputView, MessageCoinSigned, MessageDataSignedView, CoinSigned};
use crate::output::Output;
use crate::script::{Script, ScriptView};
use crate::types::{
    Address, AssetId, BlockHeight, Bytes32, ContractId, Nonce, TxPointer, UtxoId, Witness, Word,
};

verus! {

/// The assets that `inputs` spend, one for each coin and each message, in
/// the order of the inputs. A message spends the base asset.
pub open spec fn spec_input_asset_ids(inputs: Seq<InputView>, base_asset_id: AssetId) -> Seq<
    AssetId,
>
    decreases inputs.len(),
{
    if inputs.len() == 0 {
        Seq::empty()
    } else {
        let before = spec_input_asset_ids(inputs.drop_last(), base_asset_id);
        match inputs.last().spec_asset_id(base_asset_id) {
            Some(id) => before.push(id),
            None => before,
        }
    }
}

/// The bytes of each of `ids`.
pub open spec fn spec_arrays(ids: Seq<Bytes32>) -> Seq<[u8; 32]> {
    ids.map_values(|id: Bytes32| id.0)
}

/// Every value of `ids` comes before the values after it.
pub open spec fn spec_ascending(ids: Seq<Bytes32>) -> bool {
    forall|i: int, j: int| #![trigger ids[i], ids[j]] 0 <= i < j < ids.len() ==> ids[i].rank()
            < ids[j].rank()
}

/// Tells whether one of `inputs` names the contract `id`.
pub open spec fn spec_names_contract(inputs: Seq<InputView>, id: ContractId) -> bool {
    exists|i: int| 0 <= i < inputs.len() && (#[trigger] inputs[i]).spec_contract_id() == Some(id)
}

/// Tells whether every predicate of `inputs` belongs to the owner of its
/// input: the owner is the digest of the predicate's code.
pub open spec fn spec_predicate_owners_valid(inputs: Seq<InputView>) -> bool {
    forall|i: int|
        0 <= i < inputs.len() ==> match (#[trigger] inputs[i]).spec_predicate() {
            Some(predicate) => inputs[i].spec_owner().unwrap().0@ == spec_sha256(predicate),
            None => true,
        }
}

/// The input that `add_unsigned_message_input` adds: a message without
/// data where `data` is empty, a message with data otherwise.
pub open spec fn spec_unsigned_message_input(
    sender: Address,
    recipient: Address,
    nonce: Nonce,
    amount: Word,
    data: Seq<u8>,
    witness_index: u8,
) -> InputView {
    if data.len() == 0 {
        InputView::MessageCoinSigned(
            MessageCoinSigned { sender, recipient, amount, nonce, witness_index },
        )
    } else {
        InputView::MessageDataSigned(
            MessageDataSignedView { sender, recipient, amount, nonce, witness_index, data },
        )
    }
}

/// The assets that `inputs` spend, in the order of the inputs.
pub fn input_asset_ids(inputs: &Vec<Input>, base_asset_id: &AssetId) -> (r: Vec<AssetId>)
    ensures
        r@ == spec_input_asset_ids(spec_views(inputs@), *base_asset_id),
{
    let ghost views = spec_views(inputs@);
    let mut ids: Vec<AssetId> = Vec::new();
    let n = inputs.len();
    let mut i: usize = 0;
    while i < n
        invariant
            i <= n,
            n == inputs@.len(),
            views == spec_views(inputs@),
            ids@ == spec_input_asset_ids(views.take(i as int), *base_asset_id),
        decreases n - i,
    {
        proof {
            assert(views.take(i + 1).drop_last() =~= views.take(i as int));
        }
        match inputs[i].asset_id(base_asset_id) {
            Some(id) => {
                ids.push(id);
            },
            None => {},
        }
        i = i + 1;
    }
    assert(views.take(n as int) =~= views);
    ids
}

/// The assets that `inputs` spend, each once, in the order in which they
/// first occur.
pub fn input_asset_ids_unique(inputs: &Vec<Input>, base_asset_id: &AssetId) -> (r: Vec<AssetId>)
    ensures
        spec_arrays(r@) == spec_unique(
            spec_arrays(spec_input_asset_ids(spec_views(inputs@), *base_asset_id)),
        ),
{
    let ids = input_asset_ids(inputs, base_asset_id);
    let mut arrays: Vec<[u8; 32]> = Vec::new();
    let n = ids.len();
    let mut i: usize = 0;
    while i < n
        invariant
            i <= n,
            n == ids@.len(),
            arrays@ == spec_arrays(ids@.take(i as int)),
        decreases n - i,
    {
        arrays.push(ids[i].0);
        i = i + 1;
        assert(arrays@ =~= spec_arrays(ids@.take(i as int)));
    }
    assert(ids@.take(n as int) =~= ids@);
    let kept = unique(arrays);
    let mut out: Vec<AssetId> = Vec::new();
    let m = kept.len();
    let mut k: usize = 0;
    while k < m
        invariant
            k <= m,
            m == kept@.len(),
            out@.len() == k,
            forall|j: int| 0 <= j < k ==> (#[trigger] out@[j]).0 == kept@[j],
        decreases m - k,
    {
        out.push(Bytes32(kept[k]));
        k = k + 1;
    }
    assert(spec_arrays(out@) =~= kept@);
    out
}

/// Puts `id` at its place among `ids`, unless it is there already.
pub fn insert_ascending(ids: &mut Vec<Bytes32>, id: Bytes32)
    requires
        spec_ascending(old(ids)@),
    ensures
        spec_ascending(final(ids)@),
        forall|x: Bytes32| final(ids)@.contains(x) <==> (old(ids)@.contains(x) || x == id),
{
    let n = ids.len();
    let mut k: usize = 0;
    while k < n && ids[k].precedes(&id)
        invariant
            k <= n,
            n == ids@.len(),
            ids@ == old(ids)@,
            forall|j: int| 0 <= j < k ==> (#[trigger] ids@[j]).rank() < id.rank(),
        decreases n - k,
    {
        k = k + 1;
    }
    if k < n && !id.precedes(&ids[k]) {
        proof {
            ids@[k as int].lemma_same_rank(id);
            assert(ids@.contains(id));
        }
        return ;
    }
    let ghost before = ids@;
    ids.insert(k, id);
    proof {
        let after = ids@;
        assert forall|i: int, j: int|
            #![trigger after[i], after[j]]
            0 <= i < j < after.len() implies after[i].rank() < after[j].rank() by {
            let a = if i < k { i } else { i - 1 };
            let b = if j < k { j } else { j - 1 };
            if i != k && j != k {
                assert(before[a].rank() < before[b].rank());
            } else if i == k {
                assert(after[j] == before[j - 1]);
                if j - 1 > k {
                    assert(before[k as int].rank() < before[j - 1].rank());
                }
            } else {
                assert(after[i] == before[i]);
            }
        }
        assert forall|x: Bytes32| after.contains(x) <==> (before.contains(x) || x == id) by {
            if after.contains(x) {
                let i = choose|i: int| 0 <= i < after.len() && after[i] == x;
                if i < k {
                    assert(before[i] == x);
                } else if i > k {
                    assert(before[i - 1] == x);
                }
            }
            if before.contains(x) {
                let i = choose|i: int| 0 <= i < before.len() && before[i] == x;
                if i < k {
                    assert(after[i] == x);
                } else {
                    assert(after[i + 1] == x);
                }
            }
            if x == id {
                assert(after[k as int] == x);
            }
        }
    }
}

/// The contracts that `inputs` name, each once, in ascending order.
pub fn input_contracts(inputs: &Vec<Input>) -> (r: Vec<ContractId>)
    ensures
        spec_ascending(r@),
        forall|id: ContractId| r@.contains(id) <==> spec_names_contract(spec_views(inputs@), id),
{
    let ghost views = spec_views(inputs@);
    let mut ids: Vec<ContractId> = Vec::new();
    let n = inputs.len();
    let mut i: usize = 0;
    while i < n
        invariant
            i <= n,
            n == inputs@.len(),
            views == spec_views(inputs@),
            spec_ascending(ids@),
            forall|id: ContractId|
                ids@.contains(id) <==> spec_names_contract(views.take(i as int), id),
        decreases n - i,
    {
        let ghost before = ids@;
        match inputs[i].contract_id() {
            Some(id) => {
                insert_ascending(&mut ids, id);
            },
            None => {},
        }
        proof {
            let head = views.take(i as int);
            let next = views.take(i + 1);
            assert forall|id: ContractId| ids@.contains(id) <==> spec_names_contract(
                next,
                id,
            ) by {
                if spec_names_contract(next, id) {
                    let j = choose|j: int|
                        0 <= j < next.len() && (#[trigger] next[j]).spec_contract_id() == Some(id);
                    if j < i {
                        assert(head[j].spec_contract_id() == Some(id));
                        assert(spec_names_contract(head, id));
                    }
                }
                if before.contains(id) {
                    let j = choose|j: int|
                        0 <= j < head.len() && (#[trigger] head[j]).spec_contract_id() == Some(id);
                    assert(next[j].spec_contract_id() == Some(id));
                }
                if views[i as int].spec_contract_id() == Some(id) {
                    assert(next[i as int].spec_contract_id() == Some(id));
                }
            }
        }
        i = i + 1;
    }
    assert(views.take(n as int) =~= views);
    ids
}

/// Tells whether every predicate of `inputs` belongs to the owner of its
/// input.
pub fn check_predicate_owners(inputs: &Vec<Input>) -> (r: bool)
    ensures
        r == spec_predicate_owners_valid(spec_views(inputs@)),
{
    let ghost views = spec_views(inputs@);
    let n = inputs.len();
    let mut result = true;
    let mut i: usize = 0;
    while i < n
        invariant
            i <= n,
            n == inputs@.len(),
            views == spec_views(inputs@),
            result == spec_predicate_owners_valid(views.take(i as int)),
        decreases n - i,
    {
        let valid = match &inputs[i] {
            Input::CoinPredicate(c) => Input::is_predicate_owner_valid(
                &c.owner,
                c.predicate.as_slice(),
            ),
            Input::MessageDataPredicate(m) => Input::is_predicate_owner_valid(
                &m.recipient,
                m.predicate.as_slice(),
            ),
            Input::MessageCoinPredicate(m) => Input::is_predicate_owner_valid(
                &m.recipient,
                m.predicate.as_slice(),
            ),
            _ => true,
        };
        proof {
            let head = views.take(i as int);
            let next = views.take(i + 1);
            assert(next[i as int] == views[i as int]);
            if result && valid {
                assert forall|j: int| 0 <= j < next.len() implies match (
                #[trigger] next[j]).spec_predicate() {
                    Some(predicate) => next[j].spec_owner().unwrap().0@ == spec_sha256(predicate),
                    None => true,
                } by {
                    if j < i {
                        assert(head[j] == next[j]);
                    }
                }
            } else if !result {
                let j = choose|j: int|
                    0 <= j < head.len() && !(match (#[trigger] head[j]).spec_predicate() {
                        Some(predicate) => head[j].spec_owner().unwrap().0@ == spec_sha256(
                            predicate,
                        ),
                        None => true,
                    });
                assert(next[j] == head[j]);
            }
        }
        result = result && valid;
        i = i + 1;
    }
    assert(views.take(n as int) =~= views);
    result
}

/// Blanks in each of `outputs` what a script decides while it runs.
pub fn prepare_outputs_for_script(outputs: &mut Vec<Output>)
    ensures
        final(outputs)@ == old(outputs)@.map_values(|o: Output| o.spec_prepare_init_script()),
{
    let n = outputs.len();
    let mut i: usize = 0;
    while i < n
        invariant
            i <= n,
            n == outputs@.len(),
            n == old(outputs)@.len(),
            forall|j: int| 0 <= j < i ==> outputs@[j] == old(outputs)@[j].spec_prepare_init_script(),
            forall|j: int| i <= j < n ==> outputs@[j] == old(outputs)@[j],
        decreases n - i,
    {
        let mut output = outputs[i];
        output.prepare_init_script();
        outputs[i] = output;
        i = i + 1;
    }
    assert(outputs@ =~= old(outputs)@.map_values(|o: Output| o.spec_prepare_init_script()));
}

/// Blanks in each of `outputs` what is not known when predicates are
/// verified.
pub fn prepare_outputs_for_predicate(outputs: &mut Vec<Output>)
    ensures
        final(outputs)@ == old(outputs)@.map_values(|o: Output| o.spec_prepare_init_predicate()),
{
    let n = outputs.len();
    let mut i: usize = 0;
    while i < n
        invariant
            i <= n,
            n == outputs@.len(),
            n == old(outputs)@.len(),
            forall|j: int|
                0 <= j < i ==> outputs@[j] == old(outputs)@[j].spec_prepare_init_predicate(),
            forall|j: int| i <= j < n ==> outputs@[j] == old(outputs)@[j],
        decreases n - i,
    {
        let mut output = outputs[i];
        output.prepare_init_predicate();
        outputs[i] = output;
        i = i + 1;
    }
    assert(outputs@ =~= old(outputs)@.map_values(|o: Output| o.spec_prepare_init_predicate()));
}

/// Blanks in each of `inputs` what is not known when predicates are
/// verified.
pub fn prepare_inputs_for_predicate(inputs: &mut Vec<Input>)
    ensures
        spec_views(final(inputs)@) == spec_views(old(inputs)@).map_values(
            |i: InputView| i.spec_prepare_init_predicate(),
        ),
{
    let n = inputs.len();
    let mut i: usize = 0;
    while i < n
        invariant
            i <= n,
            n == inputs@.len(),
            n == old(inputs)@.len(),
            forall|j: int|
                0 <= j < i ==> inputs@[j]@ == old(inputs)@[j]@.spec_prepare_init_predicate(),
            forall|j: int| i <= j < n ==> inputs@[j] == old(inputs)@[j],
        decreases n - i,
    {
        inputs[i].prepare_init_predicate();
        i = i + 1;
    }
    assert(spec_views(inputs@) =~= spec_views(old(inputs)@).map_values(
        |i: InputView| i.spec_prepare_init_predicate(),
    ));
}

/// A transaction with inputs, outputs and witnesses.
pub trait Executable: View + Sized {
    /// The inputs of a model.
    spec fn spec_inputs(v: Self::V) -> Seq<InputView>;

    /// The outputs of a model.
    spec fn spec_outputs(v: Self::V) -> Seq<Output>;

    /// The witnesses of a model.
    spec fn spec_witnesses(v: Self::V) -> Seq<Seq<u8>>;

    /// The model `v` with other inputs, outputs and witnesses.
    spec fn spec_with(
        v: Self::V,
        inputs: Seq<InputView>,
        outputs: Seq<Output>,
        witnesses: Seq<Seq<u8>>,
    ) -> Self::V;

    /// The inputs.
    fn inputs(&self) -> (r: &Vec<Input>)
        ensures
            spec_views(r@) == Self::spec_inputs(self@),
    ;

    /// The outputs.
    fn outputs(&self) -> (r: &Vec<Output>)
        ensures
            spec_views(r@) == Self::spec_outputs(self@),
    ;

    /// The witnesses.
    fn witnesses(&self) -> (r: &Vec<Witness>)
        ensures
            spec_views(r@) == Self::spec_witnesses(self@),
    ;

    /// The assets that the inputs spend, in the order of the inputs.
    fn input_asset_ids(&self, base_asset_id: &AssetId) -> (r: Vec<AssetId>)
        ensures
            r@ == spec_input_asset_ids(Self::spec_inputs(self@), *base_asset_id),
    {
        input_asset_ids(self.inputs(), base_asset_id)
    }

    /// The assets that the inputs spend, each once, in the order in which
    /// they first occur.
    fn input_asset_ids_unique(&self, base_asset_id: &AssetId) -> (r: Vec<AssetId>)
        ensures
            spec_arrays(r@) == spec_unique(
                spec_arrays(spec_input_asset_ids(Self::spec_inputs(self@), *base_asset_id)),
            ),
    {
        input_asset_ids_unique(self.inputs(), base_asset_id)
    }

    /// The contracts that the inputs name, each once, in ascending order.
    fn input_contracts(&self) -> (r: Vec<ContractId>)
        ensures
            spec_ascending(r@),
            forall|id: ContractId|
                r@.contains(id) <==> spec_names_contract(Self::spec_inputs(self@), id),
    {
        input_contracts(self.inputs())
    }

    /// Tells whether every predicate belongs to the owner of its input.
    fn check_predicate_owners(&self) -> (r: bool)
        ensures
            r == spec_predicate_owners_valid(Self::spec_inputs(self@)),
    {
        check_predicate_owners(self.inputs())
    }

    /// Adds a coin that the witness at `witness_index` is to unlock; the
    /// coin's owner is the address of `owner`. The witness is filled in when
    /// the inputs are signed.
    fn add_unsigned_coin_input(
        &mut self,
        utxo_id: UtxoId,
        owner: &PublicKey,
        amount: Word,
        asset_id: AssetId,
        tx_pointer: TxPointer,
        maturity: BlockHeight,
        witness_index: u8,
    )
        ensures
            final(self)@ == Self::spec_with(
                old(self)@,
                Self::spec_inputs(final(self)@),
                Self::spec_outputs(old(self)@),
                Self::spec_witnesses(old(self)@),
            ),
            Self::spec_inputs(final(self)@).len() == Self::spec_inputs(old(self)@).len() + 1,
            Self::spec_inputs(final(self)@).drop_last() == Self::spec_inputs(old(self)@),
            Self::spec_inputs(final(self)@).last() matches InputView::CoinSigned(c) && c.utxo_id
                == utxo_id && c.owner.0@ == owner.spec_address() && c.amount == amount
                && c.asset_id == asset_id && c.tx_pointer == tx_pointer && c.maturity == maturity
                && c.witness_index == witness_index,
    ;

    /// Adds a message that the witness at `witness_index` is to unlock: one
    /// without data where `data` is empty, one with data otherwise.
    fn add_unsigned_message_input(
        &mut self,
        sender: Address,
        recipient: Address,
        nonce: Nonce,
        amount: Word,
        data: Vec<u8>,
        witness_index: u8,
    )
        ensures
            final(self)@ == Self::spec_with(
                old(self)@,
                Self::spec_inputs(old(self)@).push(
                    spec_unsigned_message_input(
                        sender,
                        recipient,
                        nonce,
                        amount,
                        data@,
                        witness_index,
                    ),
                ),
                Self::spec_outputs(old(self)@),
                Self::spec_witnesses(old(self)@),
            ),
    ;

    /// Prepares the transaction for the run of its script: blanks in the
    /// outputs what the script decides.
    fn prepare_init_script(&mut self)
        ensures
            final(self)@ == Self::spec_with(
                old(self)@,
                Self::spec_inputs(old(self)@),
                Self::spec_outputs(old(self)@).map_values(
                    |o: Output| o.spec_prepare_init_script(),
                ),
                Self::spec_witnesses(old(self)@),
            ),
    ;

    /// Prepares the transaction for the verification of its predicates:
    /// blanks in the inputs and in the outputs what is not known then.
    fn prepare_init_predicate(&mut self)
        ensures
            final(self)@ == Self::spec_with(
                old(self)@,
                Self::spec_inputs(old(self)@).map_values(
                    |i: InputView| i.spec_prepare_init_predicate(),
                ),
                Self::spec_outputs(old(self)@).map_values(
                    |o: Output| o.spec_prepare_init_predicate(),
                ),
                Self::spec_witnesses(old(self)@),
            ),
    ;
}

/// The input that `add_unsigned_message_input` adds.
pub fn unsigned_message_input(
    sender: Address,
    recipient: Address,
    nonce: Nonce,
    amount: Word,
    data: Vec<u8>,
    witness_index: u8,
) -> (r: Input)
    ensures
        r@ == spec_unsigned_message_input(sender, recipient, nonce, amount, data@, witness_index),
{
    if data.len() == 0 {
        Input::message_coin_signed(sender, recipient, amount, nonce, witness_index)
    } else {
        Input::message_data_signed(sender, recipient, amount, nonce, witness_index, data)
    }
}

/// The models of outputs are the outputs themselves.
pub proof fn lemma_output_views(s: Seq<Output>)
    ensures
        spec_views(s) == s,
{
    assert(spec_views(s) =~= s);
}

impl Executable for Script {
    open spec fn spec_inputs(v: ScriptView) -> Seq<InputView> {
        v.inputs
    }

    open spec fn spec_outputs(v: ScriptView) -> Seq<Output> {
        v.outputs
    }

    open spec fn spec_witnesses(v: ScriptView) -> Seq<Seq<u8>> {
        v.witnesses
    }

    open spec fn spec_with(
        v: ScriptView,
        inputs: Seq<InputView>,
        outputs: Seq<Output>,
        witnesses: Seq<Seq<u8>>,
    ) -> ScriptView {
        ScriptView { inputs, outputs, witnesses, ..v }
    }

    fn inputs(&self) -> (r: &Vec<Input>) {
        &self.inputs
    }

    fn outputs(&self) -> (r: &Vec<Output>) {
        &self.outputs
    }

    fn witnesses(&self) -> (r: &Vec<Witness>) {
        &self.witnesses
    }

    fn add_unsigned_coin_input(
        &mut self,
        utxo_id: UtxoId,
        owner: &PublicKey,
        amount: Word,
        asset_id: AssetId,
        tx_pointer: TxPointer,
        maturity: BlockHeight,
        witness_index: u8,
    ) {
        let owner = Input::owner(owner);
        let input = Input::coin_signed(
            utxo_id,
            owner,
            amount,
            asset_id,
            tx_pointer,
            witness_index,
            maturity,
        );
        self.inputs.push(input);
        proof {
            assert(spec_views(self.inputs@).drop_last() =~= spec_views(old(self).inputs@));
        }
    }

    fn add_unsigned_message_input(
        &mut self,
        sender: Address,
        recipient: Address,
        nonce: Nonce,
        amount: Word,
        data: Vec<u8>,
        witness_index: u8,
    ) {
        let input = unsigned_message_input(sender, recipient, nonce, amount, data, witness_index);
        self.inputs.push(input);
        proof {
            assert(spec_views(self.inputs@) =~= spec_views(old(self).inputs@).push(input@));
        }
    }

    fn prepare_init_script(&mut self) {
        prepare_outputs_for_script(&mut self.outputs);
        proof {
            lemma_output_views(self.outputs@);
            lemma_output_views(old(self).outputs@);
        }
    }

    fn prepare_init_predicate(&mut self) {
        prepare_inputs_for_predicate(&mut self.inputs);
        prepare_outputs_for_predicate(&mut self.outputs);
        proof {
            lemma_output_views(self.outputs@);
            lemma_output_views(old(self).outputs@);
        }
    }
}

} // verus!
