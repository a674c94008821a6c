//! The rules that a transaction meets before it may run: bounds on its
//! size, inputs that are not spent twice, references that point somewhere,
//! maturity, predicates that belong to their owners, and funds that cover
//! what is spent.

use vstd::prelude::*;

use crate::codec::{spec_saturate, spec_views, Canonical};
use crate::create::spec_bytecode_length;
use crate::crypto::{spec_sha256, spec_signer, Signature};
use crate::executable::{lemma_output_views, Executable};
use crate::id::ChainId;
use crate::input::{Input, InputView};
use crate::output::Output;
use crate::transaction::{Transaction, TransactionView};
use crate::types::{
    AssetId, BlockHeight, Bytes32, ContractId, Nonce, StorageSlot, UtxoId, Witness, Word,
};

verus! {

/// Bounds on a transaction as a whole.
#[derive(Debug, Clone, Copy, PartialEq, Eq, Hash)]
pub struct TxParameters {
    pub max_inputs: u64,
    pub max_outputs: u64,
    pub max_witnesses: u64,
    pub max_size: u64,
    pub max_gas_per_tx: u64,
}

/// Bounds on a contract that is created.
#[derive(Debug, Clone, Copy, PartialEq, Eq, Hash)]
pub struct ContractParameters {
    pub contract_max_size: u64,
    pub max_storage_slots: u64,
}

/// What gas costs.
#[derive(Debug, Clone, Copy, PartialEq, Eq, Hash)]
pub struct FeeParameters {
    pub gas_price_factor: u64,
    pub gas_per_byte: u64,
}

/// Bounds on predicates.
#[derive(Debug, Clone, Copy, PartialEq, Eq, Hash)]
pub struct PredicateParameters {
    pub max_predicate_length: u64,
    pub max_predicate_data_length: u64,
    pub max_gas_per_predicate: u64,
}

/// Bounds on scripts.
#[derive(Debug, Clone, Copy, PartialEq, Eq, Hash)]
pub struct ScriptParameters {
    pub max_script_length: u64,
    pub max_script_data_length: u64,
}

/// The parameters of a chain that transactions are checked against.
#[derive(Debug, Clone, Copy, PartialEq, Eq, Hash)]
pub struct ConsensusParameters {
    pub tx_params: TxParameters,
    pub contract_params: ContractParameters,
    pub fee_params: FeeParameters,
    pub predicate_params: PredicateParameters,
    pub script_params: ScriptParameters,
    pub chain_id: ChainId,
    pub base_asset_id: AssetId,
}

/// The rule that a transaction breaks.
#[derive(Debug, Clone, Copy, PartialEq, Eq, Hash)]
pub enum CheckError {
    /// The gas limit exceeds what a transaction may use.
    TransactionGasLimit,
    /// The transaction is not mature at the height of the block.
    TransactionMaturity,
    /// There are too many inputs.
    TransactionInputsMax,
    /// There are too many outputs.
    TransactionOutputsMax,
    /// There are too many witnesses.
    TransactionWitnessesMax,
    /// The encoding is too large.
    TransactionSizeLimitExceeded,
    /// The script is too long.
    TransactionScriptLength,
    /// The data of the script is too long.
    TransactionScriptDataLength,
    /// No witness holds the bytecode.
    TransactionCreateBytecodeWitnessIndex,
    /// The bytecode is too long, or not as long as the transaction says.
    TransactionCreateBytecodeLen,
    /// There are too many storage slots.
    TransactionCreateStorageSlotMax,
    /// A key occurs in two storage slots.
    TransactionCreateStorageSlotOrder,
    /// The output of a mint does not belong to its input.
    TransactionMintOutputIndex,
    /// The predicate of the input is too long.
    InputPredicateLength { index: usize },
    InputPredicateDataLength { index: usize },
    InputPredicateEmpty { index: usize },
    InputWitnessIndexBounds { index: usize },
    InputMaturity { index: usize },
    DuplicateInputUtxoId { utxo_id: UtxoId },
    DuplicateInputContractId { contract_id: ContractId },
    DuplicateMessageInputId { nonce: Nonce },
    InputContractAssociatedOutputContract { index: usize },
    PredicateOwnerInvalid { index: usize },
    OutputContractInputIndex { index: usize },
    TransactionScriptOutputContractCreated { index: usize },
    TransactionCreateOutputVariable { index: usize },
    TransactionOutputChangeAssetIdDuplicated { asset_id: AssetId },
    ArithmeticOverflow,
    InsufficientInputAmount { asset_id: AssetId },
    InputInvalidSignature { index: usize },
}

impl ConsensusParameters {
    /// The parameters that a chain starts with.
    pub open spec fn spec_standard() -> ConsensusParameters {
        ConsensusParameters {
            tx_params: TxParameters {
                max_inputs: 255,
                max_outputs: 255,
                max_witnesses: 255,
                max_size: 17_825_792,
                max_gas_per_tx: 100_000_000,
            },
            contract_params: ContractParameters {
                contract_max_size: 16_777_216,
                max_storage_slots: 255,
            },
            fee_params: FeeParameters { gas_price_factor: 1_000_000_000, gas_per_byte: 4 },
            predicate_params: PredicateParameters {
                max_predicate_length: 1_048_576,
                max_predicate_data_length: 1_048_576,
                max_gas_per_predicate: 100_000_000,
            },
            script_params: ScriptParameters {
                max_script_length: 1_048_576,
                max_script_data_length: 1_048_576,
            },
            chain_id: 0,
            base_asset_id: Bytes32::spec_zeroed(),
        }
    }

    /// The parameters that a chain starts with.
    pub fn standard() -> (r: ConsensusParameters)
        ensures
            r == Self::spec_standard(),
    {
        ConsensusParameters {
            tx_params: TxParameters {
                max_inputs: 255,
                max_outputs: 255,
                max_witnesses: 255,
                max_size: 17_825_792,
                max_gas_per_tx: 100_000_000,
            },
            contract_params: ContractParameters {
                contract_max_size: 16_777_216,
                max_storage_slots: 255,
            },
            fee_params: FeeParameters { gas_price_factor: 1_000_000_000, gas_per_byte: 4 },
            predicate_params: PredicateParameters {
                max_predicate_length: 1_048_576,
                max_predicate_data_length: 1_048_576,
                max_gas_per_predicate: 100_000_000,
            },
            script_params: ScriptParameters {
                max_script_length: 1_048_576,
                max_script_data_length: 1_048_576,
            },
            chain_id: 0,
            base_asset_id: Bytes32::zeroed(),
        }
    }
}

/// The first rule broken among the findings `errors`, which are in the
/// order in which the rules are asked.
pub open spec fn spec_first_error(errors: Seq<Option<CheckError>>) -> Option<CheckError>
    decreases errors.len(),
{
    if errors.len() == 0 {
        None
    } else {
        match errors[0] {
            Some(e) => Some(e),
            None => spec_first_error(errors.skip(1)),
        }
    }
}

/// The output that a coin comes from; other inputs give none.
pub open spec fn spec_coin_utxo(input: InputView) -> Option<UtxoId> {
    match input {
        InputView::CoinSigned(c) => Some(c.utxo_id),
        InputView::CoinPredicate(c) => Some(c.utxo_id),
        _ => None,
    }
}

/// The data of the predicate that unlocks an input, if a predicate does.
pub open spec fn spec_predicate_data(input: InputView) -> Option<Seq<u8>> {
    match input {
        InputView::CoinPredicate(c) => Some(c.predicate_data),
        InputView::MessageCoinPredicate(m) => Some(m.predicate_data),
        InputView::MessageDataPredicate(m) => Some(m.predicate_data),
        _ => None,
    }
}

/// Tells whether an input before `index` spends what the input at `index`
/// spends: the same output, the same contract or the same message.
pub open spec fn spec_spent_before(inputs: Seq<InputView>, index: int) -> bool {
    exists|j: int| 0 <= j < index && spec_same_source(#[trigger] inputs[j], inputs[index])
}

/// Tells whether two inputs spend the same thing.
pub open spec fn spec_same_source(a: InputView, b: InputView) -> bool {
    ||| (spec_coin_utxo(a) is Some && spec_coin_utxo(a) == spec_coin_utxo(b))
    ||| (a.spec_contract_id() is Some && a.spec_contract_id() == b.spec_contract_id())
    ||| (a.spec_nonce() is Some && a.spec_nonce() == b.spec_nonce())
}

/// The rule that is broken when an input is spent twice.
pub open spec fn spec_duplicate_error(input: InputView) -> CheckError {
    match input {
        InputView::CoinSigned(c) => CheckError::DuplicateInputUtxoId { utxo_id: c.utxo_id },
        InputView::CoinPredicate(c) => CheckError::DuplicateInputUtxoId { utxo_id: c.utxo_id },
        InputView::Contract(c) => CheckError::DuplicateInputContractId {
            contract_id: c.contract_id,
        },
        InputView::MessageCoinSigned(m) => CheckError::DuplicateMessageInputId { nonce: m.nonce },
        InputView::MessageCoinPredicate(m) => CheckError::DuplicateMessageInputId {
            nonce: m.nonce,
        },
        InputView::MessageDataSigned(m) => CheckError::DuplicateMessageInputId { nonce: m.nonce },
        InputView::MessageDataPredicate(m) => CheckError::DuplicateMessageInputId {
            nonce: m.nonce,
        },
    }
}

/// Tells whether one of `outputs` is the new state of the contract that the
/// input at `index` names.
pub open spec fn spec_has_contract_output(outputs: Seq<Output>, index: int) -> bool {
    exists|j: int|
        0 <= j < outputs.len() && (#[trigger] outputs[j]) is Contract
            && outputs[j]->Contract_0.input_index == index
}

/// The first rule that the input at `index` breaks, if it breaks one.
pub open spec fn spec_input_error(
    inputs: Seq<InputView>,
    outputs: Seq<Output>,
    witnesses: nat,
    block_height: BlockHeight,
    params: ConsensusParameters,
    index: int,
) -> Option<CheckError> {
    let input = inputs[index];
    let i = index as usize;
    if input.spec_predicate() is Some && input.spec_predicate().unwrap().len()
        > params.predicate_params.max_predicate_length {
        Some(CheckError::InputPredicateLength { index: i })
    } else if spec_predicate_data(input) is Some && spec_predicate_data(input).unwrap().len()
        > params.predicate_params.max_predicate_data_length {
        Some(CheckError::InputPredicateDataLength { index: i })
    } else if input.spec_predicate() is Some && input.spec_predicate().unwrap().len() == 0 {
        Some(CheckError::InputPredicateEmpty { index: i })
    } else if input.spec_witness_index() is Some && input.spec_witness_index().unwrap()
        >= witnesses {
        Some(CheckError::InputWitnessIndexBounds { index: i })
    } else if input.spec_maturity() is Some && input.spec_maturity().unwrap() > block_height {
        Some(CheckError::InputMaturity { index: i })
    } else if spec_spent_before(inputs, index) {
        Some(spec_duplicate_error(input))
    } else if input is Contract && !spec_has_contract_output(outputs, index) {
        Some(CheckError::InputContractAssociatedOutputContract { index: i })
    } else if input.spec_predicate() is Some && input.spec_owner().unwrap().0@ != spec_sha256(
        input.spec_predicate().unwrap(),
    ) {
        Some(CheckError::PredicateOwnerInvalid { index: i })
    } else {
        None
    }
}

/// Tells whether a change before `index` gives back the asset that the
/// change at `index` gives back.
pub open spec fn spec_change_before(outputs: Seq<Output>, index: int) -> bool {
    exists|j: int|
        0 <= j < index && (#[trigger] outputs[j]) is Change && outputs[index] is Change
            && outputs[j]->Change_asset_id == outputs[index]->Change_asset_id
}

/// The first rule that the output at `index` breaks, if it breaks one.
/// `creates` tells whether the transaction creates a contract.
pub open spec fn spec_output_error(
    inputs: Seq<InputView>,
    outputs: Seq<Output>,
    creates: bool,
    index: int,
) -> Option<CheckError> {
    let output = outputs[index];
    let i = index as usize;
    if output is Contract && !(output->Contract_0.input_index < inputs.len()
        && inputs[output->Contract_0.input_index as int] is Contract) {
        Some(CheckError::OutputContractInputIndex { index: i })
    } else if !creates && output is ContractCreated {
        Some(CheckError::TransactionScriptOutputContractCreated { index: i })
    } else if creates && output is Variable {
        Some(CheckError::TransactionCreateOutputVariable { index: i })
    } else if spec_change_before(outputs, index) {
        Some(CheckError::TransactionOutputChangeAssetIdDuplicated {
            asset_id: output->Change_asset_id,
        })
    } else {
        None
    }
}

/// What the inputs bring of `asset_id`.
pub open spec fn spec_available(inputs: Seq<InputView>, asset_id: AssetId, base: AssetId) -> nat
    decreases inputs.len(),
{
    if inputs.len() == 0 {
        0
    } else {
        let before = spec_available(inputs.drop_last(), asset_id, base);
        if inputs.last().spec_asset_id(base) == Some(asset_id) {
            before + inputs.last().spec_amount().unwrap() as nat
        } else {
            before
        }
    }
}

/// What the coin outputs take of `asset_id`.
pub open spec fn spec_spent(outputs: Seq<Output>, asset_id: AssetId) -> nat
    decreases outputs.len(),
{
    if outputs.len() == 0 {
        0
    } else {
        let before = spec_spent(outputs.drop_last(), asset_id);
        match outputs.last() {
            Output::Coin { amount, asset_id: id, .. } => if id == asset_id {
                before + amount as nat
            } else {
                before
            },
            _ => before,
        }
    }
}

/// The most that a transaction can cost: the gas for its metered bytes and
/// its gas limit, at its gas price, divided by the price factor and rounded
/// up. A price factor of zero divides by nothing.
pub open spec fn spec_max_fee(metered: nat, gas_limit: Word, gas_price: Word, fee: FeeParameters) -> nat {
    let gas = metered * fee.gas_per_byte as nat + gas_limit as nat;
    let cost = gas * gas_price as nat;
    if fee.gas_price_factor == 0 {
        cost
    } else {
        let factor = fee.gas_price_factor as nat;
        if cost % factor == 0 {
            cost / factor
        } else {
            cost / factor + 1
        }
    }
}

/// The rule that the funds of `asset_id` break, if they break one: an
/// amount that does not fit in a word is an overflow, and inputs that bring
/// less than the outputs and the fee take are insufficient. The fee is paid
/// in the base asset.
pub open spec fn spec_balance_error(
    inputs: Seq<InputView>,
    outputs: Seq<Output>,
    max_fee: nat,
    asset_id: AssetId,
    base: AssetId,
) -> Option<CheckError> {
    let available = spec_available(inputs, asset_id, base);
    let spent = spec_spent(outputs, asset_id) + if asset_id == base {
        max_fee
    } else {
        0
    };
    if available > u64::MAX || spent > u64::MAX {
        Some(CheckError::ArithmeticOverflow)
    } else if available < spent {
        Some(CheckError::InsufficientInputAmount { asset_id })
    } else {
        None
    }
}

/// The findings of a rule asked of the first `from` places are of no
/// account once they are known to be none.
proof fn lemma_first_error_skip(errors: Seq<Option<CheckError>>, from: int)
    requires
        0 <= from < errors.len(),
    ensures
        spec_first_error(errors.skip(from)) == match errors[from] {
            Some(e) => Some(e),
            None => spec_first_error(errors.skip(from + 1)),
        },
{
    assert(errors.skip(from).skip(1) =~= errors.skip(from + 1));
}

/// The data of the predicate that unlocks `input`, if a predicate does.
fn predicate_data(input: &Input) -> (r: Option<&Vec<u8>>)
    ensures
        match spec_predicate_data(input@) {
            Some(d) => r matches Some(x) && x@ == d,
            None => r is None,
        },
{
    match input {
        Input::CoinPredicate(c) => Some(&c.predicate_data),
        Input::MessageCoinPredicate(m) => Some(&m.predicate_data),
        Input::MessageDataPredicate(m) => Some(&m.predicate_data),
        _ => None,
    }
}

/// Tells whether two inputs spend the same thing.
fn same_source(a: &Input, b: &Input) -> (r: bool)
    ensures
        r == spec_same_source(a@, b@),
{
    match (a, b) {
        (Input::CoinSigned(_), _) | (Input::CoinPredicate(_), _) => match (
            a.utxo_id(),
            b.utxo_id(),
        ) {
            (Some(x), Some(y)) => match b {
                Input::Contract(_) => false,
                _ => x.same(&y),
            },
            _ => false,
        },
        (Input::Contract(x), Input::Contract(y)) => x.contract_id.same(&y.contract_id),
        (Input::Contract(_), _) => false,
        _ => match (a.nonce(), b.nonce()) {
            (Some(x), Some(y)) => x.same(&y),
            _ => false,
        },
    }
}

/// Tells whether an input before `index` spends what the input at `index`
/// spends.
fn spent_before(inputs: &Vec<Input>, index: usize) -> (r: bool)
    requires
        index < inputs@.len(),
    ensures
        r == spec_spent_before(spec_views(inputs@), index as int),
{
    let ghost views = spec_views(inputs@);
    let mut j: usize = 0;
    while j < index
        invariant
            j <= index < inputs@.len(),
            views == spec_views(inputs@),
            forall|k: int| 0 <= k < j ==> !spec_same_source(#[trigger] views[k], views[index as int]),
        decreases index - j,
    {
        if same_source(&inputs[j], &inputs[index]) {
            assert(spec_same_source(views[j as int], views[index as int]));
            return true;
        }
        j = j + 1;
    }
    false
}

/// Tells whether one of `outputs` is the new state of the contract that the
/// input at `index` names.
fn has_contract_output(outputs: &Vec<Output>, index: usize) -> (r: bool)
    ensures
        r == spec_has_contract_output(outputs@, index as int),
{
    let n = outputs.len();
    let mut j: usize = 0;
    while j < n
        invariant
            j <= n,
            n == outputs@.len(),
            forall|k: int|
                0 <= k < j ==> !((#[trigger] outputs@[k]) is Contract
                    && outputs@[k]->Contract_0.input_index == index),
        decreases n - j,
    {
        match outputs[j] {
            Output::Contract(contract) => if contract.input_index as usize == index {
                return true;
            },
            _ => {},
        }
        j = j + 1;
    }
    false
}

/// The first rule that the input at `index` breaks, if it breaks one.
pub fn check_input(
    inputs: &Vec<Input>,
    outputs: &Vec<Output>,
    witnesses: usize,
    block_height: BlockHeight,
    params: &ConsensusParameters,
    index: usize,
) -> (r: Option<CheckError>)
    requires
        index < inputs@.len(),
    ensures
        r == spec_input_error(
            spec_views(inputs@),
            outputs@,
            witnesses as nat,
            block_height,
            *params,
            index as int,
        ),
{
    let input = &inputs[index];
    match input.predicate() {
        Some(predicate) => {
            if predicate.len() as u64 > params.predicate_params.max_predicate_length {
                return Some(CheckError::InputPredicateLength { index });
            }
        },
        None => {},
    }
    match predicate_data(input) {
        Some(data) => {
            if data.len() as u64 > params.predicate_params.max_predicate_data_length {
                return Some(CheckError::InputPredicateDataLength { index });
            }
        },
        None => {},
    }
    match input.predicate() {
        Some(predicate) => {
            if predicate.len() == 0 {
                return Some(CheckError::InputPredicateEmpty { index });
            }
        },
        None => {},
    }
    match input.witness_index() {
        Some(w) => {
            if w as usize >= witnesses {
                return Some(CheckError::InputWitnessIndexBounds { index });
            }
        },
        None => {},
    }
    match input.maturity() {
        Some(maturity) => {
            if maturity > block_height {
                return Some(CheckError::InputMaturity { index });
            }
        },
        None => {},
    }
    if spent_before(inputs, index) {
        let error = match input {
            Input::CoinSigned(c) => CheckError::DuplicateInputUtxoId { utxo_id: c.utxo_id },
            Input::CoinPredicate(c) => CheckError::DuplicateInputUtxoId { utxo_id: c.utxo_id },
            Input::Contract(c) => CheckError::DuplicateInputContractId {
                contract_id: c.contract_id,
            },
            Input::MessageCoinSigned(m) => CheckError::DuplicateMessageInputId { nonce: m.nonce },
            Input::MessageCoinPredicate(m) => CheckError::DuplicateMessageInputId {
                nonce: m.nonce,
            },
            Input::MessageDataSigned(m) => CheckError::DuplicateMessageInputId { nonce: m.nonce },
            Input::MessageDataPredicate(m) => CheckError::DuplicateMessageInputId {
                nonce: m.nonce,
            },
        };
        return Some(error);
    }
    match input {
        Input::Contract(_) => {
            if !has_contract_output(outputs, index) {
                return Some(CheckError::InputContractAssociatedOutputContract { index });
            }
        },
        _ => {},
    }
    match (input.predicate(), input.input_owner()) {
        (Some(predicate), Some(owner)) => {
            if !Input::is_predicate_owner_valid(&owner, predicate.as_slice()) {
                return Some(CheckError::PredicateOwnerInvalid { index });
            }
        },
        _ => {},
    }
    None
}

/// Tells whether a change before `index` gives back the asset that the
/// change at `index` gives back.
fn change_before(outputs: &Vec<Output>, index: usize) -> (r: bool)
    requires
        index < outputs@.len(),
    ensures
        r == spec_change_before(outputs@, index as int),
{
    let asset = match outputs[index] {
        Output::Change { asset_id, .. } => asset_id,
        _ => {
            return false;
        },
    };
    let mut j: usize = 0;
    while j < index
        invariant
            j <= index < outputs@.len(),
            outputs@[index as int] is Change,
            asset == outputs@[index as int]->Change_asset_id,
            forall|k: int|
                0 <= k < j ==> !((#[trigger] outputs@[k]) is Change && outputs@[k]->Change_asset_id
                    == asset),
        decreases index - j,
    {
        match outputs[j] {
            Output::Change { asset_id, .. } => if asset_id.same(&asset) {
                return true;
            },
            _ => {},
        }
        j = j + 1;
    }
    false
}

/// The first rule that the output at `index` breaks, if it breaks one.
pub fn check_output(inputs: &Vec<Input>, outputs: &Vec<Output>, creates: bool, index: usize) -> (r:
    Option<CheckError>)
    requires
        index < outputs@.len(),
    ensures
        r == spec_output_error(spec_views(inputs@), outputs@, creates, index as int),
{
    match outputs[index] {
        Output::Contract(contract) => {
            let i = contract.input_index as usize;
            let found = if i < inputs.len() {
                match inputs[i] {
                    Input::Contract(_) => true,
                    _ => false,
                }
            } else {
                false
            };
            if !found {
                return Some(CheckError::OutputContractInputIndex { index });
            }
        },
        Output::ContractCreated { .. } => {
            if !creates {
                return Some(CheckError::TransactionScriptOutputContractCreated { index });
            }
        },
        Output::Variable { .. } => {
            if creates {
                return Some(CheckError::TransactionCreateOutputVariable { index });
            }
        },
        _ => {},
    }
    if change_before(outputs, index) {
        match outputs[index] {
            Output::Change { asset_id, .. } => {
                return Some(CheckError::TransactionOutputChangeAssetIdDuplicated { asset_id });
            },
            _ => {},
        }
    }
    None
}

/// The findings of the rules on inputs, one for each input.
pub open spec fn spec_input_errors(
    inputs: Seq<InputView>,
    outputs: Seq<Output>,
    witnesses: nat,
    block_height: BlockHeight,
    params: ConsensusParameters,
) -> Seq<Option<CheckError>> {
    Seq::new(
        inputs.len(),
        |i: int| spec_input_error(inputs, outputs, witnesses, block_height, params, i),
    )
}

/// The findings of the rules on outputs, one for each output.
pub open spec fn spec_output_errors(inputs: Seq<InputView>, outputs: Seq<Output>, creates: bool) -> Seq<
    Option<CheckError>,
> {
    Seq::new(outputs.len(), |i: int| spec_output_error(inputs, outputs, creates, i))
}

/// The first rule that an input breaks, if one does.
pub fn check_inputs(
    inputs: &Vec<Input>,
    outputs: &Vec<Output>,
    witnesses: usize,
    block_height: BlockHeight,
    params: &ConsensusParameters,
) -> (r: Option<CheckError>)
    ensures
        r == spec_first_error(
            spec_input_errors(spec_views(inputs@), outputs@, witnesses as nat, block_height, *params),
        ),
{
    let ghost errors = spec_input_errors(
        spec_views(inputs@),
        outputs@,
        witnesses as nat,
        block_height,
        *params,
    );
    let n = inputs.len();
    let mut i: usize = 0;
    assert(errors.skip(0) =~= errors);
    while i < n
        invariant
            i <= n,
            n == inputs@.len(),
            errors == spec_input_errors(
                spec_views(inputs@),
                outputs@,
                witnesses as nat,
                block_height,
                *params,
            ),
            spec_first_error(errors) == spec_first_error(errors.skip(i as int)),
        decreases n - i,
    {
        proof {
            lemma_first_error_skip(errors, i as int);
        }
        match check_input(inputs, outputs, witnesses, block_height, params, i) {
            Some(e) => {
                return Some(e);
            },
            None => {},
        }
        i = i + 1;
    }
    None
}

/// The first rule that an output breaks, if one does.
pub fn check_outputs(inputs: &Vec<Input>, outputs: &Vec<Output>, creates: bool) -> (r: Option<
    CheckError,
>)
    ensures
        r == spec_first_error(spec_output_errors(spec_views(inputs@), outputs@, creates)),
{
    let ghost errors = spec_output_errors(spec_views(inputs@), outputs@, creates);
    let n = outputs.len();
    let mut i: usize = 0;
    assert(errors.skip(0) =~= errors);
    while i < n
        invariant
            i <= n,
            n == outputs@.len(),
            errors == spec_output_errors(spec_views(inputs@), outputs@, creates),
            spec_first_error(errors) == spec_first_error(errors.skip(i as int)),
        decreases n - i,
    {
        proof {
            lemma_first_error_skip(errors, i as int);
        }
        match check_output(inputs, outputs, creates, i) {
            Some(e) => {
                return Some(e);
            },
            None => {},
        }
        i = i + 1;
    }
    None
}

/// The first inputs bring no more than all of them.
proof fn lemma_available_monotone(inputs: Seq<InputView>, asset_id: AssetId, base: AssetId, n: int)
    requires
        0 <= n <= inputs.len(),
    ensures
        spec_available(inputs.take(n), asset_id, base) <= spec_available(inputs, asset_id, base),
    decreases inputs.len(),
{
    if n == inputs.len() {
        assert(inputs.take(n) =~= inputs);
    } else {
        assert(inputs.drop_last().take(n) =~= inputs.take(n));
        lemma_available_monotone(inputs.drop_last(), asset_id, base, n);
    }
}

/// The first outputs take no more than all of them.
proof fn lemma_spent_monotone(outputs: Seq<Output>, asset_id: AssetId, n: int)
    requires
        0 <= n <= outputs.len(),
    ensures
        spec_spent(outputs.take(n), asset_id) <= spec_spent(outputs, asset_id),
    decreases outputs.len(),
{
    if n == outputs.len() {
        assert(outputs.take(n) =~= outputs);
    } else {
        assert(outputs.drop_last().take(n) =~= outputs.take(n));
        lemma_spent_monotone(outputs.drop_last(), asset_id, n);
    }
}

/// What the inputs bring of `asset_id`, unless it does not fit in a word.
pub fn available(inputs: &Vec<Input>, asset_id: &AssetId, base: &AssetId) -> (r: Option<Word>)
    ensures
        match r {
            Some(x) => x == spec_available(spec_views(inputs@), *asset_id, *base),
            None => spec_available(spec_views(inputs@), *asset_id, *base) > u64::MAX,
        },
{
    let ghost views = spec_views(inputs@);
    let n = inputs.len();
    let mut total: u64 = 0;
    let mut i: usize = 0;
    while i < n
        invariant
            i <= n,
            n == inputs@.len(),
            views == spec_views(inputs@),
            total == spec_available(views.take(i as int), *asset_id, *base),
        decreases n - i,
    {
        proof {
            assert(views.take(i + 1).drop_last() =~= views.take(i as int));
            lemma_available_monotone(views, *asset_id, *base, i + 1);
        }
        match (inputs[i].asset_id(base), inputs[i].amount()) {
            (Some(id), Some(amount)) => {
                if id.same(asset_id) {
                    match total.checked_add(amount) {
                        Some(sum) => {
                            total = sum;
                        },
                        None => {
                            return None;
                        },
                    }
                }
            },
            _ => {},
        }
        i = i + 1;
    }
    assert(views.take(n as int) =~= views);
    Some(total)
}

/// What the coin outputs take of `asset_id`, unless it does not fit in a
/// word.
pub fn spent(outputs: &Vec<Output>, asset_id: &AssetId) -> (r: Option<Word>)
    ensures
        match r {
            Some(x) => x == spec_spent(outputs@, *asset_id),
            None => spec_spent(outputs@, *asset_id) > u64::MAX,
        },
{
    let n = outputs.len();
    let mut total: u64 = 0;
    let mut i: usize = 0;
    while i < n
        invariant
            i <= n,
            n == outputs@.len(),
            total == spec_spent(outputs@.take(i as int), *asset_id),
        decreases n - i,
    {
        proof {
            assert(outputs@.take(i + 1).drop_last() =~= outputs@.take(i as int));
            lemma_spent_monotone(outputs@, *asset_id, i + 1);
        }
        match outputs[i] {
            Output::Coin { amount, asset_id: id, .. } => {
                if id.same(asset_id) {
                    match total.checked_add(amount) {
                        Some(sum) => {
                            total = sum;
                        },
                        None => {
                            return None;
                        },
                    }
                }
            },
            _ => {},
        }
        i = i + 1;
    }
    assert(outputs@.take(n as int) =~= outputs@);
    Some(total)
}

proof fn lemma_product_bound(a: nat, b: nat)
    requires
        a <= 0xffff_ffff_ffff_ffff,
        b <= 0xffff_ffff_ffff_ffff,
    ensures
        a * b <= 0xffff_ffff_ffff_fffe_0000_0000_0000_0001,
{
    assert(a * b <= 0xffff_ffff_ffff_ffff * 0xffff_ffff_ffff_ffff) by (nonlinear_arith)
        requires
            a <= 0xffff_ffff_ffff_ffff,
            b <= 0xffff_ffff_ffff_ffff,
    ;
}

proof fn lemma_quotient_large(cost: nat, factor: nat)
    requires
        cost >= 0x1_0000_0000_0000_0000_0000_0000_0000_0000,
        0 < factor <= 0xffff_ffff_ffff_ffff,
    ensures
        cost / factor >= 0x1_0000_0000_0000_0000,
{
    assert(cost / factor >= 0x1_0000_0000_0000_0000) by (nonlinear_arith)
        requires
            cost >= 0x1_0000_0000_0000_0000 * 0x1_0000_0000_0000_0000,
            0 < factor <= 0xffff_ffff_ffff_ffff,
    ;
}

/// The most that a transaction can cost, unless it does not fit in a word.
pub fn max_fee(metered: usize, gas_limit: Word, gas_price: Word, fee: &FeeParameters) -> (r: Option<
    Word,
>)
    ensures
        match r {
            Some(x) => x == spec_max_fee(metered as nat, gas_limit, gas_price, *fee),
            None => spec_max_fee(metered as nat, gas_limit, gas_price, *fee) > u64::MAX,
        },
{
    proof {
        lemma_product_bound(metered as nat, fee.gas_per_byte as nat);
    }
    let bytes_gas: u128 = (metered as u128) * (fee.gas_per_byte as u128);
    let gas: u128 = bytes_gas + gas_limit as u128;
    let ghost cost_nat = gas as nat * gas_price as nat;
    let cost = match gas.checked_mul(gas_price as u128) {
        Some(cost) => cost,
        None => {
            proof {
                if fee.gas_price_factor != 0 {
                    lemma_quotient_large(cost_nat, fee.gas_price_factor as nat);
                }
            }
            return None;
        },
    };
    let factor = fee.gas_price_factor as u128;
    let total: u128 = if factor == 0 {
        cost
    } else {
        let quotient = cost / factor;
        if quotient > u64::MAX as u128 {
            return None;
        }
        if cost % factor == 0 {
            quotient
        } else {
            quotient + 1
        }
    };
    if total > u64::MAX as u128 {
        None
    } else {
        Some(total as u64)
    }
}

/// The rule that the funds of `asset_id` break, if they break one.
pub fn check_balance(
    inputs: &Vec<Input>,
    outputs: &Vec<Output>,
    metered: usize,
    gas_limit: Word,
    gas_price: Word,
    params: &ConsensusParameters,
    asset_id: &AssetId,
) -> (r: Option<CheckError>)
    ensures
        r == spec_balance_error(
            spec_views(inputs@),
            outputs@,
            spec_max_fee(metered as nat, gas_limit, gas_price, params.fee_params),
            *asset_id,
            params.base_asset_id,
        ),
{
    let brought = available(inputs, asset_id, &params.base_asset_id);
    let taken = spent(outputs, asset_id);
    let fee = if asset_id.same(&params.base_asset_id) {
        max_fee(metered, gas_limit, gas_price, &params.fee_params)
    } else {
        Some(0)
    };
    match (brought, taken, fee) {
        (Some(brought), Some(taken), Some(fee)) => match taken.checked_add(fee) {
            Some(needed) => if brought < needed {
                Some(CheckError::InsufficientInputAmount { asset_id: *asset_id })
            } else {
                None
            },
            None => Some(CheckError::ArithmeticOverflow),
        },
        _ => Some(CheckError::ArithmeticOverflow),
    }
}

/// The findings of the rule on funds, asked of the asset of each input.
pub open spec fn spec_input_balance_errors(
    inputs: Seq<InputView>,
    outputs: Seq<Output>,
    max_fee: nat,
    base: AssetId,
) -> Seq<Option<CheckError>> {
    Seq::new(
        inputs.len(),
        |i: int|
            match inputs[i].spec_asset_id(base) {
                Some(asset_id) => spec_balance_error(inputs, outputs, max_fee, asset_id, base),
                None => None,
            },
    )
}

/// The findings of the rule on funds, asked of the asset of each coin
/// among the outputs.
pub open spec fn spec_output_balance_errors(
    inputs: Seq<InputView>,
    outputs: Seq<Output>,
    max_fee: nat,
    base: AssetId,
) -> Seq<Option<CheckError>> {
    Seq::new(
        outputs.len(),
        |i: int|
            match outputs[i] {
                Output::Coin { asset_id, .. } => spec_balance_error(
                    inputs,
                    outputs,
                    max_fee,
                    asset_id,
                    base,
                ),
                _ => None,
            },
    )
}

/// The first rule on funds that is broken: asked of the base asset, in
/// which the fee is paid, then of the asset of each input, then of the
/// asset of each coin among the outputs.
pub open spec fn spec_funds_error(
    inputs: Seq<InputView>,
    outputs: Seq<Output>,
    max_fee: nat,
    base: AssetId,
) -> Option<CheckError> {
    match spec_balance_error(inputs, outputs, max_fee, base, base) {
        Some(e) => Some(e),
        None => match spec_first_error(spec_input_balance_errors(inputs, outputs, max_fee, base)) {
            Some(e) => Some(e),
            None => spec_first_error(spec_output_balance_errors(inputs, outputs, max_fee, base)),
        },
    }
}

/// The first rule on funds that is broken, if one is.
pub fn check_funds(
    inputs: &Vec<Input>,
    outputs: &Vec<Output>,
    metered: usize,
    gas_limit: Word,
    gas_price: Word,
    params: &ConsensusParameters,
) -> (r: Option<CheckError>)
    ensures
        r == spec_funds_error(
            spec_views(inputs@),
            outputs@,
            spec_max_fee(metered as nat, gas_limit, gas_price, params.fee_params),
            params.base_asset_id,
        ),
{
    let ghost views = spec_views(inputs@);
    let ghost fee = spec_max_fee(metered as nat, gas_limit, gas_price, params.fee_params);
    match check_balance(
        inputs,
        outputs,
        metered,
        gas_limit,
        gas_price,
        params,
        &params.base_asset_id,
    ) {
        Some(e) => {
            return Some(e);
        },
        None => {},
    }
    let ghost first = spec_input_balance_errors(views, outputs@, fee, params.base_asset_id);
    let n = inputs.len();
    let mut i: usize = 0;
    assert(first.skip(0) =~= first);
    while i < n
        invariant
            i <= n,
            n == inputs@.len(),
            views == spec_views(inputs@),
            fee == spec_max_fee(metered as nat, gas_limit, gas_price, params.fee_params),
            first == spec_input_balance_errors(views, outputs@, fee, params.base_asset_id),
            spec_balance_error(
                views,
                outputs@,
                fee,
                params.base_asset_id,
                params.base_asset_id,
            ) is None,
            spec_first_error(first) == spec_first_error(first.skip(i as int)),
        decreases n - i,
    {
        proof {
            lemma_first_error_skip(first, i as int);
        }
        match inputs[i].asset_id(&params.base_asset_id) {
            Some(asset_id) => {
                match check_balance(
                    inputs,
                    outputs,
                    metered,
                    gas_limit,
                    gas_price,
                    params,
                    &asset_id,
                ) {
                    Some(e) => {
                        return Some(e);
                    },
                    None => {},
                }
            },
            None => {},
        }
        i = i + 1;
    }
    let ghost second = spec_output_balance_errors(views, outputs@, fee, params.base_asset_id);
    let m = outputs.len();
    let mut j: usize = 0;
    assert(second.skip(0) =~= second);
    while j < m
        invariant
            j <= m,
            m == outputs@.len(),
            views == spec_views(inputs@),
            fee == spec_max_fee(metered as nat, gas_limit, gas_price, params.fee_params),
            second == spec_output_balance_errors(views, outputs@, fee, params.base_asset_id),
            first == spec_input_balance_errors(views, outputs@, fee, params.base_asset_id),
            spec_first_error(first) is None,
            spec_balance_error(
                views,
                outputs@,
                fee,
                params.base_asset_id,
                params.base_asset_id,
            ) is None,
            spec_first_error(second) == spec_first_error(second.skip(j as int)),
        decreases m - j,
    {
        proof {
            lemma_first_error_skip(second, j as int);
        }
        match outputs[j] {
            Output::Coin { asset_id, .. } => {
                match check_balance(
                    inputs,
                    outputs,
                    metered,
                    gas_limit,
                    gas_price,
                    params,
                    &asset_id,
                ) {
                    Some(e) => {
                        return Some(e);
                    },
                    None => {},
                }
            },
            _ => {},
        }
        j = j + 1;
    }
    None
}

/// The first rule that the common parts of a transaction break, if they
/// break one: the gas limit, the maturity, the numbers of inputs, outputs
/// and witnesses, the size, then the rules on each input, on each output and
/// on the funds.
pub open spec fn spec_common_error(
    inputs: Seq<InputView>,
    outputs: Seq<Output>,
    witnesses: nat,
    creates: bool,
    gas_price: Word,
    gas_limit: Word,
    maturity: BlockHeight,
    size: usize,
    metered: usize,
    block_height: BlockHeight,
    params: ConsensusParameters,
) -> Option<CheckError> {
    if gas_limit > params.tx_params.max_gas_per_tx {
        Some(CheckError::TransactionGasLimit)
    } else if maturity > block_height {
        Some(CheckError::TransactionMaturity)
    } else if inputs.len() > params.tx_params.max_inputs {
        Some(CheckError::TransactionInputsMax)
    } else if outputs.len() > params.tx_params.max_outputs {
        Some(CheckError::TransactionOutputsMax)
    } else if witnesses > params.tx_params.max_witnesses {
        Some(CheckError::TransactionWitnessesMax)
    } else if size > params.tx_params.max_size {
        Some(CheckError::TransactionSizeLimitExceeded)
    } else {
        match spec_first_error(
            spec_input_errors(inputs, outputs, witnesses, block_height, params),
        ) {
            Some(e) => Some(e),
            None => match spec_first_error(spec_output_errors(inputs, outputs, creates)) {
                Some(e) => Some(e),
                None => spec_funds_error(
                    inputs,
                    outputs,
                    spec_max_fee(metered as nat, gas_limit, gas_price, params.fee_params),
                    params.base_asset_id,
                ),
            },
        }
    }
}

/// The first rule that the common parts of a transaction break, if they
/// break one.
pub fn check_common(
    inputs: &Vec<Input>,
    outputs: &Vec<Output>,
    witnesses: usize,
    creates: bool,
    gas_price: Word,
    gas_limit: Word,
    maturity: BlockHeight,
    size: usize,
    metered: usize,
    block_height: BlockHeight,
    params: &ConsensusParameters,
) -> (r: Option<CheckError>)
    ensures
        r == spec_common_error(
            spec_views(inputs@),
            outputs@,
            witnesses as nat,
            creates,
            gas_price,
            gas_limit,
            maturity,
            size,
            metered,
            block_height,
            *params,
        ),
{
    if gas_limit > params.tx_params.max_gas_per_tx {
        return Some(CheckError::TransactionGasLimit);
    }
    if maturity > block_height {
        return Some(CheckError::TransactionMaturity);
    }
    if inputs.len() as u64 > params.tx_params.max_inputs {
        return Some(CheckError::TransactionInputsMax);
    }
    if outputs.len() as u64 > params.tx_params.max_outputs {
        return Some(CheckError::TransactionOutputsMax);
    }
    if witnesses as u64 > params.tx_params.max_witnesses {
        return Some(CheckError::TransactionWitnessesMax);
    }
    if size as u64 > params.tx_params.max_size {
        return Some(CheckError::TransactionSizeLimitExceeded);
    }
    match check_inputs(inputs, outputs, witnesses, block_height, params) {
        Some(e) => {
            return Some(e);
        },
        None => {},
    }
    match check_outputs(inputs, outputs, creates) {
        Some(e) => {
            return Some(e);
        },
        None => {},
    }
    check_funds(inputs, outputs, metered, gas_limit, gas_price, params)
}

/// The keys of storage slots rise strictly: no key occurs twice.
pub open spec fn spec_keys_ascending(slots: Seq<StorageSlot>) -> bool {
    forall|i: int, j: int|
        #![trigger slots[i], slots[j]]
        0 <= i < j < slots.len() ==> slots[i].key.rank() < slots[j].key.rank()
}

/// Tells whether the keys of `slots` rise strictly.
pub fn keys_ascending(slots: &Vec<StorageSlot>) -> (r: bool)
    ensures
        r == spec_keys_ascending(slots@),
{
    let n = slots.len();
    if n < 2 {
        return true;
    }
    let mut k: usize = 1;
    while k < n
        invariant
            1 <= k <= n,
            n == slots@.len(),
            spec_keys_ascending(slots@.take(k as int)),
        decreases n - k,
    {
        if !slots[k - 1].key.precedes(&slots[k].key) {
            return false;
        }
        proof {
            let before = slots@.take(k as int);
            let after = slots@.take(k + 1);
            assert forall|i: int, j: int|
                #![trigger after[i], after[j]]
                0 <= i < j < after.len() implies after[i].key.rank() < after[j].key.rank() by {
                if j < k {
                    assert(before[i].key.rank() < before[j].key.rank());
                } else if i < k - 1 {
                    assert(before[i].key.rank() < before[k - 1].key.rank());
                }
            }
        }
        k = k + 1;
    }
    assert(slots@.take(n as int) =~= slots@);
    true
}

impl TransactionView {
    /// The first rule that the transaction breaks at the height
    /// `block_height` under the parameters `params`, if it breaks one. The
    /// rules of its kind come first, then the rules on the common parts.
    pub open spec fn spec_check_error(
        self,
        block_height: BlockHeight,
        params: ConsensusParameters,
    ) -> Option<CheckError> {
        match self {
            TransactionView::Script(v) => if v.script.len()
                > params.script_params.max_script_length {
                Some(CheckError::TransactionScriptLength)
            } else if v.script_data.len() > params.script_params.max_script_data_length {
                Some(CheckError::TransactionScriptDataLength)
            } else {
                spec_common_error(
                    v.inputs,
                    v.outputs,
                    v.witnesses.len(),
                    false,
                    v.gas_price,
                    v.gas_limit,
                    v.maturity,
                    spec_saturate(self.spec_encode().len() as int),
                    spec_saturate(self.spec_metered_size() as int),
                    block_height,
                    params,
                )
            },
            TransactionView::Create(v) => if v.bytecode_witness_index >= v.witnesses.len() {
                Some(CheckError::TransactionCreateBytecodeWitnessIndex)
            } else if v.bytecode_length != spec_bytecode_length(
                v.witnesses,
                v.bytecode_witness_index,
            ) || v.witnesses[v.bytecode_witness_index as int].len()
                > params.contract_params.contract_max_size {
                Some(CheckError::TransactionCreateBytecodeLen)
            } else if v.storage_slots.len() > params.contract_params.max_storage_slots {
                Some(CheckError::TransactionCreateStorageSlotMax)
            } else if !spec_keys_ascending(v.storage_slots) {
                Some(CheckError::TransactionCreateStorageSlotOrder)
            } else {
                spec_common_error(
                    v.inputs,
                    v.outputs,
                    v.witnesses.len(),
                    true,
                    v.gas_price,
                    v.gas_limit,
                    v.maturity,
                    spec_saturate(self.spec_encode().len() as int),
                    spec_saturate(self.spec_metered_size() as int),
                    block_height,
                    params,
                )
            },
            TransactionView::Mint(mint) => if mint.output_contract.input_index != 0 {
                Some(CheckError::TransactionMintOutputIndex)
            } else {
                None
            },
        }
    }

    /// The outcome of checking the transaction: the first rule it breaks.
    pub open spec fn spec_check(self, block_height: BlockHeight, params: ConsensusParameters) -> Result<
        (),
        CheckError,
    > {
        match self.spec_check_error(block_height, params) {
            Some(e) => Err(e),
            None => Ok(()),
        }
    }
}

/// The first rule on signatures that the input at `index` breaks, if it
/// breaks one: the witness that unlocks it is missing, or it is no
/// signature of `id` by the owner of the input.
pub open spec fn spec_signature_error(
    inputs: Seq<InputView>,
    witnesses: Seq<Seq<u8>>,
    id: Seq<u8>,
    index: int,
) -> Option<CheckError> {
    match inputs[index].spec_witness_index() {
        None => None,
        Some(w) => if w >= witnesses.len() {
            Some(CheckError::InputWitnessIndexBounds { index: index as usize })
        } else if witnesses[w as int].len() != 64 || spec_signer(witnesses[w as int], id) != Some(
            inputs[index].spec_owner().unwrap().0@,
        ) {
            Some(CheckError::InputInvalidSignature { index: index as usize })
        } else {
            None
        },
    }
}

/// The findings of the rule on signatures, one for each input.
pub open spec fn spec_signature_errors(
    inputs: Seq<InputView>,
    witnesses: Seq<Seq<u8>>,
    id: Seq<u8>,
) -> Seq<Option<CheckError>> {
    Seq::new(inputs.len(), |i: int| spec_signature_error(inputs, witnesses, id, i))
}

/// The first rule on signatures that the input at `index` breaks, if it
/// breaks one.
pub fn check_signature(
    inputs: &Vec<Input>,
    witnesses: &Vec<Witness>,
    id: &Bytes32,
    index: usize,
) -> (r: Option<CheckError>)
    requires
        index < inputs@.len(),
    ensures
        r == spec_signature_error(
            spec_views(inputs@),
            spec_views(witnesses@),
            id.0@,
            index as int,
        ),
{
    let (w, owner) = match (inputs[index].witness_index(), inputs[index].input_owner()) {
        (Some(w), Some(owner)) => (w as usize, owner),
        _ => {
            return None;
        },
    };
    if w >= witnesses.len() {
        return Some(CheckError::InputWitnessIndexBounds { index });
    }
    let bytes = witnesses[w].as_slice();
    if bytes.len() != 64 {
        return Some(CheckError::InputInvalidSignature { index });
    }
    let mut signature = [0u8; 64];
    let mut k: usize = 0;
    while k < 64
        invariant
            k <= 64,
            bytes@.len() == 64,
            forall|j: int| 0 <= j < k ==> signature@[j] == bytes@[j],
        decreases 64 - k,
    {
        signature[k] = bytes[k];
        k = k + 1;
    }
    assert(signature@ =~= bytes@);
    match Signature(signature).signer(id) {
        Some(signer) => {
            proof {
                if signer.0@ == owner.0@ {
                    assert(signer.0 =~= owner.0);
                }
            }
            if signer.same(&owner) {
                None
            } else {
                Some(CheckError::InputInvalidSignature { index })
            }
        },
        None => Some(CheckError::InputInvalidSignature { index }),
    }
}

/// The first rule on signatures that an input breaks, if one does.
pub fn check_signatures_of(inputs: &Vec<Input>, witnesses: &Vec<Witness>, id: &Bytes32) -> (r:
    Option<CheckError>)
    ensures
        r == spec_first_error(
            spec_signature_errors(spec_views(inputs@), spec_views(witnesses@), id.0@),
        ),
{
    let ghost errors = spec_signature_errors(spec_views(inputs@), spec_views(witnesses@), id.0@);
    let n = inputs.len();
    let mut i: usize = 0;
    assert(errors.skip(0) =~= errors);
    while i < n
        invariant
            i <= n,
            n == inputs@.len(),
            errors == spec_signature_errors(spec_views(inputs@), spec_views(witnesses@), id.0@),
            spec_first_error(errors) == spec_first_error(errors.skip(i as int)),
        decreases n - i,
    {
        proof {
            lemma_first_error_skip(errors, i as int);
        }
        match check_signature(inputs, witnesses, id, i) {
            Some(e) => {
                return Some(e);
            },
            None => {},
        }
        i = i + 1;
    }
    None
}

impl Transaction {
    /// Checks the transaction against the rules at the height
    /// `block_height` under the parameters `params`: fails with the first
    /// rule that it breaks.
    pub fn check(&self, block_height: BlockHeight, params: &ConsensusParameters) -> (r: Result<
        (),
        CheckError,
    >)
        ensures
            r == self@.spec_check(block_height, *params),
    {
        let error = match self {
            Transaction::Script(script) => {
                proof {
                    lemma_output_views(script.outputs@);
                }
                if script.script.len() as u64 > params.script_params.max_script_length {
                    Some(CheckError::TransactionScriptLength)
                } else if script.script_data.len() as u64
                    > params.script_params.max_script_data_length {
                    Some(CheckError::TransactionScriptDataLength)
                } else {
                    check_common(
                        &script.inputs,
                        &script.outputs,
                        script.witnesses.len(),
                        false,
                        script.gas_price,
                        script.gas_limit,
                        script.maturity,
                        self.size(),
                        self.metered_bytes_size(),
                        block_height,
                        params,
                    )
                }
            },
            Transaction::Create(create) => {
                let witnesses = create.witnesses();
                let outputs = create.outputs();
                let slots = create.storage_slots();
                let index = create.bytecode_witness_index() as usize;
                proof {
                    lemma_output_views(outputs@);
                }
                if index >= witnesses.len() {
                    Some(CheckError::TransactionCreateBytecodeWitnessIndex)
                } else if create.bytecode_length() != (witnesses[index].len() / 4) as u64
                    || witnesses[index].len() as u64 > params.contract_params.contract_max_size {
                    Some(CheckError::TransactionCreateBytecodeLen)
                } else if slots.len() as u64 > params.contract_params.max_storage_slots {
                    Some(CheckError::TransactionCreateStorageSlotMax)
                } else if !keys_ascending(slots) {
                    Some(CheckError::TransactionCreateStorageSlotOrder)
                } else {
                    check_common(
                        create.inputs(),
                        outputs,
                        witnesses.len(),
                        true,
                        create.gas_price(),
                        create.gas_limit(),
                        create.maturity(),
                        self.size(),
                        self.metered_bytes_size(),
                        block_height,
                        params,
                    )
                }
            },
            Transaction::Mint(mint) => if mint.output_contract.input_index != 0 {
                Some(CheckError::TransactionMintOutputIndex)
            } else {
                None
            },
        };
        match error {
            Some(e) => Err(e),
            None => Ok(()),
        }
    }

    /// Checks that the witness of every input that a signature unlocks holds
    /// a signature of the transaction's identifier by the owner of the
    /// input: fails with the first input of which it does not.
    pub fn check_signatures(&self, chain_id: ChainId) -> (r: Result<(), CheckError>)
        ensures
            r == match spec_first_error(
                spec_signature_errors(
                    self@.spec_inputs(),
                    self@.spec_witnesses(),
                    self@.spec_id(chain_id),
                ),
            ) {
                Some(e) => Err::<(), CheckError>(e),
                None => Ok(()),
            },
    {
        let id = self.id(chain_id);
        let error = match (self.inputs(), self.witnesses()) {
            (Some(inputs), Some(witnesses)) => check_signatures_of(inputs, witnesses, &id),
            _ => {
                assert(spec_signature_errors(
                    self@.spec_inputs(),
                    self@.spec_witnesses(),
                    self@.spec_id(chain_id),
                ) =~= Seq::empty());
                None
            },
        };
        match error {
            Some(e) => Err(e),
            None => Ok(()),
        }
    }

    /// Checks the transaction and, where it meets the rules, bundles it with
    /// what was derived from it.
    pub fn into_checked(self, block_height: BlockHeight, params: &ConsensusParameters) -> (r:
        Result<Checked, CheckError>)
        ensures
            match self@.spec_check(block_height, *params) {
                Ok(_) => r matches Ok(checked) && checked.spec_transaction()@ == self@
                    && checked.spec_id().0@ == self@.spec_id(params.chain_id)
                    && checked.spec_block_height() == block_height && checked.spec_params()
                    == *params,
                Err(e) => r matches Err(f) && f == e,
            },
    {
        match self.check(block_height, params) {
            Ok(_) => {
                let id = self.id(params.chain_id);
                let metered = self.metered_bytes_size();
                Ok(Checked { transaction: self, id, metered, block_height, params: *params })
            },
            Err(e) => Err(e),
        }
    }
}

/// A transaction that met the rules, with what was derived from it while it
/// was checked.
#[derive(Debug, PartialEq, Eq)]
pub struct Checked {
    transaction: Transaction,
    id: Bytes32,
    metered: usize,
    block_height: BlockHeight,
    params: ConsensusParameters,
}

impl Checked {
    #[verifier::type_invariant]
    spec fn checked(self) -> bool {
        &&& self.transaction@.spec_check(self.block_height, self.params) is Ok
        &&& self.id.0@ == self.transaction@.spec_id(self.params.chain_id)
        &&& self.metered == spec_saturate(self.transaction@.spec_metered_size() as int)
    }

    /// The transaction that was checked.
    pub closed spec fn spec_transaction(&self) -> Transaction {
        self.transaction
    }

    /// The identifier of the transaction.
    pub closed spec fn spec_id(&self) -> Bytes32 {
        self.id
    }

    /// The height at which the transaction was checked.
    pub closed spec fn spec_block_height(&self) -> BlockHeight {
        self.block_height
    }

    /// The parameters under which the transaction was checked.
    pub closed spec fn spec_params(&self) -> ConsensusParameters {
        self.params
    }

    /// The transaction, which meets the rules.
    pub fn transaction(&self) -> (r: &Transaction)
        ensures
            *r == self.spec_transaction(),
            r@.spec_check(self.spec_block_height(), self.spec_params()) is Ok,
    {
        proof {
            use_type_invariant(self);
        }
        &self.transaction
    }

    /// The identifier of the transaction on the chain of the parameters.
    pub fn id(&self) -> (r: Bytes32)
        ensures
            r == self.spec_id(),
            r.0@ == self.spec_transaction()@.spec_id(self.spec_params().chain_id),
    {
        proof {
            use_type_invariant(self);
        }
        self.id
    }

    /// Number of bytes of the transaction that gas is charged for.
    pub fn metered_bytes_size(&self) -> (r: usize)
        ensures
            r == spec_saturate(self.spec_transaction()@.spec_metered_size() as int),
    {
        proof {
            use_type_invariant(self);
        }
        self.metered
    }

    /// Gives the transaction back.
    pub fn into_transaction(self) -> (r: Transaction)
        ensures
            r == self.spec_transaction(),
    {
        self.transaction
    }
}

} // verus!
