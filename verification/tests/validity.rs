use fuel_vm_core::crypto::SecretKey;
use fuel_vm_core::input::{self, Input};
use fuel_vm_core::output::{self, Output};
use fuel_vm_core::script::Script;
use fuel_vm_core::transaction::Transaction;
use fuel_vm_core::types::{Bytes32, StorageSlot, TxPointer, UtxoId, Witness};
use fuel_vm_core::validity::{
    available, check_balance, check_input, check_output, keys_ascending, max_fee, spent,
    CheckError, ConsensusParameters, FeeParameters,
};

fn b32(byte: u8) -> Bytes32 {
    Bytes32::new([byte; 32])
}

fn base() -> Bytes32 {
    Bytes32::zeroed()
}

fn coin(utxo: u8, amount: u64, asset: Bytes32) -> Input {
    Input::coin_signed(UtxoId::new(b32(utxo), 0), b32(1), amount, asset, TxPointer::new(1, 2), 0, 0)
}

fn contract(id: u8) -> Input {
    Input::contract(UtxoId::new(b32(id), 1), b32(2), b32(3), TxPointer::new(4, 5), b32(id))
}

fn message(nonce: u8) -> Input {
    Input::message_coin_signed(b32(1), b32(2), 3, b32(nonce), 0)
}

fn predicate_coin(utxo: u8, predicate: Vec<u8>, data: Vec<u8>) -> Input {
    let owner = Input::predicate_owner(&predicate);
    Input::coin_predicate(
        UtxoId::new(b32(utxo), 0),
        owner,
        5,
        base(),
        TxPointer::default(),
        0,
        0,
        predicate,
        data,
    )
}

fn valid_script() -> Script {
    Transaction::script(
        0,
        1_000,
        0,
        vec![1, 2, 3, 4],
        vec![5],
        vec![coin(1, 1_000, base())],
        vec![Output::coin(b32(9), 10, base()), Output::change(b32(9), 0, base())],
        vec![Witness::from(vec![0; 64])],
    )
}

fn check(script: Script) -> Result<(), CheckError> {
    Transaction::from(script).check(5, &ConsensusParameters::standard())
}

fn check_with(script: Script, params: ConsensusParameters) -> Result<(), CheckError> {
    Transaction::from(script).check(5, &params)
}

#[test]
fn a_sound_script_passes() {
    assert_eq!(check(valid_script()), Ok(()));
    let mut script = valid_script();
    script.inputs.push(contract(7));
    script.outputs.push(Output::contract(1, b32(0), b32(0)));
    script.inputs.push(message(1));
    script.inputs.push(predicate_coin(2, vec![1, 2], vec![3]));
    script.outputs.push(Output::variable(b32(0), 0, b32(0)));
    script.outputs.push(Output::change(b32(9), 0, b32(5)));
    assert_eq!(check(script), Ok(()));
}

#[test]
fn standard_parameters() {
    let params = ConsensusParameters::standard();
    assert_eq!(params.tx_params.max_inputs, 255);
    assert_eq!(params.tx_params.max_gas_per_tx, 100_000_000);
    assert_eq!(params.fee_params, FeeParameters { gas_price_factor: 1_000_000_000, gas_per_byte: 4 });
    assert_eq!(params.base_asset_id, Bytes32::zeroed());
    assert_eq!(params.chain_id, 0);
}

#[test]
fn bounds_on_the_transaction() {
    let mut script = valid_script();
    script.gas_limit = 100_000_001;
    assert_eq!(check(script), Err(CheckError::TransactionGasLimit));

    let mut script = valid_script();
    script.maturity = 6;
    assert_eq!(check(script), Err(CheckError::TransactionMaturity));
    let mut script = valid_script();
    script.maturity = 5;
    assert_eq!(check(script), Ok(()));

    let mut script = valid_script();
    script.inputs = (0..=255u8).map(|i| coin(i, 1, base())).collect();
    assert_eq!(script.inputs.len(), 256);
    assert_eq!(check(script), Err(CheckError::TransactionInputsMax));

    let mut script = valid_script();
    script.outputs = vec![Output::coin(b32(1), 0, base()); 256];
    assert_eq!(check(script), Err(CheckError::TransactionOutputsMax));

    let mut script = valid_script();
    script.witnesses = vec![Witness::default(); 256];
    assert_eq!(check(script), Err(CheckError::TransactionWitnessesMax));

    let mut params = ConsensusParameters::standard();
    let size = Transaction::from(valid_script()).size() as u64;
    params.tx_params.max_size = size - 1;
    assert_eq!(check_with(valid_script(), params), Err(CheckError::TransactionSizeLimitExceeded));
    params.tx_params.max_size = size;
    assert_eq!(check_with(valid_script(), params), Ok(()));

    let mut params = ConsensusParameters::standard();
    params.script_params.max_script_length = 3;
    assert_eq!(check_with(valid_script(), params), Err(CheckError::TransactionScriptLength));
    let mut params = ConsensusParameters::standard();
    params.script_params.max_script_data_length = 0;
    assert_eq!(check_with(valid_script(), params), Err(CheckError::TransactionScriptDataLength));
}

#[test]
fn rules_on_inputs() {
    let mut params = ConsensusParameters::standard();
    params.predicate_params.max_predicate_length = 1;
    let mut script = valid_script();
    script.inputs.push(predicate_coin(2, vec![1, 2], vec![]));
    assert_eq!(
        check_with(script.clone(), params),
        Err(CheckError::InputPredicateLength { index: 1 })
    );

    let mut params = ConsensusParameters::standard();
    params.predicate_params.max_predicate_data_length = 1;
    script.inputs[1] = predicate_coin(2, vec![1, 2], vec![1, 2]);
    assert_eq!(
        check_with(script.clone(), params),
        Err(CheckError::InputPredicateDataLength { index: 1 })
    );

    script.inputs[1] = predicate_coin(2, vec![], vec![]);
    assert_eq!(check(script.clone()), Err(CheckError::InputPredicateEmpty { index: 1 }));

    script.inputs[1] = Input::coin_predicate(
        UtxoId::new(b32(2), 0),
        b32(1),
        5,
        base(),
        TxPointer::default(),
        0,
        0,
        vec![1],
        vec![],
    );
    assert_eq!(check(script.clone()), Err(CheckError::PredicateOwnerInvalid { index: 1 }));

    script.inputs[1] = Input::message_coin_signed(b32(1), b32(2), 3, b32(4), 1);
    assert_eq!(check(script.clone()), Err(CheckError::InputWitnessIndexBounds { index: 1 }));

    script.inputs[1] =
        Input::coin_signed(UtxoId::new(b32(2), 0), b32(1), 1, base(), TxPointer::default(), 0, 6);
    assert_eq!(check(script.clone()), Err(CheckError::InputMaturity { index: 1 }));

    script.inputs[1] = coin(1, 77, b32(3));
    assert_eq!(
        check(script.clone()),
        Err(CheckError::DuplicateInputUtxoId { utxo_id: UtxoId::new(b32(1), 0) })
    );

    script.inputs[1] = contract(7);
    assert_eq!(
        check(script.clone()),
        Err(CheckError::InputContractAssociatedOutputContract { index: 1 })
    );
    script.outputs.push(Output::contract(1, b32(0), b32(0)));
    assert_eq!(check(script.clone()), Ok(()));
    script.inputs.push(contract(7));
    script.outputs.push(Output::contract(2, b32(0), b32(0)));
    assert_eq!(
        check(script.clone()),
        Err(CheckError::DuplicateInputContractId { contract_id: b32(7) })
    );

    let mut script = valid_script();
    script.inputs.push(message(4));
    script.inputs.push(Input::message_data_signed(b32(9), b32(9), 9, b32(4), 0, vec![1]));
    assert_eq!(check(script), Err(CheckError::DuplicateMessageInputId { nonce: b32(4) }));
}

#[test]
fn one_input_at_a_time() {
    let inputs = vec![coin(1, 1, base()), message(1), coin(1, 2, base())];
    let outputs = vec![];
    let params = ConsensusParameters::standard();
    assert_eq!(check_input(&inputs, &outputs, 1, 0, &params, 0), None);
    assert_eq!(check_input(&inputs, &outputs, 1, 0, &params, 1), None);
    assert_eq!(
        check_input(&inputs, &outputs, 1, 0, &params, 2),
        Some(CheckError::DuplicateInputUtxoId { utxo_id: UtxoId::new(b32(1), 0) })
    );
    assert_eq!(
        check_input(&inputs, &outputs, 0, 0, &params, 1),
        Some(CheckError::InputWitnessIndexBounds { index: 1 })
    );
}

#[test]
fn rules_on_outputs() {
    let mut script = valid_script();
    script.outputs.push(Output::contract(0, b32(0), b32(0)));
    assert_eq!(check(script.clone()), Err(CheckError::OutputContractInputIndex { index: 2 }));
    script.outputs[2] = Output::contract(9, b32(0), b32(0));
    assert_eq!(check(script.clone()), Err(CheckError::OutputContractInputIndex { index: 2 }));

    script.outputs[2] = Output::contract_created(b32(1), b32(2));
    assert_eq!(
        check(script.clone()),
        Err(CheckError::TransactionScriptOutputContractCreated { index: 2 })
    );

    script.outputs[2] = Output::change(b32(1), 0, base());
    assert_eq!(
        check(script.clone()),
        Err(CheckError::TransactionOutputChangeAssetIdDuplicated { asset_id: base() })
    );
    script.outputs[2] = Output::change(b32(1), 0, b32(1));
    assert_eq!(check(script), Ok(()));

    let inputs = vec![contract(1)];
    let outputs = vec![
        Output::contract(0, b32(0), b32(0)),
        Output::variable(b32(0), 0, b32(0)),
        Output::contract_created(b32(0), b32(0)),
    ];
    assert_eq!(check_output(&inputs, &outputs, false, 0), None);
    assert_eq!(check_output(&inputs, &outputs, true, 0), None);
    assert_eq!(check_output(&inputs, &outputs, false, 1), None);
    assert_eq!(
        check_output(&inputs, &outputs, true, 1),
        Some(CheckError::TransactionCreateOutputVariable { index: 1 })
    );
    assert_eq!(check_output(&inputs, &outputs, true, 2), None);
}

#[test]
fn funds_cover_what_is_spent() {
    let mut script = valid_script();
    script.outputs[0] = Output::coin(b32(9), 1_001, base());
    assert_eq!(check(script), Err(CheckError::InsufficientInputAmount { asset_id: base() }));
    let mut script = valid_script();
    script.outputs[0] = Output::coin(b32(9), 1_000, base());
    assert_eq!(check(script), Ok(()));

    // An asset that no input brings.
    let mut script = valid_script();
    script.outputs.push(Output::coin(b32(9), 1, b32(5)));
    assert_eq!(check(script), Err(CheckError::InsufficientInputAmount { asset_id: b32(5) }));
    let mut script = valid_script();
    script.outputs.push(Output::coin(b32(9), 0, b32(5)));
    assert_eq!(check(script), Ok(()));

    // Amounts that do not fit in a word.
    let mut script = valid_script();
    script.inputs.push(coin(2, u64::MAX, base()));
    assert_eq!(check(script), Err(CheckError::ArithmeticOverflow));
    let mut script = valid_script();
    script.inputs.push(coin(2, u64::MAX, b32(5)));
    script.inputs.push(coin(3, 1, b32(5)));
    assert_eq!(check(script), Err(CheckError::ArithmeticOverflow));
    let mut script = valid_script();
    script.inputs[0] = coin(1, u64::MAX, base());
    script.outputs.push(Output::coin(b32(9), u64::MAX, base()));
    assert_eq!(check(script), Err(CheckError::ArithmeticOverflow));

    // The fee is paid in the base asset.
    let metered = Transaction::from(valid_script()).metered_bytes_size() as u64;
    let fee = (metered * 4 + 1_000) * 1_000_000 / 1_000_000_000 + 1;
    let mut script = valid_script();
    script.gas_price = 1_000_000;
    script.inputs[0] = coin(1, 10 + fee, base());
    assert_eq!(check(script.clone()), Ok(()));
    script.inputs[0] = coin(1, 10 + fee - 1, base());
    assert_eq!(check(script), Err(CheckError::InsufficientInputAmount { asset_id: base() }));
}

#[test]
fn fees_are_rounded_up() {
    let fee = FeeParameters { gas_price_factor: 7, gas_per_byte: 4 };
    assert_eq!(max_fee(10, 20, 3, &fee), Some(26));
    assert_eq!(max_fee(10, 23, 3, &fee), Some(27));
    let fee = FeeParameters { gas_price_factor: 180, gas_per_byte: 4 };
    assert_eq!(max_fee(10, 20, 3, &fee), Some(1));
    let fee = FeeParameters { gas_price_factor: 0, gas_per_byte: 4 };
    assert_eq!(max_fee(10, 20, 3, &fee), Some(180));
    assert_eq!(max_fee(0, 0, 3, &fee), Some(0));
    let fee = FeeParameters { gas_price_factor: 1, gas_per_byte: u64::MAX };
    assert_eq!(max_fee(usize::MAX, u64::MAX, u64::MAX, &fee), None);
    assert_eq!(max_fee(0, u64::MAX, 1, &fee), Some(u64::MAX));
    assert_eq!(max_fee(0, u64::MAX, 2, &fee), None);
    let fee = FeeParameters { gas_price_factor: 2, gas_per_byte: 0 };
    assert_eq!(max_fee(0, u64::MAX, 2, &fee), Some(u64::MAX));
    assert_eq!(max_fee(0, u64::MAX, 3, &fee), None);
}

#[test]
fn sums_of_inputs_and_outputs() {
    let inputs = vec![coin(1, 5, b32(1)), message(1), coin(2, 7, b32(1)), contract(1), coin(3, 9, b32(2))];
    assert_eq!(available(&inputs, &b32(1), &base()), Some(12));
    assert_eq!(available(&inputs, &base(), &base()), Some(3));
    assert_eq!(available(&inputs, &b32(3), &base()), Some(0));
    assert_eq!(available(&vec![coin(1, u64::MAX, base()), message(1)], &base(), &base()), None);
    let outputs = vec![
        Output::coin(b32(1), 5, b32(1)),
        Output::change(b32(1), 50, b32(1)),
        Output::coin(b32(1), 6, b32(1)),
        Output::coin(b32(1), 7, b32(2)),
        Output::variable(b32(1), 70, b32(1)),
    ];
    assert_eq!(spent(&outputs, &b32(1)), Some(11));
    assert_eq!(spent(&outputs, &b32(3)), Some(0));
    assert_eq!(
        spent(&vec![Output::coin(b32(1), u64::MAX, base()), Output::coin(b32(1), 1, base())], &base()),
        None
    );
    let params = ConsensusParameters::standard();
    assert_eq!(check_balance(&inputs, &outputs, 0, 0, 0, &params, &b32(1)), None);
    assert_eq!(
        check_balance(&inputs, &outputs, 0, 0, 0, &params, &b32(9)),
        None
    );
    let outputs = vec![Output::coin(b32(1), 13, b32(1))];
    assert_eq!(
        check_balance(&inputs, &outputs, 0, 0, 0, &params, &b32(1)),
        Some(CheckError::InsufficientInputAmount { asset_id: b32(1) })
    );
}

#[test]
fn rules_on_the_creation_of_contracts() {
    let create = |index: u8, slots: Vec<StorageSlot>, outputs: Vec<Output>, witnesses: Vec<Witness>| {
        Transaction::from(Transaction::create(
            0,
            0,
            0,
            index,
            b32(1),
            slots,
            vec![coin(1, 100, base())],
            outputs,
            witnesses,
        ))
    };
    let params = ConsensusParameters::standard();
    let witness = || vec![Witness::from(vec![0; 64])];
    let created = || vec![Output::contract_created(b32(1), b32(2))];
    let slots = || vec![StorageSlot::new(b32(2), b32(0)), StorageSlot::new(b32(1), b32(0))];

    assert_eq!(create(0, slots(), created(), witness()).check(0, &params), Ok(()));
    assert_eq!(
        create(1, slots(), created(), witness()).check(0, &params),
        Err(CheckError::TransactionCreateBytecodeWitnessIndex)
    );
    assert_eq!(
        create(0, slots(), created(), vec![]).check(0, &params),
        Err(CheckError::TransactionCreateBytecodeWitnessIndex)
    );
    let same_key = vec![StorageSlot::new(b32(1), b32(0)), StorageSlot::new(b32(1), b32(1))];
    assert_eq!(
        create(0, same_key, created(), witness()).check(0, &params),
        Err(CheckError::TransactionCreateStorageSlotOrder)
    );
    let mut few = params;
    few.contract_params.max_storage_slots = 1;
    assert_eq!(
        create(0, slots(), created(), witness()).check(0, &few),
        Err(CheckError::TransactionCreateStorageSlotMax)
    );
    assert_eq!(
        create(0, slots(), vec![Output::variable(b32(0), 0, b32(0))], witness()).check(0, &params),
        Err(CheckError::TransactionCreateOutputVariable { index: 0 })
    );

    // A length of the bytecode that the witness does not have.
    let mut bytes = create(0, slots(), created(), witness()).to_bytes();
    assert_eq!(bytes[32..40], 16u64.to_le_bytes());
    bytes[32] = 15;
    let tx = Transaction::from_bytes(&bytes).unwrap();
    assert_eq!(tx.check(0, &params), Err(CheckError::TransactionCreateBytecodeLen));

    assert!(keys_ascending(&vec![]));
    assert!(keys_ascending(&vec![StorageSlot::new(b32(1), b32(9)), StorageSlot::new(b32(2), b32(0))]));
    assert!(!keys_ascending(&vec![StorageSlot::new(b32(2), b32(0)), StorageSlot::new(b32(1), b32(0))]));
}

#[test]
fn rules_on_mints() {
    let mint = |index: u8| {
        Transaction::from(Transaction::mint(
            TxPointer::default(),
            input::Contract {
                utxo_id: UtxoId::default(),
                balance_root: b32(0),
                state_root: b32(0),
                tx_pointer: TxPointer::default(),
                contract_id: b32(0),
            },
            output::Contract { input_index: index, balance_root: b32(0), state_root: b32(0) },
            1,
            b32(0),
        ))
    };
    let params = ConsensusParameters::standard();
    assert_eq!(mint(0).check(0, &params), Ok(()));
    assert_eq!(mint(1).check(0, &params), Err(CheckError::TransactionMintOutputIndex));
}

#[test]
fn checked_transactions_carry_what_was_derived() {
    let params = ConsensusParameters::standard();
    let tx = Transaction::from(valid_script());
    let checked = tx.clone().into_checked(5, &params).unwrap();
    assert_eq!(checked.transaction(), &tx);
    assert_eq!(checked.id(), tx.id(params.chain_id));
    assert_eq!(checked.metered_bytes_size(), tx.metered_bytes_size());
    assert_eq!(checked.into_transaction(), tx);

    let mut script = valid_script();
    script.maturity = 6;
    assert_eq!(
        Transaction::from(script).into_checked(5, &params),
        Err(CheckError::TransactionMaturity)
    );
}

#[test]
fn signatures_are_checked_when_asked() {
    let secret = SecretKey([9; 32]);
    let owner = secret.public_key().unwrap().address();
    let mut script = valid_script();
    script.inputs[0] =
        Input::coin_signed(UtxoId::new(b32(1), 0), owner, 1_000, base(), TxPointer::default(), 0, 0);
    let mut tx = Transaction::from(script);
    assert_eq!(tx.check(5, &ConsensusParameters::standard()), Ok(()));
    assert_eq!(tx.check_signatures(0), Err(CheckError::InputInvalidSignature { index: 0 }));
    assert!(tx.sign_inputs(&secret, 0));
    assert_eq!(tx.check_signatures(0), Ok(()));
    assert_eq!(tx.check(5, &ConsensusParameters::standard()), Ok(()));
}
