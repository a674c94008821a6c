use fuel_vm_core::create::Create;
use fuel_vm_core::crypto::{PublicKey, SecretKey};
use fuel_vm_core::executable::{
    check_predicate_owners, input_asset_ids, input_asset_ids_unique, input_contracts,
    insert_ascending, Executable,
};
use fuel_vm_core::input::{self, Input};
use fuel_vm_core::output::{self, Output};
use fuel_vm_core::script::Script;
use fuel_vm_core::transaction::Transaction;
use fuel_vm_core::types::{Bytes32, TxPointer, UtxoId};

fn b32(byte: u8) -> Bytes32 {
    Bytes32::new([byte; 32])
}

fn hex32(hex: &str) -> Bytes32 {
    let mut bytes = [0u8; 32];
    for i in 0..32 {
        bytes[i] = u8::from_str_radix(&hex[2 * i..2 * i + 2], 16).unwrap();
    }
    Bytes32::new(bytes)
}

fn coin(asset: u8) -> Input {
    Input::coin_signed(UtxoId::new(b32(asset), 0), b32(1), 10, b32(asset), TxPointer::new(1, 2), 0, 0)
}

fn contract(id: u8) -> Input {
    Input::contract(UtxoId::new(b32(1), 1), b32(2), b32(3), TxPointer::new(4, 5), b32(id))
}

fn message() -> Input {
    Input::message_coin_signed(b32(1), b32(2), 3, b32(4), 0)
}

fn empty_script(inputs: Vec<Input>, outputs: Vec<Output>) -> Script {
    Transaction::script(0, 0, 0, vec![], vec![], inputs, outputs, vec![])
}

fn empty_create(inputs: Vec<Input>, outputs: Vec<Output>) -> Create {
    Transaction::create(0, 0, 0, 0, Default::default(), vec![], inputs, outputs, vec![])
}

#[test]
fn asset_ids_follow_the_inputs() {
    let base = b32(0xee);
    let inputs = vec![coin(7), contract(1), message(), coin(5), coin(7), message()];
    assert_eq!(
        input_asset_ids(&inputs, &base),
        vec![b32(7), base, b32(5), b32(7), base]
    );
    assert_eq!(input_asset_ids_unique(&inputs, &base), vec![b32(7), base, b32(5)]);
    assert_eq!(input_asset_ids(&vec![], &base), vec![]);
    assert_eq!(input_asset_ids_unique(&vec![contract(1)], &base), vec![]);

    let script = empty_script(inputs.clone(), vec![]);
    assert_eq!(script.input_asset_ids(&base).len(), 5);
    assert_eq!(script.input_asset_ids_unique(&base), vec![b32(7), base, b32(5)]);
    let create = empty_create(inputs, vec![]);
    assert_eq!(create.input_asset_ids_unique(&base), vec![b32(7), base, b32(5)]);
    assert_eq!(create.inputs().len(), 6);
    assert!(create.outputs().is_empty() && create.witnesses().is_empty());
}

#[test]
fn contracts_come_out_sorted_and_once() {
    let inputs = vec![contract(9), coin(1), contract(3), contract(9), message(), contract(4)];
    assert_eq!(input_contracts(&inputs), vec![b32(3), b32(4), b32(9)]);
    assert_eq!(input_contracts(&vec![coin(1)]), vec![]);
    assert_eq!(empty_script(inputs, vec![]).input_contracts(), vec![b32(3), b32(4), b32(9)]);

    let mut ids = vec![b32(2), b32(6)];
    insert_ascending(&mut ids, b32(4));
    insert_ascending(&mut ids, b32(6));
    insert_ascending(&mut ids, b32(1));
    insert_ascending(&mut ids, b32(8));
    assert_eq!(ids, vec![b32(1), b32(2), b32(4), b32(6), b32(8)]);
}

#[test]
fn digest_of_known_strings() {
    assert_eq!(
        Input::predicate_owner(&[]),
        hex32("e3b0c44298fc1c149afbf4c8996fb92427ae41e4649b934ca495991b7852b855")
    );
    assert_eq!(
        Input::predicate_owner(b"abc"),
        hex32("ba7816bf8f01cfea414140de5dae2223b00361a396177a9cb410ff61f20015ad")
    );
}

#[test]
fn predicates_belong_to_the_digest_of_their_code() {
    let predicate = vec![1u8, 2, 3];
    let owner = Input::predicate_owner(&predicate);
    assert!(Input::is_predicate_owner_valid(&owner, &predicate));
    assert!(!Input::is_predicate_owner_valid(&owner, &[1, 2]));
    assert!(!Input::is_predicate_owner_valid(&b32(0), &predicate));

    let good = vec![
        coin(1),
        Input::coin_predicate(
            UtxoId::default(),
            owner,
            1,
            b32(1),
            TxPointer::default(),
            0,
            0,
            predicate.clone(),
            vec![],
        ),
        Input::message_coin_predicate(b32(1), owner, 1, b32(2), 0, predicate.clone(), vec![9]),
        Input::message_data_predicate(
            b32(1),
            owner,
            1,
            b32(2),
            0,
            vec![1],
            predicate.clone(),
            vec![],
        ),
    ];
    assert!(check_predicate_owners(&good));
    assert!(check_predicate_owners(&vec![]));
    assert!(empty_script(good.clone(), vec![]).check_predicate_owners());

    let mut bad = good.clone();
    bad.push(Input::message_coin_predicate(b32(1), b32(2), 1, b32(2), 0, predicate, vec![]));
    bad.push(coin(2));
    assert!(!check_predicate_owners(&bad));
    assert!(!empty_create(bad, vec![]).check_predicate_owners());
}

#[test]
fn unsigned_inputs_are_added_at_the_end() {
    let secret = SecretKey([1; 32]);
    let key: PublicKey = secret.public_key().unwrap();
    let owner = Input::owner(&key);
    assert_eq!(owner, key.address());

    let mut script = empty_script(vec![message()], vec![]);
    script.add_unsigned_coin_input(UtxoId::new(b32(1), 2), &key, 3, b32(4), TxPointer::new(5, 6), 7, 8);
    assert_eq!(
        script.inputs,
        vec![
            message(),
            Input::coin_signed(UtxoId::new(b32(1), 2), owner, 3, b32(4), TxPointer::new(5, 6), 8, 7)
        ]
    );
    script.add_unsigned_message_input(b32(1), b32(2), b32(3), 4, vec![], 5);
    script.add_unsigned_message_input(b32(1), b32(2), b32(3), 4, vec![6], 5);
    assert_eq!(
        script.inputs[2..],
        [
            Input::message_coin_signed(b32(1), b32(2), 4, b32(3), 5),
            Input::message_data_signed(b32(1), b32(2), 4, b32(3), 5, vec![6]),
        ]
    );

    let mut create = empty_create(vec![], vec![Output::coin(b32(1), 1, b32(1))]);
    create.add_unsigned_coin_input(UtxoId::new(b32(1), 2), &key, 3, b32(4), TxPointer::new(5, 6), 7, 8);
    create.add_unsigned_message_input(b32(1), b32(2), b32(3), 4, vec![6], 5);
    assert_eq!(create.inputs().len(), 2);
    assert_eq!(create.inputs()[0], script.inputs[1]);
    assert_eq!(create.inputs()[1], script.inputs[3]);
    assert_eq!(create.outputs().len(), 1);
}

fn outputs() -> Vec<Output> {
    vec![
        Output::coin(b32(1), 2, b32(3)),
        Output::contract(0, b32(5), b32(6)),
        Output::change(b32(7), 8, b32(9)),
        Output::variable(b32(10), 11, b32(12)),
        Output::contract_created(b32(13), b32(14)),
    ]
}

#[test]
fn preparing_for_a_script_blanks_what_it_decides() {
    let expected = vec![
        Output::coin(b32(1), 2, b32(3)),
        Output::contract(0, b32(5), b32(6)),
        Output::change(b32(7), 0, b32(9)),
        Output::variable(b32(0), 0, b32(0)),
        Output::contract_created(b32(13), b32(14)),
    ];
    let mut script = empty_script(vec![coin(1)], outputs());
    script.prepare_init_script();
    assert_eq!(script.outputs, expected);
    assert_eq!(script.inputs, vec![coin(1)]);

    let mut create = empty_create(vec![coin(1)], outputs());
    create.prepare_init_script();
    assert_eq!(create.outputs(), &expected);
    assert_eq!(create.inputs(), &vec![coin(1)]);
}

#[test]
fn preparing_for_predicates_blanks_what_is_not_known() {
    let predicate = Input::coin_predicate(
        UtxoId::new(b32(1), 1),
        b32(2),
        3,
        b32(4),
        TxPointer::new(5, 6),
        7,
        8,
        vec![9],
        vec![10],
    );
    let inputs = vec![coin(1), predicate, contract(9), message()];
    let expected_inputs = vec![
        Input::coin_signed(UtxoId::new(b32(1), 0), b32(1), 10, b32(1), TxPointer::new(0, 0), 0, 0),
        Input::coin_predicate(
            UtxoId::new(b32(1), 1),
            b32(2),
            3,
            b32(4),
            TxPointer::new(0, 0),
            7,
            8,
            vec![9],
            vec![10],
        ),
        Input::Contract(input::Contract {
            utxo_id: UtxoId::new(b32(0), 0),
            balance_root: b32(0),
            state_root: b32(0),
            tx_pointer: TxPointer::new(0, 0),
            contract_id: b32(9),
        }),
        message(),
    ];
    let expected_outputs = vec![
        Output::coin(b32(1), 2, b32(3)),
        Output::Contract(output::Contract {
            input_index: 0,
            balance_root: b32(0),
            state_root: b32(0),
        }),
        Output::change(b32(7), 0, b32(9)),
        Output::variable(b32(0), 0, b32(0)),
        Output::contract_created(b32(13), b32(14)),
    ];
    let mut script = empty_script(inputs.clone(), outputs());
    script.prepare_init_predicate();
    assert_eq!(script.inputs, expected_inputs);
    assert_eq!(script.outputs, expected_outputs);

    let mut create = empty_create(inputs, outputs());
    create.prepare_init_predicate();
    assert_eq!(create.inputs(), &expected_inputs);
    assert_eq!(create.outputs(), &expected_outputs);
}

#[test]
fn inputs_answer_for_their_fields() {
    let base = b32(0xee);
    let c = coin(7);
    assert_eq!(c.asset_id(&base), Some(b32(7)));
    assert_eq!(c.amount(), Some(10));
    assert_eq!(c.input_owner(), Some(b32(1)));
    assert_eq!(c.witness_index(), Some(0));
    assert_eq!(c.maturity(), Some(0));
    assert_eq!(c.utxo_id(), Some(UtxoId::new(b32(7), 0)));
    assert_eq!(c.nonce(), None);
    assert_eq!(c.contract_id(), None);
    assert!(c.predicate().is_none());

    let k = contract(3);
    assert_eq!(k.asset_id(&base), None);
    assert_eq!(k.amount(), None);
    assert_eq!(k.input_owner(), None);
    assert_eq!(k.contract_id(), Some(b32(3)));
    assert_eq!(k.utxo_id(), Some(UtxoId::new(b32(1), 1)));

    let m = Input::message_data_predicate(b32(1), b32(2), 3, b32(4), 5, vec![6], vec![7], vec![8]);
    assert_eq!(m.asset_id(&base), Some(base));
    assert_eq!(m.amount(), Some(3));
    assert_eq!(m.input_owner(), Some(b32(2)));
    assert_eq!(m.witness_index(), None);
    assert_eq!(m.nonce(), Some(b32(4)));
    assert_eq!(m.predicate(), Some(&vec![7]));
    assert_eq!(m.utxo_id(), None);
    assert_eq!(m.maturity(), None);
}
