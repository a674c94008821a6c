use fuel_vm_core::codec::{Canonical, Reader};
use fuel_vm_core::consts::{MEM_SIZE, VM_TX_MEMORY};
use fuel_vm_core::error::PanicReason;
use fuel_vm_core::input::{self, Input};
use fuel_vm_core::introspection::Interpreter;
use fuel_vm_core::output::{self, Output};
use fuel_vm_core::transaction::Transaction;
use fuel_vm_core::types::{Bytes32, StorageSlot, TxPointer, UtxoId, Witness};

fn b32(byte: u8) -> Bytes32 {
    Bytes32::new([byte; 32])
}

fn coin(utxo: u8) -> Input {
    Input::coin_signed(UtxoId::new(b32(utxo), 0), b32(1), 10, b32(2), TxPointer::new(1, 2), 0, 0)
}

fn inputs() -> Vec<Input> {
    vec![
        coin(1),
        Input::coin_predicate(
            UtxoId::new(b32(2), 0),
            b32(1),
            1,
            b32(2),
            TxPointer::default(),
            0,
            0,
            vec![1; 9],
            vec![2; 3],
        ),
        Input::message_data_signed(b32(1), b32(2), 3, b32(4), 1, vec![5; 20]),
        coin(3),
    ]
}

fn outputs() -> Vec<Output> {
    vec![Output::coin(b32(1), 2, b32(3)), Output::contract_created(b32(4), b32(5)), Output::change(b32(6), 7, b32(8))]
}

fn witnesses() -> Vec<Witness> {
    vec![Witness::from(vec![1; 3]), Witness::from(vec![]), Witness::from(vec![2; 64])]
}

fn loaded(tx: &Transaction) -> Box<[u8; MEM_SIZE]> {
    let mut memory: Box<[u8; MEM_SIZE]> = vec![0xeeu8; MEM_SIZE].try_into().unwrap();
    let image = tx.to_bytes();
    memory[VM_TX_MEMORY..VM_TX_MEMORY + image.len()].copy_from_slice(&image);
    memory
}

#[test]
fn inputs_of_a_script_with_two_signed_coins() {
    let tx = Transaction::from(Transaction::script(
        0,
        0,
        0,
        vec![1, 2, 3],
        vec![],
        vec![coin(1), coin(2)],
        vec![],
        vec![],
    ));
    let memory = loaded(&tx);
    let mut vm = Interpreter::new(tx);
    vm.transaction_input_start(0x10, 0).unwrap();
    vm.transaction_input_length(0x11, 0).unwrap();
    vm.transaction_input_start(0x12, 1).unwrap();
    vm.transaction_input_length(0x13, 1).unwrap();
    let (start0, len0) = (vm.registers[0x10] as usize, vm.registers[0x11] as usize);
    let (start1, len1) = (vm.registers[0x12] as usize, vm.registers[0x13] as usize);
    assert_eq!(start0, VM_TX_MEMORY + 104 + 8);
    assert_eq!(len0, 152);
    assert_eq!(start1, start0 + len0);
    assert_eq!(len1, 152);
    assert_eq!(Input::decode(&mut Reader::new(&memory[start0..start0 + len0])), Ok(coin(1)));
    assert_eq!(Input::decode(&mut Reader::new(&memory[start1..start1 + len1])), Ok(coin(2)));
    assert_eq!(vm.transaction_input_start(0x10, 2), Err(PanicReason::InputNotFound));
    assert_eq!(vm.registers[0x10] as usize, start0);
}

fn every_place_agrees_with_the_image(tx: Transaction) {
    let memory = loaded(&tx);
    let image = tx.to_bytes();
    let mut vm = Interpreter::new(tx.clone());

    for (i, input) in inputs().iter().enumerate() {
        vm.transaction_input_start(1, i as u64).unwrap();
        vm.transaction_input_length(2, i as u64).unwrap();
        let (start, len) = (vm.registers[1] as usize, vm.registers[2] as usize);
        assert_eq!(len, input.size());
        assert_eq!(tx.input_offset(i), Some(start - VM_TX_MEMORY));
        assert_eq!(tx.input_length(i), Some(len));
        let mut expected = Vec::new();
        input.encode(&mut expected);
        assert_eq!(memory[start..start + len], expected[..]);
        assert_eq!(image[start - VM_TX_MEMORY..start - VM_TX_MEMORY + len], expected[..]);
    }
    for (i, output) in outputs().iter().enumerate() {
        vm.transaction_output_start(1, i as u64).unwrap();
        vm.transaction_output_length(2, i as u64).unwrap();
        let (start, len) = (vm.registers[1] as usize, vm.registers[2] as usize);
        assert_eq!(tx.output_offset(i), Some(start - VM_TX_MEMORY));
        assert_eq!(tx.output_length(i), Some(len));
        assert_eq!(Output::decode(&mut Reader::new(&memory[start..start + len])), Ok(*output));
    }
    for (i, witness) in witnesses().iter().enumerate() {
        vm.transaction_witness_start(1, i as u64).unwrap();
        vm.transaction_witness_length(2, i as u64).unwrap();
        let (start, len) = (vm.registers[1] as usize, vm.registers[2] as usize);
        assert_eq!(tx.witness_offset(i), Some(start - VM_TX_MEMORY));
        assert_eq!(tx.witness_length(i), Some(len));
        assert_eq!(
            Witness::decode(&mut Reader::new(&memory[start..start + len])),
            Ok(witness.clone())
        );
        if i == 2 {
            assert_eq!(start + len, VM_TX_MEMORY + image.len());
        }
    }

    let before = vm.registers;
    assert_eq!(vm.transaction_input_length(1, 4), Err(PanicReason::InputNotFound));
    assert_eq!(vm.transaction_input_start(1, u64::MAX), Err(PanicReason::InputNotFound));
    assert_eq!(vm.transaction_output_length(1, 3), Err(PanicReason::OutputNotFound));
    assert_eq!(vm.transaction_output_start(1, 3), Err(PanicReason::OutputNotFound));
    assert_eq!(vm.transaction_witness_length(1, 3), Err(PanicReason::WitnessNotFound));
    assert_eq!(vm.transaction_witness_start(1, 3), Err(PanicReason::WitnessNotFound));
    assert_eq!(vm.registers, before);
    assert_eq!(vm.tx, tx);
}

#[test]
fn places_in_a_script() {
    let script = Transaction::script(1, 2, 3, vec![1; 5], vec![2; 9], inputs(), outputs(), witnesses());
    assert_eq!(script.script_offset(), 104);
    assert_eq!(script.script_data_offset(), 112);
    assert_eq!(script.inputs_offset(), 128);
    assert_eq!(script.outputs_offset(), 128 + 152 + 192 + 152 + 152);
    assert_eq!(script.witnesses_offset(), script.outputs_offset() + 80 + 72 + 80);
    every_place_agrees_with_the_image(Transaction::from(script));
}

#[test]
fn places_in_a_creation_of_a_contract() {
    let create = Transaction::create(
        1,
        2,
        3,
        2,
        b32(4),
        vec![StorageSlot::new(b32(1), b32(2)), StorageSlot::new(b32(0), b32(2))],
        inputs(),
        outputs(),
        witnesses(),
    );
    assert_eq!(create.storage_slots_offset(), 112);
    assert_eq!(create.inputs_offset(), 112 + 128);
    assert_eq!(create.witnesses_offset(), create.outputs_offset() + 232);
    assert_eq!(create.size(), create.size_static() + create.size_dynamic());
    every_place_agrees_with_the_image(Transaction::from(create));
}

#[test]
fn a_mint_has_no_places() {
    let tx = Transaction::from(Transaction::mint(
        TxPointer::default(),
        input::Contract {
            utxo_id: UtxoId::default(),
            balance_root: b32(0),
            state_root: b32(0),
            tx_pointer: TxPointer::default(),
            contract_id: b32(0),
        },
        output::Contract { input_index: 0, balance_root: b32(0), state_root: b32(0) },
        1,
        b32(0),
    ));
    assert!(tx.inputs().is_none() && tx.outputs().is_none() && tx.witnesses().is_none());
    assert_eq!(tx.input_offset(0), None);
    assert_eq!(tx.output_length(0), None);
    let mut vm = Interpreter::new(tx);
    assert_eq!(vm.registers, [0u64; 64]);
    assert_eq!(vm.transaction_input_length(1, 0), Err(PanicReason::InputNotFound));
    assert_eq!(vm.transaction_output_start(1, 0), Err(PanicReason::OutputNotFound));
    assert_eq!(vm.transaction_witness_length(1, 0), Err(PanicReason::WitnessNotFound));
}

#[test]
fn fields_of_fixed_size_lie_at_their_offsets() {
    let script = Transaction::script(0x11, 0x22, 0x33, vec![], vec![], vec![], vec![], vec![]);
    let bytes = Transaction::from(script.clone()).to_bytes();
    assert_eq!(bytes[script.gas_price_offset()], 0x11);
    assert_eq!(bytes[script.gas_limit_offset()], 0x22);
    assert_eq!(bytes[script.maturity_offset()], 0x33);
    assert_eq!(script.receipts_root_offset(), 32);

    let create = Transaction::create(
        0x11,
        0x22,
        0x33,
        0x44,
        b32(0x55),
        vec![StorageSlot::new(b32(1), b32(2)), StorageSlot::new(b32(3), b32(4))],
        vec![],
        vec![],
        vec![],
    );
    let bytes = Transaction::from(create.clone()).to_bytes();
    assert_eq!(bytes[create.gas_price_offset()], 0x11);
    assert_eq!(bytes[create.gas_limit_offset()], 0x22);
    assert_eq!(bytes[create.maturity_offset()], 0x33);
    assert_eq!(bytes[create.bytecode_length_offset()], 0);
    assert_eq!(bytes[create.bytecode_witness_index_offset()], 0x44);
    assert_eq!(bytes[create.salt_offset()], 0x55);
    assert_eq!(create.storage_slots_offset_at(0), Some(112));
    assert_eq!(create.storage_slots_offset_at(1), Some(176));
    assert_eq!(create.storage_slots_offset_at(2), None);
    assert_eq!(bytes[176], 3);
}

#[test]
fn predicates_lie_at_their_offsets() {
    let script =
        Transaction::script(1, 2, 3, vec![1; 5], vec![2; 9], inputs(), outputs(), witnesses());
    let bytes = Transaction::from(script.clone()).to_bytes();
    assert_eq!(script.inputs_predicate_offset_at(0), None);
    assert_eq!(script.inputs_predicate_offset_at(2), None);
    assert_eq!(script.inputs_predicate_offset_at(9), None);
    let (offset, len) = script.inputs_predicate_offset_at(1).unwrap();
    assert_eq!((offset, len), (128 + 152 + 168, 9));
    assert_eq!(bytes[offset..offset + len], [1u8; 9]);
    assert_eq!(script.inputs_offset_at(1), Some(128 + 152));
    assert_eq!(script.inputs_offset_at(4), None);
    assert_eq!(script.outputs_offset_at(1), Some(script.outputs_offset() + 80));
    assert_eq!(script.witnesses_offset_at(2), Some(script.witnesses_offset() + 16 + 8));
    assert_eq!(script.witnesses_offset_at(3), None);

    let message = Input::message_data_predicate(b32(1), b32(2), 3, b32(4), 5, vec![6; 9], vec![7; 3], vec![8]);
    assert_eq!(message.predicate_offset_and_len(), Some((144 + 16, 3)));
    let mut image = Vec::new();
    message.encode(&mut image);
    assert_eq!(image[160..163], [7u8; 3]);
    let coin_predicate = Input::message_coin_predicate(b32(1), b32(2), 3, b32(4), 5, vec![7; 3], vec![8]);
    assert_eq!(coin_predicate.predicate_offset_and_len(), Some((136, 3)));

    let create = Transaction::create(
        1,
        2,
        3,
        0,
        b32(4),
        vec![StorageSlot::new(b32(1), b32(2))],
        inputs(),
        outputs(),
        witnesses(),
    );
    let bytes = Transaction::from(create.clone()).to_bytes();
    let (offset, len) = create.inputs_predicate_offset_at(1).unwrap();
    assert_eq!((offset, len), (112 + 64 + 152 + 168, 9));
    assert_eq!(bytes[offset..offset + len], [1u8; 9]);
    assert_eq!(create.inputs_offset_at(0), Some(176));
    assert_eq!(create.outputs_offset_at(0), Some(create.outputs_offset()));
    assert_eq!(create.witnesses_offset_at(1), Some(create.witnesses_offset() + 16));
}
