use fuel_vm_core::codec::{Canonical, DecodeError, Field, Reader};
use fuel_vm_core::create::Create;
use fuel_vm_core::input::{self, Input};
use fuel_vm_core::mint::Mint;
use fuel_vm_core::output::{self, Output};
use fuel_vm_core::script::Script;
use fuel_vm_core::transaction::Transaction;
use fuel_vm_core::types::{Bytes32, StorageSlot, TxPointer, UtxoId, Witness};

fn b32(byte: u8) -> Bytes32 {
    Bytes32::new([byte; 32])
}

fn word(x: u64) -> Vec<u8> {
    x.to_le_bytes().to_vec()
}

fn all_inputs() -> Vec<Input> {
    vec![
        Input::coin_signed(UtxoId::new(b32(1), 2), b32(3), 4, b32(5), TxPointer::new(6, 7), 8, 9),
        Input::coin_predicate(
            UtxoId::new(b32(10), 11),
            b32(12),
            13,
            b32(14),
            TxPointer::new(15, 16),
            17,
            18,
            vec![1, 2, 3],
            vec![4, 5, 6, 7, 8, 9, 10, 11, 12],
        ),
        Input::contract(UtxoId::new(b32(20), 21), b32(22), b32(23), TxPointer::new(24, 25), b32(26)),
        Input::message_coin_signed(b32(30), b32(31), 32, b32(33), 34),
        Input::message_coin_predicate(b32(40), b32(41), 42, b32(43), 44, vec![45; 8], vec![]),
        Input::message_data_signed(b32(50), b32(51), 52, b32(53), 54, vec![55; 5]),
        Input::message_data_predicate(
            b32(60),
            b32(61),
            62,
            b32(63),
            64,
            vec![65; 17],
            vec![66; 1],
            vec![67; 2],
        ),
    ]
}

fn all_outputs() -> Vec<Output> {
    vec![
        Output::coin(b32(1), 2, b32(3)),
        Output::contract(2, b32(5), b32(6)),
        Output::change(b32(7), 8, b32(9)),
        Output::variable(b32(10), 11, b32(12)),
        Output::contract_created(b32(13), b32(14)),
    ]
}

fn full_script() -> Script {
    let mut script = Transaction::script(
        1,
        2,
        3,
        vec![0xaa; 5],
        vec![0xbb; 16],
        all_inputs(),
        all_outputs(),
        vec![Witness::from(vec![1, 2, 3]), Witness::from(vec![]), Witness::from(vec![9; 64])],
    );
    script.receipts_root = b32(0x77);
    script
}

fn full_create() -> Create {
    Transaction::create(
        1,
        2,
        3,
        0,
        b32(4),
        vec![StorageSlot::new(b32(2), b32(9)), StorageSlot::new(b32(1), b32(8))],
        all_inputs(),
        all_outputs(),
        vec![Witness::from(vec![7; 64])],
    )
}

fn full_mint() -> Mint {
    Transaction::mint(
        TxPointer::new(1, 2),
        input::Contract {
            utxo_id: UtxoId::new(b32(3), 4),
            balance_root: b32(5),
            state_root: b32(6),
            tx_pointer: TxPointer::new(7, 8),
            contract_id: b32(9),
        },
        output::Contract { input_index: 0, balance_root: b32(10), state_root: b32(11) },
        12,
        b32(13),
    )
}

#[test]
fn metered_data_excludes_witnesses() {
    // test script
    let script_with_no_witnesses = Transaction::script(
        Default::default(),
        Default::default(),
        Default::default(),
        vec![],
        vec![],
        vec![],
        vec![],
        vec![],
    );
    let script_with_witnesses = Transaction::script(
        Default::default(),
        Default::default(),
        Default::default(),
        vec![],
        vec![],
        vec![],
        vec![],
        vec![[0u8; 64].to_vec().into()],
    );

    assert_eq!(
        script_with_witnesses.metered_bytes_size(),
        script_with_no_witnesses.metered_bytes_size()
    );
    // test create
    let create_with_no_witnesses = Transaction::create(
        Default::default(),
        Default::default(),
        Default::default(),
        0,
        Default::default(),
        vec![],
        vec![],
        vec![],
        vec![],
    );
    let create_with_witnesses = Transaction::create(
        Default::default(),
        Default::default(),
        Default::default(),
        0,
        Default::default(),
        vec![],
        vec![],
        vec![],
        vec![[0u8; 64].to_vec().into()],
    );
    assert_eq!(
        create_with_witnesses.metered_bytes_size(),
        create_with_no_witnesses.metered_bytes_size()
    );
}

#[test]
fn metered_size_is_the_size_without_the_witnesses() {
    let script = full_script();
    let tx = Transaction::from(script.clone());
    let witnesses: usize = script.witnesses.iter().map(|w| w.size()).sum();
    assert_eq!(witnesses, 16 + 8 + 72);
    assert_eq!(tx.metered_bytes_size(), tx.size() - witnesses);
    assert_eq!(script.metered_bytes_size(), tx.metered_bytes_size());

    let mint = Transaction::from(full_mint());
    assert_eq!(mint.metered_bytes_size(), 288);
}

#[test]
fn script_round_trip() {
    let tx = Transaction::from(full_script());
    let bytes = tx.to_bytes();
    assert_eq!(Transaction::from_bytes(&bytes), Ok(tx));
}

#[test]
fn create_round_trip() {
    let create = Transaction::create(
        0,
        0,
        0,
        0,
        Default::default(),
        vec![StorageSlot::new(b32(2), b32(0)), StorageSlot::new(b32(1), b32(0))],
        vec![],
        vec![],
        vec![Witness::from(vec![0; 64])],
    );
    let slots = create.storage_slots();
    assert_eq!(slots.len(), 2);
    assert!(slots[0].key < slots[1].key);
    assert_eq!(slots[0].key, b32(1));
    assert_eq!(create.bytecode_length(), 16);

    let tx = Transaction::from(create);
    let bytes = tx.to_bytes();
    assert_eq!(Transaction::from_bytes(&bytes), Ok(tx));

    let tx = Transaction::from(full_create());
    assert_eq!(Transaction::from_bytes(&tx.to_bytes()), Ok(tx));
}

#[test]
fn mint_round_trip() {
    let tx = Transaction::from(full_mint());
    let bytes = tx.to_bytes();
    assert_eq!(bytes.len(), 288);
    assert_eq!(Transaction::from_bytes(&bytes), Ok(tx));
}

#[test]
fn every_input_and_output_round_trips() {
    for input in all_inputs() {
        let mut bytes = Vec::new();
        input.encode(&mut bytes);
        assert_eq!(bytes.len(), input.size());
        assert_eq!(bytes.len(), input.size_static() + input.size_dynamic());
        let mut reader = Reader::new(&bytes);
        assert_eq!(Input::decode(&mut reader), Ok(input));
        assert_eq!(reader.remaining_len(), 0);
    }
    for output in all_outputs() {
        let mut bytes = Vec::new();
        output.encode(&mut bytes);
        assert_eq!(bytes.len(), output.size());
        let mut reader = Reader::new(&bytes);
        assert_eq!(Output::decode(&mut reader), Ok(output));
        assert_eq!(reader.remaining_len(), 0);
    }
}

#[test]
fn sizes_of_inputs_and_outputs() {
    let sizes: Vec<(usize, usize)> =
        all_inputs().iter().map(|i| (i.size_static(), i.size_dynamic())).collect();
    assert_eq!(
        sizes,
        vec![(152, 0), (168, 8 + 16), (160, 0), (120, 0), (136, 8), (128, 8), (144, 24 + 8 + 8)]
    );
    let sizes: Vec<usize> = all_outputs().iter().map(|o| o.size()).collect();
    assert_eq!(sizes, vec![80, 80, 80, 80, 72]);
}

#[test]
fn size_is_static_plus_dynamic() {
    for tx in [
        Transaction::from(full_script()),
        Transaction::from(full_create()),
        Transaction::from(full_mint()),
        Transaction::default(),
    ] {
        let bytes = tx.to_bytes();
        assert_eq!(bytes.len(), tx.size_static() + tx.size_dynamic());
        assert_eq!(bytes.len(), tx.size());
        let mut parts = Vec::new();
        tx.encode_static(&mut parts);
        assert_eq!(parts.len(), tx.size_static());
        tx.encode_dynamic(&mut parts);
        assert_eq!(parts, bytes);
    }
}

#[test]
fn script_is_encoded_byte_for_byte() {
    let tx = Transaction::from(Transaction::script(
        1,
        0x0203,
        0x04050607,
        vec![0xaa],
        vec![],
        vec![],
        vec![],
        vec![Witness::from(vec![1, 2, 3])],
    ));
    let mut expected = Vec::new();
    expected.extend(word(0));
    expected.extend([1, 0, 0, 0, 0, 0, 0, 0]);
    expected.extend([3, 2, 0, 0, 0, 0, 0, 0]);
    expected.extend([7, 6, 5, 4, 0, 0, 0, 0]);
    expected.extend([0u8; 32]);
    expected.extend(word(1));
    expected.extend(word(0));
    expected.extend(word(0));
    expected.extend(word(0));
    expected.extend(word(1));
    expected.extend([0xaa, 0, 0, 0, 0, 0, 0, 0]);
    expected.extend(word(3));
    expected.extend([1, 2, 3, 0, 0, 0, 0, 0]);
    assert_eq!(tx.to_bytes(), expected);
    assert_eq!(tx.size_static(), 104);
}

#[test]
fn create_and_mint_start_with_their_tags() {
    let create = Transaction::from(full_create()).to_bytes();
    assert_eq!(create[..8], [1, 0, 0, 0, 0, 0, 0, 0]);
    // The salt follows the index of the bytecode's witness.
    assert_eq!(create[48..80], [4u8; 32]);
    // Four counts: two slots, seven inputs, five outputs, one witness.
    assert_eq!(create[80..112], [word(2), word(7), word(5), word(1)].concat()[..]);
    // The slots follow, the lower key first.
    assert_eq!(create[112..144], [1u8; 32]);

    let mint = Transaction::from(full_mint()).to_bytes();
    assert_eq!(mint[..8], [2, 0, 0, 0, 0, 0, 0, 0]);
    assert_eq!(mint[8..24], [word(1), word(2)].concat()[..]);
    assert_eq!(mint[248..256], word(12)[..]);
    assert_eq!(mint[256..], [13u8; 32]);
}

#[test]
fn decoding_stops_at_the_end_of_the_transaction() {
    let tx = Transaction::from(full_script());
    let mut bytes = tx.to_bytes();
    let len = bytes.len();
    bytes.extend([1, 2, 3]);
    assert_eq!(Transaction::from_bytes(&bytes), Ok(tx.clone()));
    let mut reader = Reader::new(&bytes);
    assert_eq!(Transaction::decode(&mut reader), Ok(tx));
    assert_eq!(reader.remaining_len(), bytes.len() - len);
}

#[test]
fn decoding_in_two_steps() {
    let tx = Transaction::from(full_create());
    let bytes = tx.to_bytes();
    let mut reader = Reader::new(&bytes);
    let header = Transaction::decode_static(&mut reader).unwrap();
    assert_eq!(reader.remaining_len(), bytes.len() - tx.size_static());
    assert_eq!(Transaction::decode_dynamic(&header, &mut reader), Ok(tx));
}

#[test]
fn truncated_images_are_refused() {
    assert_eq!(Transaction::from_bytes(&[]), Err(DecodeError::Truncated));
    assert_eq!(Transaction::from_bytes(&[0; 7]), Err(DecodeError::Truncated));
    for tx in [
        Transaction::from(full_script()),
        Transaction::from(full_create()),
        Transaction::from(full_mint()),
    ] {
        let bytes = tx.to_bytes();
        for cut in [8, 50, tx.size_static() - 1, bytes.len() - 1] {
            assert_eq!(Transaction::from_bytes(&bytes[..cut]), Err(DecodeError::Truncated));
        }
    }
}

#[test]
fn unknown_tags_are_refused() {
    assert_eq!(Transaction::from_bytes(&word(3)), Err(DecodeError::InvalidDiscriminant));
    assert_eq!(Transaction::from_bytes(&word(u64::MAX)), Err(DecodeError::InvalidDiscriminant));
    let mut reader_bytes = word(7);
    reader_bytes.extend([0; 200]);
    assert_eq!(
        Input::decode(&mut Reader::new(&reader_bytes)),
        Err(DecodeError::InvalidDiscriminant)
    );
    reader_bytes[0] = 5;
    assert_eq!(
        Output::decode(&mut Reader::new(&reader_bytes)),
        Err(DecodeError::InvalidDiscriminant)
    );
    // A script that is announced as a creation of a contract.
    let mut reader = Reader::new(&reader_bytes);
    assert_eq!(Script::decode(&mut reader), Err(DecodeError::InvalidDiscriminant));
}

#[test]
fn fields_out_of_range_are_refused() {
    let script = Transaction::from(full_script());
    let bytes = script.to_bytes();

    // The maturity takes four bytes of its word.
    let mut bad = bytes.clone();
    bad[24 + 4] = 1;
    assert_eq!(Transaction::from_bytes(&bad), Err(DecodeError::InvalidField(Field::Maturity)));

    // The padding of the script is zero.
    let mut bad = bytes.clone();
    bad[104 + 7] = 1;
    assert_eq!(Transaction::from_bytes(&bad), Err(DecodeError::InvalidField(Field::Script)));

    // The first input is a signed coin: tag, transaction, then the index of
    // the output in one byte of its word.
    let first_input = 104 + 8 + 16;
    let mut bad = bytes.clone();
    bad[first_input + 8 + 32 + 1] = 1;
    assert_eq!(Transaction::from_bytes(&bad), Err(DecodeError::InvalidField(Field::OutputIndex)));
    let mut bad = bytes.clone();
    bad[first_input + 8 + 128 + 1] = 1;
    assert_eq!(Transaction::from_bytes(&bad), Err(DecodeError::InvalidField(Field::WitnessIndex)));
    let mut bad = bytes.clone();
    bad[first_input + 8 + 40 + 32 + 8 + 32 + 4] = 1;
    assert_eq!(Transaction::from_bytes(&bad), Err(DecodeError::InvalidField(Field::BlockHeight)));
    let mut bad = bytes.clone();
    bad[first_input + 8 + 40 + 32 + 8 + 32 + 8 + 2] = 1;
    assert_eq!(Transaction::from_bytes(&bad), Err(DecodeError::InvalidField(Field::TxIndex)));

    let create = Transaction::from(full_create());
    let bytes = create.to_bytes();
    let mut bad = bytes.clone();
    bad[40 + 1] = 1;
    assert_eq!(
        Transaction::from_bytes(&bad),
        Err(DecodeError::InvalidField(Field::BytecodeWitnessIndex))
    );
    // Storage slots out of order.
    let mut bad = bytes.clone();
    bad[112..144].copy_from_slice(&[3u8; 32]);
    assert_eq!(Transaction::from_bytes(&bad), Err(DecodeError::InvalidField(Field::StorageSlots)));
}

#[test]
fn padding_of_byte_strings_is_checked() {
    let witness = Witness::from(vec![1, 2, 3]);
    let mut bytes = Vec::new();
    witness.encode(&mut bytes);
    assert_eq!(bytes, [3, 0, 0, 0, 0, 0, 0, 0, 1, 2, 3, 0, 0, 0, 0, 0]);
    assert_eq!(Witness::decode(&mut Reader::new(&bytes)), Ok(witness));
    bytes[15] = 1;
    assert_eq!(
        Witness::decode(&mut Reader::new(&bytes)),
        Err(DecodeError::InvalidField(Field::Witness))
    );
    assert_eq!(Witness::decode(&mut Reader::new(&bytes[..15])), Err(DecodeError::Truncated));

    let input = Input::message_data_signed(b32(1), b32(2), 3, b32(4), 5, vec![6; 3]);
    let mut bytes = Vec::new();
    input.encode(&mut bytes);
    let last = bytes.len() - 1;
    bytes[last] = 1;
    assert_eq!(
        Input::decode(&mut Reader::new(&bytes)),
        Err(DecodeError::InvalidField(Field::Data))
    );

    let input = Input::coin_predicate(
        UtxoId::default(),
        b32(1),
        1,
        b32(2),
        TxPointer::default(),
        0,
        0,
        vec![1],
        vec![2],
    );
    let mut bytes = Vec::new();
    input.encode(&mut bytes);
    let last = bytes.len() - 1;
    let mut bad = bytes.clone();
    bad[last] = 1;
    assert_eq!(
        Input::decode(&mut Reader::new(&bad)),
        Err(DecodeError::InvalidField(Field::PredicateData))
    );
    bytes[last - 8] = 1;
    assert_eq!(
        Input::decode(&mut Reader::new(&bytes)),
        Err(DecodeError::InvalidField(Field::Predicate))
    );

    let tx = Transaction::from(Transaction::script(
        0,
        0,
        0,
        vec![],
        vec![1],
        vec![],
        vec![],
        vec![],
    ));
    let mut bytes = tx.to_bytes();
    bytes[104 + 1] = 1;
    assert_eq!(Transaction::from_bytes(&bytes), Err(DecodeError::InvalidField(Field::ScriptData)));

    let output = Output::contract(1, b32(2), b32(3));
    let mut bytes = Vec::new();
    output.encode(&mut bytes);
    bytes[8 + 1] = 1;
    assert_eq!(
        Output::decode(&mut Reader::new(&bytes)),
        Err(DecodeError::InvalidField(Field::InputIndex))
    );
}

#[test]
fn reader_reads_words_lowest_byte_first() {
    let bytes = [1, 2, 0, 0, 0, 0, 0, 0, 0xff, 0xff, 0xff, 0xff, 0xff, 0xff, 0xff, 0xff, 9];
    let mut reader = Reader::new(&bytes);
    assert_eq!(reader.peek_word(), Ok(0x0201));
    assert_eq!(reader.read_word(), Ok(0x0201));
    assert_eq!(reader.read_word(), Ok(u64::MAX));
    assert_eq!(reader.remaining_len(), 1);
    assert_eq!(reader.read_word(), Err(DecodeError::Truncated));

    let mut reader = Reader::new(&bytes);
    assert_eq!(reader.read_u16(Field::TxIndex), Ok(0x0201));
    assert_eq!(reader.read_u32(Field::Maturity), Err(DecodeError::InvalidField(Field::Maturity)));
    let mut reader = Reader::new(&bytes);
    assert_eq!(reader.read_u8(Field::InputIndex), Err(DecodeError::InvalidField(Field::InputIndex)));
    let mut reader = Reader::new(&bytes);
    assert_eq!(reader.read_bytes(2, Field::Data).as_deref(), Ok(&[1u8, 2][..]));
    assert_eq!(reader.remaining_len(), 9);
    assert_eq!(reader.read_array32(), Err(DecodeError::Truncated));
}

#[test]
fn storage_slots_are_sorted_on_every_path() {
    let mut create = Transaction::create(
        0,
        0,
        0,
        0,
        Default::default(),
        vec![
            StorageSlot::new(b32(9), b32(1)),
            StorageSlot::new(b32(3), b32(2)),
            StorageSlot::new(b32(3), b32(1)),
            StorageSlot::new(b32(0), b32(7)),
        ],
        vec![],
        vec![],
        vec![],
    );
    let keys: Vec<(u8, u8)> =
        create.storage_slots().iter().map(|s| (s.key.0[0], s.value.0[0])).collect();
    assert_eq!(keys, vec![(0, 7), (3, 1), (3, 2), (9, 1)]);
    assert_eq!(create.bytecode_length(), 0);

    let mut slots = create.storage_slots_mut();
    assert!(create.storage_slots().is_empty());
    slots.storage_slots.push(StorageSlot::new(b32(2), b32(2)));
    slots.storage_slots[0] = StorageSlot::new(b32(200), b32(0));
    create.restore_storage_slots(slots);
    let keys: Vec<u8> = create.storage_slots().iter().map(|s| s.key.0[0]).collect();
    assert_eq!(keys, vec![2, 3, 3, 9, 200]);

    let mut first = [0u8; 32];
    first[31] = 1;
    let mut second = [0u8; 32];
    second[0] = 1;
    let create = Transaction::create(
        0,
        0,
        0,
        0,
        Default::default(),
        vec![
            StorageSlot::new(Bytes32::new(second), b32(0)),
            StorageSlot::new(Bytes32::new(first), b32(0)),
        ],
        vec![],
        vec![],
        vec![],
    );
    assert_eq!(create.storage_slots()[0].key, Bytes32::new(first));
    assert!(create.storage_slots()[0].precedes(&create.storage_slots()[1]));
    assert!(!create.storage_slots()[1].precedes(&create.storage_slots()[0]));
}

#[test]
fn kinds_of_transactions() {
    let mut script = Transaction::default();
    assert!(script.is_script() && !script.is_create() && !script.is_mint());
    assert!(script.as_script().is_some() && script.as_create().is_none());
    assert!(script.as_mint().is_none());
    assert_eq!(script.as_script().unwrap().receipts_root, Bytes32::zeroed());
    script.as_script_mut().unwrap().gas_price = 7;
    assert_eq!(script.as_script().unwrap().gas_price, 7);
    assert!(script.as_create_mut().is_none() && script.as_mint_mut().is_none());

    let mut create = Transaction::from(full_create());
    assert!(create.is_create());
    assert_eq!(create.as_create().unwrap().gas_limit(), 2);
    assert_eq!(create.as_create().unwrap().maturity(), 3);
    assert_eq!(create.as_create().unwrap().gas_price(), 1);
    assert_eq!(*create.as_create().unwrap().salt(), b32(4));
    assert_eq!(create.as_create().unwrap().bytecode_witness_index(), 0);
    assert!(create.as_create_mut().is_some());

    let mut mint = Transaction::from(full_mint());
    assert!(mint.is_mint());
    mint.as_mint_mut().unwrap().mint_amount = 99;
    assert_eq!(mint.as_mint().unwrap().mint_amount, 99);
}

#[test]
fn identifiers_are_ordered_by_their_bytes() {
    let mut low = [0u8; 32];
    low[31] = 0xff;
    let mut high = [0u8; 32];
    high[30] = 1;
    let (low, high) = (Bytes32::new(low), Bytes32::new(high));
    assert!(low.precedes(&high));
    assert!(!high.precedes(&low));
    assert!(!low.precedes(&low));
    assert!(low.same(&low) && !low.same(&high));
    assert_eq!(Bytes32::default(), Bytes32::zeroed());
    assert!(UtxoId::new(low, 1).same(&UtxoId::new(low, 1)));
    assert!(!UtxoId::new(low, 1).same(&UtxoId::new(low, 2)));
    assert_eq!(UtxoId::default(), UtxoId::new(Bytes32::zeroed(), 0));
    assert_eq!(TxPointer::default(), TxPointer::new(0, 0));
    assert_eq!(StorageSlot::default(), StorageSlot::new(Bytes32::zeroed(), Bytes32::zeroed()));
}

#[test]
fn witnesses_hold_their_bytes() {
    let witness = Witness::new(vec![1, 2, 3]);
    assert_eq!(witness.len(), 3);
    assert_eq!(witness.as_slice(), &[1, 2, 3]);
    assert_eq!(witness.as_vec(), &vec![1, 2, 3]);
    assert_eq!(witness.size(), 16);
    assert_eq!(witness.clone().into_inner(), vec![1, 2, 3]);
    assert_eq!(Witness::default().size(), 8);
}

#[test]
fn fields_of_a_creation_can_be_changed() {
    let mut create = full_create();
    create.set_gas_price(10);
    create.set_gas_limit(11);
    create.set_maturity(12);
    create.set_bytecode_length(13);
    create.set_bytecode_witness_index(14);
    create.set_salt(b32(15));
    create.set_inputs(vec![]);
    create.set_outputs(vec![Output::coin(b32(1), 2, b32(3))]);
    create.set_witnesses(vec![]);
    assert_eq!(
        (create.gas_price(), create.gas_limit(), create.maturity(), create.bytecode_length()),
        (10, 11, 12, 13)
    );
    assert_eq!(create.bytecode_witness_index(), 14);
    assert_eq!(*create.salt(), b32(15));
    let keys: Vec<u8> = create.storage_slots().iter().map(|s| s.key.0[0]).collect();
    assert_eq!(keys, vec![1, 2]);
    let tx = Transaction::from(create.clone());
    assert_eq!(Transaction::from_bytes(&tx.to_bytes()), Ok(tx));
    assert_eq!(create.clone(), create);
}
