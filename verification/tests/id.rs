use fuel_vm_core::executable::Executable;
use fuel_vm_core::crypto::{pack_signature, unpack_signature, PublicKey, SecretKey, Signature};
use fuel_vm_core::id::{normalized_witnesses, refers, signed_witnesses, unlocks, zero_witness};
use fuel_vm_core::input::Input;
use fuel_vm_core::mint::Mint;
use fuel_vm_core::output::Output;
use fuel_vm_core::script::Script;
use fuel_vm_core::transaction::Transaction;
use fuel_vm_core::types::{Bytes32, StorageSlot, TxPointer, UtxoId, Witness};
use fuel_vm_core::validity::CheckError;

fn b32(byte: u8) -> Bytes32 {
    Bytes32::new([byte; 32])
}

fn hex(hex: &str) -> Vec<u8> {
    (0..hex.len() / 2).map(|i| u8::from_str_radix(&hex[2 * i..2 * i + 2], 16).unwrap()).collect()
}

fn coin(owner: Bytes32, witness_index: u8) -> Input {
    Input::coin_signed(UtxoId::new(b32(1), 0), owner, 10, b32(2), TxPointer::new(1, 2), witness_index, 0)
}

fn script(inputs: Vec<Input>, witnesses: Vec<Witness>) -> Script {
    Transaction::script(1, 2, 3, vec![1, 2, 3], vec![4], inputs, vec![Output::coin(b32(1), 1, b32(2))], witnesses)
}

#[test]
fn public_key_of_the_secret_one() {
    let mut secret = [0u8; 32];
    secret[31] = 1;
    let key = SecretKey(secret).public_key().unwrap();
    let mut expected =
        hex("79be667ef9dcbbac55a06295ce870b07029bfcdb2dce28d959f2815b16f81798");
    expected.extend(hex("483ada7726a3c4655da4fbfc0e1108a8fd17b448a68554199c47d08ffb10d4b8"));
    assert_eq!(key.0.to_vec(), expected);
    assert_eq!(SecretKey([0; 32]).public_key(), None);
    assert_eq!(SecretKey([0xff; 32]).public_key(), None);
}

#[test]
fn signatures_recover_their_signer() {
    let secret = SecretKey([7; 32]);
    let address = secret.public_key().unwrap().address();
    let digest = b32(0x42);
    let signature = Signature::sign(&secret, &digest).unwrap();
    assert_eq!(Signature::sign(&secret, &digest), Some(signature));
    assert_ne!(signature.0, [0u8; 64]);
    assert_eq!(signature.signer(&digest), Some(address));
    assert_ne!(signature.signer(&b32(0x43)), Some(address));
    assert_ne!(Signature::sign(&secret, &b32(0x43)), Some(signature));
    assert_ne!(Signature::sign(&SecretKey([8; 32]), &digest), Some(signature));
    assert_eq!(Signature::sign(&SecretKey([0; 32]), &digest), None);
    assert_eq!(Signature([0; 64]).signer(&digest), None);
    assert_eq!(PublicKey([1; 64]).address(), PublicKey([1; 64]).address());
}

#[test]
fn recovery_byte_rides_in_the_highest_bit_of_s() {
    let mut bytes = [1u8; 64];
    bytes[32] = 0x7f;
    let packed = pack_signature(bytes, 1).unwrap();
    assert_eq!(packed.0[32], 0xff);
    assert_eq!(packed.0[..32], bytes[..32]);
    assert_eq!(packed.0[33..], bytes[33..]);
    assert_eq!(unpack_signature(&packed), (bytes, 1));
    let packed = pack_signature(bytes, 0).unwrap();
    assert_eq!(packed.0, bytes);
    assert_eq!(unpack_signature(&packed), (bytes, 0));
    assert_eq!(pack_signature(bytes, 2), None);
    bytes[32] = 0x80;
    assert_eq!(pack_signature(bytes, 0), None);
}

#[test]
fn identifier_ignores_signatures_and_receipts() {
    let inputs = vec![coin(b32(1), 1)];
    let tx = Transaction::from(script(
        inputs.clone(),
        vec![Witness::from(vec![1; 3]), Witness::from(vec![2; 64])],
    ));
    let id = tx.id(0);
    assert_eq!(tx.id(0), id);
    assert_ne!(tx.id(1), id);

    // Another signature of the same length.
    let other = Transaction::from(script(
        inputs.clone(),
        vec![Witness::from(vec![1; 3]), Witness::from(vec![3; 64])],
    ));
    assert_eq!(other.id(0), id);
    // Another length.
    let other = Transaction::from(script(
        inputs.clone(),
        vec![Witness::from(vec![1; 3]), Witness::from(vec![3; 63])],
    ));
    assert_ne!(other.id(0), id);
    // A witness that no input refers to.
    let other = Transaction::from(script(
        inputs.clone(),
        vec![Witness::from(vec![9; 3]), Witness::from(vec![2; 64])],
    ));
    assert_ne!(other.id(0), id);
    // The root of the receipts.
    let mut other = script(inputs.clone(), vec![Witness::from(vec![1; 3]), Witness::from(vec![2; 64])]);
    other.receipts_root = b32(9);
    assert_eq!(Transaction::from(other.clone()).id(0), id);
    other.gas_price = 9;
    assert_ne!(Transaction::from(other).id(0), id);
}

#[test]
fn identifier_is_the_digest_of_the_normalized_image() {
    // A mint is hashed as it is: the digest of the chain's identifier and
    // the image.
    let mint = Transaction::from(Mint {
        tx_pointer: TxPointer::new(1, 2),
        input_contract: fuel_vm_core::input::Contract {
            utxo_id: UtxoId::new(b32(3), 4),
            balance_root: b32(5),
            state_root: b32(6),
            tx_pointer: TxPointer::new(7, 8),
            contract_id: b32(9),
        },
        output_contract: fuel_vm_core::output::Contract {
            input_index: 0,
            balance_root: b32(10),
            state_root: b32(11),
        },
        mint_amount: 12,
        mint_asset_id: b32(13),
    });
    let mut image = 5u64.to_le_bytes().to_vec();
    image.extend(mint.to_bytes());
    assert_eq!(mint.id(5), Input::predicate_owner(&image));

    let tx = Transaction::from(script(
        vec![coin(b32(1), 0)],
        vec![Witness::from(vec![7; 2])],
    ));
    let normalized = Transaction::from(script(
        vec![coin(b32(1), 0)],
        vec![Witness::from(vec![0; 2])],
    ));
    let mut image = 5u64.to_le_bytes().to_vec();
    image.extend(normalized.to_bytes());
    assert_eq!(tx.id(5), Input::predicate_owner(&image));
}

#[test]
fn witnesses_are_normalized_where_inputs_refer_to_them() {
    let inputs = vec![
        coin(b32(1), 2),
        Input::message_coin_signed(b32(1), b32(5), 1, b32(2), 0),
        Input::message_data_signed(b32(1), b32(5), 1, b32(3), 7, vec![1]),
        Input::coin_predicate(UtxoId::default(), b32(1), 1, b32(1), TxPointer::default(), 0, 0, vec![1], vec![]),
    ];
    let witnesses = vec![
        Witness::from(vec![1; 2]),
        Witness::from(vec![2; 3]),
        Witness::from(vec![3; 4]),
        Witness::from(vec![4; 5]),
    ];
    assert!(refers(&inputs, 0) && !refers(&inputs, 1) && refers(&inputs, 2) && refers(&inputs, 7));
    assert!(!refers(&inputs, 3) && !refers(&inputs, 256));
    assert!(unlocks(&inputs, &b32(1), 2) && !unlocks(&inputs, &b32(1), 0));
    assert!(unlocks(&inputs, &b32(5), 0) && unlocks(&inputs, &b32(5), 7));
    assert_eq!(
        normalized_witnesses(&inputs, &witnesses),
        vec![
            Witness::from(vec![0; 2]),
            Witness::from(vec![2; 3]),
            Witness::from(vec![0; 4]),
            Witness::from(vec![4; 5]),
        ]
    );
    let signature = Signature([9; 64]);
    assert_eq!(
        signed_witnesses(&inputs, &witnesses, &b32(5), &signature),
        vec![
            Witness::from(vec![9; 64]),
            Witness::from(vec![2; 3]),
            Witness::from(vec![3; 4]),
            Witness::from(vec![4; 5]),
        ]
    );
    assert_eq!(zero_witness(3), Witness::from(vec![0; 3]));
}

#[test]
fn signing_fills_the_witnesses_and_keeps_the_identifier() {
    let secret = SecretKey([3; 32]);
    let owner = secret.public_key().unwrap().address();
    let other = SecretKey([4; 32]).public_key().unwrap().address();
    let inputs = vec![
        coin(owner, 0),
        coin(other, 1),
        Input::message_coin_signed(b32(1), owner, 1, b32(2), 2),
        Input::message_data_signed(b32(1), owner, 1, b32(3), 9, vec![1]),
    ];
    let witnesses =
        vec![Witness::from(vec![0; 64]), Witness::from(vec![0; 64]), Witness::from(vec![1; 64])];
    let mut tx = Transaction::from(script(inputs.clone(), witnesses.clone()));
    let id = tx.id(11);
    assert_eq!(tx.check_signatures(11), Err(CheckError::InputInvalidSignature { index: 0 }));

    assert!(tx.sign_inputs(&secret, 11));
    let signature = Signature::sign(&secret, &id).unwrap();
    let signed = tx.as_script().unwrap();
    assert_eq!(signed.witnesses[0].as_slice(), &signature.0);
    assert_eq!(signed.witnesses[1], witnesses[1]);
    assert_eq!(signed.witnesses[2].as_slice(), &signature.0);
    assert_eq!(signed.witnesses.len(), 3);
    assert_eq!(signed.inputs, inputs);
    assert_eq!(tx.id(11), id);
    assert_eq!(tx.check_signatures(11), Err(CheckError::InputInvalidSignature { index: 1 }));

    assert!(tx.sign_inputs(&SecretKey([4; 32]), 11));
    assert_eq!(tx.id(11), id);
    assert_eq!(tx.check_signatures(11), Err(CheckError::InputWitnessIndexBounds { index: 3 }));
    assert_eq!(tx.check_signatures(12), Err(CheckError::InputInvalidSignature { index: 0 }));

    tx.as_script_mut().unwrap().inputs.pop();
    let id = tx.id(11);
    assert!(tx.sign_inputs(&secret, 11));
    assert!(tx.sign_inputs(&SecretKey([4; 32]), 11));
    assert_eq!(tx.id(11), id);
    assert_eq!(tx.check_signatures(11), Ok(()));

    let before = tx.clone();
    assert!(!tx.sign_inputs(&SecretKey([0; 32]), 11));
    assert_eq!(tx, before);
}

#[test]
fn signing_a_witness_of_another_length_changes_the_identifier() {
    let secret = SecretKey([3; 32]);
    let owner = secret.public_key().unwrap().address();
    let mut tx = Transaction::from(script(vec![coin(owner, 0)], vec![Witness::from(vec![])]));
    let id = tx.id(0);
    assert!(tx.sign_inputs(&secret, 0));
    assert_ne!(tx.id(0), id);
    assert_eq!(tx.as_script().unwrap().witnesses[0].len(), 64);
}

#[test]
fn creations_and_mints_are_signed_like_scripts() {
    let secret = SecretKey([5; 32]);
    let owner = secret.public_key().unwrap().address();
    let create = Transaction::create(
        1,
        2,
        3,
        1,
        b32(4),
        vec![StorageSlot::new(b32(1), b32(2))],
        vec![coin(owner, 0)],
        vec![],
        vec![Witness::from(vec![0; 64]), Witness::from(vec![6; 8])],
    );
    let mut tx = Transaction::from(create);
    let id = tx.id(1);
    assert!(tx.sign_inputs(&secret, 1));
    assert_eq!(tx.id(1), id);
    assert_eq!(tx.check_signatures(1), Ok(()));
    let create = tx.as_create().unwrap();
    assert_eq!(create.bytecode_length(), 2);
    assert_eq!(create.storage_slots().len(), 1);
    assert_eq!(create.witnesses()[1], Witness::from(vec![6; 8]));
    assert_eq!(
        create.witnesses()[0].as_slice(),
        &Signature::sign(&secret, &id).unwrap().0
    );

    let mut tx = Transaction::from(Transaction::mint(
        TxPointer::default(),
        fuel_vm_core::input::Contract {
            utxo_id: UtxoId::default(),
            balance_root: b32(0),
            state_root: b32(0),
            tx_pointer: TxPointer::default(),
            contract_id: b32(0),
        },
        fuel_vm_core::output::Contract { input_index: 0, balance_root: b32(0), state_root: b32(0) },
        0,
        b32(0),
    ));
    let before = tx.clone();
    assert!(tx.sign_inputs(&secret, 1));
    assert_eq!(tx, before);
    assert_eq!(tx.check_signatures(1), Ok(()));
    tx.fill_witnesses(&owner, &Signature([1; 64]));
    assert_eq!(tx, before);
}

#[test]
fn trial_transaction_is_signed_and_sound() {
    let secret = SecretKey([6; 32]);
    let owner = secret.public_key().unwrap().address();
    let tx = Transaction::default_test_tx(&secret, UtxoId::new(b32(1), 2), 55, b32(0), 3).unwrap();
    let script = tx.as_script().unwrap();
    assert_eq!(
        script.inputs,
        vec![Input::coin_signed(UtxoId::new(b32(1), 2), owner, 55, b32(0), TxPointer::new(0, 0), 0, 0)]
    );
    assert_eq!(script.witnesses.len(), 1);
    assert_eq!(
        script.witnesses[0].as_slice(),
        &Signature::sign(&secret, &tx.id(3)).unwrap().0
    );
    assert!(script.outputs.is_empty() && script.script.is_empty());
    assert_eq!(tx.check_signatures(3), Ok(()));
    assert_eq!(tx.check(0, &fuel_vm_core::validity::ConsensusParameters::standard()), Ok(()));
    assert_eq!(Transaction::default_test_tx(&SecretKey([0; 32]), UtxoId::default(), 1, b32(0), 3), None);
}
