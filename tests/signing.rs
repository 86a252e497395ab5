
use bitcoin_serai::signing::{
    attach_signatures, binding_messages, keys_spend_inputs, sighashes, signing_input_stamp, BindingLabel,
    TRANSCRIPT_DOMAIN,
};
use bitcoin_serai::transaction::p2tr_script;
use bitcoin_serai::{Application, OutPoint, Output, ReceivedOutput, SignableTransaction, Tx};

fn p2tr(x: u8) -> Vec<u8> {
    let mut key = [x; 33];
    key[0] = 2;
    p2tr_script(&key).unwrap()
}

fn received(txid: u8, vout: u32, value: u64) -> ReceivedOutput {
    ReceivedOutput {
        outpoint: OutPoint { txid: [txid; 32], vout },
        output: Output { value, script_pubkey: p2tr(txid) },
        offset: [txid; 32],
    }
}

fn two_inputs() -> SignableTransaction {
    let payments = vec![(p2tr(2), 50_000)];
    SignableTransaction::new(vec![received(1, 258, 60_000), received(3, 0, 40_000)], &payments, Some(p2tr(1)), None, 2)
        .unwrap()
}

fn to_bitcoin(tx: &Tx) -> bitcoin::Transaction {
    bitcoin::Transaction {
        version: tx.version,
        lock_time: bitcoin::PackedLockTime(tx.lock_time),
        input: tx
            .input
            .iter()
            .map(|i| bitcoin::TxIn {
                previous_output: bitcoin::OutPoint::new(
                    <bitcoin::Txid as bitcoin::hashes::Hash>::from_inner(i.previous_output.txid),
                    i.previous_output.vout,
                ),
                script_sig: bitcoin::Script::from(i.script_sig.clone()),
                sequence: bitcoin::Sequence(i.sequence),
                witness: bitcoin::Witness::from_vec(i.witness.clone()),
            })
            .collect(),
        output: tx
            .output
            .iter()
            .map(|o| bitcoin::TxOut { value: o.value, script_pubkey: bitcoin::Script::from(o.script_pubkey.clone()) })
            .collect(),
    }
}

#[test]
fn p2tr_script_of_even_key() {
    let mut key = [5u8; 33];
    key[0] = 2;
    let script = p2tr_script(&key).unwrap();
    assert_eq!(script.len(), 34);
    assert_eq!(&script[.. 2], &[0x51, 0x20]);
    assert_eq!(&script[2 ..], &[5u8; 32]);
    key[0] = 3;
    assert_eq!(p2tr_script(&key), None);
}

#[test]
fn transcript_binding_order() {
    let payments = vec![(p2tr(2), 50_000)];
    let s = SignableTransaction::new(vec![received(7, 258, 100_000)], &payments, None, None, 1).unwrap();
    let mut key = [9u8; 33];
    key[0] = 2;
    let messages = binding_messages(&key, s.tx());
    let seen: Vec<(BindingLabel, Vec<u8>)> = messages.into_iter().map(|m| (m.label, m.message)).collect();
    assert_eq!(
        seen,
        vec![
            (BindingLabel::RootKey, key.to_vec()),
            (BindingLabel::InputHash, vec![7; 32]),
            (BindingLabel::InputOutputIndex, vec![2, 1, 0, 0]),
            (BindingLabel::OutputScript, p2tr(2)),
            (BindingLabel::OutputAmount, vec![0x50, 0xc3, 0, 0, 0, 0, 0, 0]),
        ]
    );
    assert_eq!(TRANSCRIPT_DOMAIN, "bitcoin_transaction");
    assert_eq!(BindingLabel::RootKey.as_str(), "root_key");
    assert_eq!(BindingLabel::InputHash.as_str(), "input_hash");
    assert_eq!(BindingLabel::InputOutputIndex.as_str(), "input_output_index");
    assert_eq!(BindingLabel::OutputScript.as_str(), "output_script");
    assert_eq!(BindingLabel::OutputAmount.as_str(), "output_amount");
    assert_eq!(BindingLabel::SigningInput.as_str(), "signing_input");
}

#[test]
fn signing_input_stamp_is_little_endian() {
    let stamp = signing_input_stamp(0x0102_0304);
    assert_eq!(stamp.label, BindingLabel::SigningInput);
    assert_eq!(stamp.message, vec![4, 3, 2, 1]);
}

#[test]
fn keys_must_match_the_spent_scripts() {
    let s = two_inputs();
    let mut k1 = [1u8; 33];
    k1[0] = 2;
    let mut k3 = [3u8; 33];
    k3[0] = 2;
    assert!(keys_spend_inputs(&s, &vec![k1, k3]));
    assert!(!keys_spend_inputs(&s, &vec![k3, k1]));
    assert!(!keys_spend_inputs(&s, &vec![k1]));
    let mut odd = k3;
    odd[0] = 3;
    assert!(!keys_spend_inputs(&s, &vec![k1, odd]));
}

#[test]
fn sighashes_are_bip341_key_spend_default() {
    let s = two_inputs();
    let hashes = sighashes(&s);
    assert_eq!(hashes.len(), 2);
    let tx = to_bitcoin(s.tx());
    let prevouts: Vec<bitcoin::TxOut> = s
        .prevouts()
        .iter()
        .map(|o| bitcoin::TxOut { value: o.value, script_pubkey: bitcoin::Script::from(o.script_pubkey.clone()) })
        .collect();
    let mut cache = bitcoin::util::sighash::SighashCache::new(&tx);
    for (i, hash) in hashes.iter().enumerate() {
        let expected = cache
            .taproot_key_spend_signature_hash(
                i,
                &bitcoin::util::sighash::Prevouts::All(&prevouts),
                bitcoin::SchnorrSighashType::Default,
            )
            .unwrap();
        assert_eq!(hash, &bitcoin::hashes::Hash::into_inner(expected));
    }
    assert_ne!(hashes[0], hashes[1]);
    // The same transaction and prevouts give the same sighashes.
    assert_eq!(sighashes(&two_inputs()), hashes);
}

#[test]
fn signatures_become_single_witness_elements() {
    let s = two_inputs();
    let mut tx = s.tx().clone();
    attach_signatures(&mut tx, &vec![[0xab; 64], [0xcd; 64]]);
    assert_eq!(tx.input[0].witness, vec![vec![0xab; 64]]);
    assert_eq!(tx.input[1].witness, vec![vec![0xcd; 64]]);
    assert_eq!(tx.input[0].previous_output, s.tx().input[0].previous_output);
    assert_eq!(tx.output, s.tx().output);
}

#[test]
fn signed_transaction_round_trips() {
    let s = two_inputs();
    let mut tx = s.tx().clone();
    attach_signatures(&mut tx, &vec![[0x11; 64], [0x22; 64]]);
    let btc = to_bitcoin(&tx);
    let bytes = bitcoin::consensus::serialize(&btc);
    let parsed: bitcoin::Transaction = bitcoin::consensus::deserialize(&bytes).unwrap();
    assert_eq!(parsed, btc);
    assert_eq!(bitcoin::consensus::serialize(&parsed), bytes);
    // The estimate with a 64-byte witness per input is the weight of the signed transaction.
    assert_eq!(btc.weight() as u64 * 2, s.needed_fee());
}

#[test]
fn application_variants() {
    assert_eq!(Application::DEX, Application::DEX);
}

#[test]
fn items_regrouped_by_input() {
    let rows = vec![(1u16, vec!["a0", "a1", "a2"]), (4u16, vec!["b0", "b1"])];
    let columns = bitcoin_serai::signing::per_input(&rows, 2);
    assert_eq!(columns, vec![vec![(1, "a0"), (4, "b0")], vec![(1, "a1"), (4, "b1")]]);
    assert_eq!(bitcoin_serai::signing::per_input(&rows, 0), Vec::<Vec<(u16, &str)>>::new());
}
