use std::collections::HashMap;

use bitcoin::hashes::{sha256, HashEngine};
use bitcoin::secp256k1::{schnorr, Message, Secp256k1 as Secp, XOnlyPublicKey};
use flexible_transcript::{RecommendedTranscript, Transcript};
use k256::elliptic_curve::{ops::Reduce, point::AffineCoordinates, sec1::ToEncodedPoint};
use k256::{ProjectivePoint, Scalar, U256};
use modular_frost::algorithm::{Hram, Schnorr as FrostSchnorr};
use modular_frost::curve::Secp256k1;
use modular_frost::tests::{algorithm_machines, key_gen, sign};
use modular_frost::{Participant, ThresholdKeys};
use rand_core::OsRng;

use bitcoin_serai::signing::{
    attach_signatures, binding_messages, keys_spend_inputs, sighashes, signing_input_stamp, TRANSCRIPT_DOMAIN,
};
use bitcoin_serai::transaction::p2tr_script;
use bitcoin_serai::{OutPoint, Output, ReceivedOutput, SignableTransaction};

fn x_of(point: &ProjectivePoint) -> [u8; 32] {
    (*point.to_encoded_point(true).x().unwrap()).into()
}

fn compressed(point: &ProjectivePoint) -> [u8; 33] {
    point.to_encoded_point(true).as_bytes().try_into().unwrap()
}

fn make_even(mut point: ProjectivePoint) -> (ProjectivePoint, u64) {
    let mut c = 0;
    while bool::from(point.to_affine().y_is_odd()) {
        point += ProjectivePoint::GENERATOR;
        c += 1;
    }
    (point, c)
}

#[derive(Clone)]
struct Bip340Hram;

impl Hram<Secp256k1> for Bip340Hram {
    #[allow(non_snake_case)]
    fn hram(R: &ProjectivePoint, A: &ProjectivePoint, m: &[u8]) -> Scalar {
        let (R, _) = make_even(*R);
        let tag = <sha256::Hash as bitcoin::hashes::Hash>::hash(b"BIP0340/challenge");
        let mut engine = <sha256::Hash as bitcoin::hashes::Hash>::engine();
        engine.input(&tag[..]);
        engine.input(&tag[..]);
        engine.input(&x_of(&R));
        engine.input(&x_of(A));
        engine.input(m);
        let data = <sha256::Hash as bitcoin::hashes::Hash>::from_engine(engine);
        <Scalar as Reduce<U256>>::reduce(U256::from_be_slice(&data[..]))
    }
}

/// The least offset from `start` under which the offset group key has an even y.
fn even_offset(group: ProjectivePoint, start: u64) -> Scalar {
    let mut offset = Scalar::from(start);
    while bool::from((ProjectivePoint::GENERATOR * offset + group).to_affine().y_is_odd()) {
        offset += Scalar::ONE;
    }
    offset
}

#[test]
fn threshold_signing_of_two_inputs() {
    let keys: HashMap<Participant, ThresholdKeys<Secp256k1>> = key_gen(&mut OsRng);
    let group = keys.values().next().unwrap().group_key();

    let offsets = [even_offset(group, 1), even_offset(group, 1_000)];
    let tweaked: Vec<ProjectivePoint> =
        offsets.iter().map(|offset| ProjectivePoint::GENERATOR * offset + group).collect();
    let inputs: Vec<ReceivedOutput> = (0 .. 2)
        .map(|i| ReceivedOutput {
            outpoint: OutPoint { txid: [i as u8 + 1; 32], vout: i as u32 },
            output: Output { value: 60_000, script_pubkey: p2tr_script(&compressed(&tweaked[i])).unwrap() },
            offset: offsets[i].to_bytes().into(),
        })
        .collect();
    let change = p2tr_script(&compressed(&tweaked[0])).unwrap();
    let mut payee = [7u8; 33];
    payee[0] = 2;
    let payments = vec![(p2tr_script(&payee).unwrap(), 100_000)];
    let signable = SignableTransaction::new(inputs, &payments, Some(change), None, 2).unwrap();

    let tweaked_keys: Vec<[u8; 33]> = tweaked.iter().map(compressed).collect();
    assert!(keys_spend_inputs(&signable, &tweaked_keys));

    let mut transcript = RecommendedTranscript::new(b"threshold signing test");
    transcript.domain_separate(TRANSCRIPT_DOMAIN.as_bytes());
    for message in binding_messages(&compressed(&group), signable.tx()) {
        transcript.append_message(message.label.as_str().as_bytes(), message.message);
    }

    let hashes = sighashes(&signable);
    let mut signatures = vec![];
    for i in 0 .. 2 {
        let mut input_transcript = transcript.clone();
        let stamp = signing_input_stamp(i as u32);
        input_transcript.append_message(stamp.label.as_str().as_bytes(), stamp.message);
        let algorithm = FrostSchnorr::<Secp256k1, RecommendedTranscript, Bip340Hram>::new(input_transcript);
        let input_keys: HashMap<Participant, ThresholdKeys<Secp256k1>> =
            keys.iter().map(|(p, k)| (*p, k.clone().offset(offsets[i]))).collect();
        let machines = algorithm_machines(&mut OsRng, &algorithm, &input_keys);
        assert_eq!(machines.len(), 4);
        let sig = sign(&mut OsRng, &algorithm, input_keys, machines, &hashes[i]);
        let (nonce, added) = make_even(sig.R);
        let s = sig.s + Scalar::from(added);
        let mut bytes = [0u8; 64];
        bytes[.. 32].copy_from_slice(&x_of(&nonce));
        bytes[32 ..].copy_from_slice(&s.to_bytes());

        Secp::verification_only()
            .verify_schnorr(
                &schnorr::Signature::from_slice(&bytes).unwrap(),
                &Message::from_slice(&hashes[i]).unwrap(),
                &XOnlyPublicKey::from_slice(&x_of(&tweaked[i])).unwrap(),
            )
            .unwrap();
        signatures.push(bytes);
    }

    let mut tx = signable.tx().clone();
    attach_signatures(&mut tx, &signatures);
    for (input, signature) in tx.input.iter().zip(&signatures) {
        assert_eq!(input.witness, vec![signature.to_vec()]);
    }
}
