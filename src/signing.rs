use vstd::prelude::*;

use crate::builder::{
    build, change_taken, estimate_tx, input_values, payment_values, total, ReceivedView,
    SignableTransaction, SignableView, well_formed, MAX_STANDARD_TX_WEIGHT,
};
use crate::transaction::{
    p2tr_script, p2tr_script_spec, outputs_view, bip141_weight, lemma_inputs_same_weight,
    lemma_outputs_same_size, lemma_single_witness_size, input_weight, Tx, TxView, Input, InputView,
    Output, OutputView,
};

verus! {

/// The domain separator of the signing transcript.
pub const TRANSCRIPT_DOMAIN: &'static str = "bitcoin_transaction";

/// The label of a message that binds the signing transcript to the
/// transaction.
#[derive(Clone, Copy, PartialEq, Eq, Debug, Structural)]
pub enum BindingLabel {
    /// The group key, SEC1 compressed.
    RootKey,
    /// The txid of an input's outpoint.
    InputHash,
    /// The output index of an input's outpoint, 4 bytes little-endian.
    InputOutputIndex,
    /// An output's script.
    OutputScript,
    /// An output's value, 8 bytes little-endian.
    OutputAmount,
    /// The index of the input that a sub-transcript signs, 4 bytes little-endian.
    SigningInput,
}

impl BindingLabel {
    /// The label as the transcript receives it.
    pub fn as_str(&self) -> (r: &'static str)
        ensures
            *self == BindingLabel::RootKey ==> r@ == "root_key"@,
            *self == BindingLabel::InputHash ==> r@ == "input_hash"@,
            *self == BindingLabel::InputOutputIndex ==> r@ == "input_output_index"@,
            *self == BindingLabel::OutputScript ==> r@ == "output_script"@,
            *self == BindingLabel::OutputAmount ==> r@ == "output_amount"@,
            *self == BindingLabel::SigningInput ==> r@ == "signing_input"@,
    {
        proof {
            reveal_strlit("root_key");
            reveal_strlit("input_hash");
            reveal_strlit("input_output_index");
            reveal_strlit("output_script");
            reveal_strlit("output_amount");
            reveal_strlit("signing_input");
        }
        match self {
            BindingLabel::RootKey => "root_key",
            BindingLabel::InputHash => "input_hash",
            BindingLabel::InputOutputIndex => "input_output_index",
            BindingLabel::OutputScript => "output_script",
            BindingLabel::OutputAmount => "output_amount",
            BindingLabel::SigningInput => "signing_input",
        }
    }
}

/// A labelled message of the signing transcript.
#[derive(Clone, PartialEq, Eq, Debug)]
pub struct BindingMessage {
    pub label: BindingLabel,
    pub message: Vec<u8>,
}

/// The `n` low bytes of `x`, least significant first.
pub open spec fn le_bytes(x: nat, n: nat) -> Seq<u8>
    decreases n,
{
    if n == 0 {
        Seq::empty()
    } else {
        seq![(x % 256) as u8] + le_bytes(x / 256, (n - 1) as nat)
    }
}

/// The messages for the inputs: per input its txid, then its output index.
pub open spec fn input_messages(ins: Seq<InputView>) -> Seq<(BindingLabel, Seq<u8>)>
    decreases ins.len(),
{
    if ins.len() == 0 {
        Seq::empty()
    } else {
        input_messages(ins.drop_last()) + seq![
            (BindingLabel::InputHash, ins.last().previous_output.txid@),
            (BindingLabel::InputOutputIndex, le_bytes(ins.last().previous_output.vout as nat, 4)),
        ]
    }
}

/// The messages for the outputs: per output its script, then its value.
pub open spec fn output_messages(outs: Seq<OutputView>) -> Seq<(BindingLabel, Seq<u8>)>
    decreases outs.len(),
{
    if outs.len() == 0 {
        Seq::empty()
    } else {
        output_messages(outs.drop_last()) + seq![
            (BindingLabel::OutputScript, outs.last().script_pubkey),
            (BindingLabel::OutputAmount, le_bytes(outs.last().value as nat, 8)),
        ]
    }
}

/// What the transcript receives after its domain separator: the group key,
/// then the inputs, then the outputs.
pub open spec fn binding_spec(group_key: Seq<u8>, tx: TxView) -> Seq<(BindingLabel, Seq<u8>)> {
    seq![(BindingLabel::RootKey, group_key)] + input_messages(tx.input) + output_messages(tx.output)
}

/// Transcript messages as the contracts see them.
pub open spec fn messages_view(m: Seq<BindingMessage>) -> Seq<(BindingLabel, Seq<u8>)> {
    m.map_values(|x: BindingMessage| (x.label, x.message@))
}

/// The `n` low bytes of `x`, least significant first.
fn to_le(x: u64, n: usize) -> (r: Vec<u8>)
    requires
        n <= 8,
    ensures
        r@ == le_bytes(x as nat, n as nat),
{
    let mut r: Vec<u8> = Vec::new();
    let mut cur: u64 = x;
    let mut k: usize = 0;
    while k < n
        invariant
            k <= n,
            r@ + le_bytes(cur as nat, (n - k) as nat) == le_bytes(x as nat, n as nat),
        decreases n - k,
    {
        let b = (cur % 256) as u8;
        let ghost prev = r@;
        r.push(b);
        assert(prev + le_bytes(cur as nat, (n - k) as nat) =~= r@ + le_bytes((cur / 256) as nat, (n - k - 1) as nat));
        cur = cur / 256;
        k += 1;
    }
    assert(r@ + le_bytes(cur as nat, 0) =~= r@);
    r
}

fn array_bytes<const N: usize>(a: &[u8; N]) -> (r: Vec<u8>)
    ensures
        r@ == a@,
{
    let mut r: Vec<u8> = Vec::new();
    let mut k: usize = 0;
    while k < N
        invariant
            k <= N,
            a@.len() == N,
            r@ =~= a@.take(k as int),
        decreases N - k,
    {
        r.push(a[k]);
        k += 1;
    }
    r
}

/// The messages that bind the signing transcript to `tx` under `group_key`,
/// in the order in which they are appended.
pub fn binding_messages(group_key: &[u8; 33], tx: &Tx) -> (r: Vec<BindingMessage>)
    ensures
        messages_view(r@) == binding_spec(group_key@, tx@),
{
    let mut r: Vec<BindingMessage> = Vec::new();
    r.push(BindingMessage { label: BindingLabel::RootKey, message: array_bytes(group_key) });
    let ghost head = seq![(BindingLabel::RootKey, group_key@)];
    assert(messages_view(r@) =~= head);
    let mut i: usize = 0;
    while i < tx.input.len()
        invariant
            i <= tx.input@.len(),
            messages_view(r@) == head + input_messages(tx@.input.take(i as int)),
        decreases tx.input@.len() - i,
    {
        let input = &tx.input[i];
        let ghost prev = r@;
        r.push(BindingMessage { label: BindingLabel::InputHash, message: array_bytes(&input.previous_output.txid) });
        r.push(BindingMessage { label: BindingLabel::InputOutputIndex, message: to_le(input.previous_output.vout as u64, 4) });
        assert(tx@.input.take(i + 1).drop_last() =~= tx@.input.take(i as int));
        assert(messages_view(r@) =~= messages_view(prev) + seq![
            (BindingLabel::InputHash, tx@.input[i as int].previous_output.txid@),
            (BindingLabel::InputOutputIndex, le_bytes(tx@.input[i as int].previous_output.vout as nat, 4)),
        ]);
        i += 1;
    }
    assert(tx@.input.take(tx@.input.len() as int) =~= tx@.input);
    let ghost with_inputs = head + input_messages(tx@.input);
    let mut j: usize = 0;
    while j < tx.output.len()
        invariant
            j <= tx.output@.len(),
            messages_view(r@) == with_inputs + output_messages(tx@.output.take(j as int)),
        decreases tx.output@.len() - j,
    {
        let output = &tx.output[j];
        let ghost prev = r@;
        r.push(BindingMessage { label: BindingLabel::OutputScript, message: output.script_pubkey.clone() });
        r.push(BindingMessage { label: BindingLabel::OutputAmount, message: to_le(output.value, 8) });
        assert(tx@.output.take(j + 1).drop_last() =~= tx@.output.take(j as int));
        assert(messages_view(r@) =~= messages_view(prev) + seq![
            (BindingLabel::OutputScript, tx@.output[j as int].script_pubkey),
            (BindingLabel::OutputAmount, le_bytes(tx@.output[j as int].value as nat, 8)),
        ]);
        j += 1;
    }
    assert(tx@.output.take(tx@.output.len() as int) =~= tx@.output);
    r
}

/// The message that stamps the sub-transcript of the input at `index`.
pub fn signing_input_stamp(index: u32) -> (r: BindingMessage)
    ensures
        r.label == BindingLabel::SigningInput,
        r.message@ == le_bytes(index as nat, 4),
{
    BindingMessage { label: BindingLabel::SigningInput, message: to_le(index as u64, 4) }
}

/// Whether a key, SEC1 compressed, is the output key of a P2TR script: its
/// y coordinate is even and the script pushes its x coordinate.
pub open spec fn key_spends(key: Seq<u8>, script: Seq<u8>) -> bool {
    key[0] == 2u8 && p2tr_script_spec(key.subrange(1, 33)) == script
}

fn bytes_eq(a: &Vec<u8>, b: &Vec<u8>) -> (r: bool)
    ensures
        r == (a@ == b@),
{
    if a.len() != b.len() {
        return false;
    }
    let mut k: usize = 0;
    while k < a.len()
        invariant
            k <= a@.len(),
            a@.len() == b@.len(),
            a@.take(k as int) == b@.take(k as int),
        decreases a@.len() - k,
    {
        if a[k] != b[k] {
            assert(a@[k as int] != b@[k as int]);
            return false;
        }
        assert(a@.take(k + 1) =~= a@.take(k as int).push(a@[k as int]));
        assert(b@.take(k + 1) =~= b@.take(k as int).push(b@[k as int]));
        k += 1;
    }
    assert(a@.take(a@.len() as int) =~= a@);
    assert(b@.take(b@.len() as int) =~= b@);
    true
}

/// Whether `keys`, the group key offset by each input's offset, can spend
/// the outputs that the inputs spend: one key per input, and each the output
/// key of the P2TR script that its input spends.
pub fn keys_spend_inputs(signable: &SignableTransaction, keys: &Vec<[u8; 33]>) -> (r: bool)
    ensures
        r == (keys@.len() == signable@.prevouts.len() && forall|i: int|
            0 <= i < keys@.len() ==> key_spends(#[trigger] keys@[i]@, signable@.prevouts[i].script_pubkey)),
{
    let prevouts = signable.prevouts();
    if keys.len() != prevouts.len() {
        return false;
    }
    let mut i: usize = 0;
    while i < keys.len()
        invariant
            i <= keys@.len(),
            keys@.len() == prevouts@.len(),
            outputs_view(prevouts@) == signable@.prevouts,
            forall|j: int| 0 <= j < i ==> key_spends(#[trigger] keys@[j]@, signable@.prevouts[j].script_pubkey),
        decreases keys@.len() - i,
    {
        match p2tr_script(&keys[i]) {
            Some(script) => {
                if !bytes_eq(&script, &prevouts[i].script_pubkey) {
                    return false;
                }
            },
            None => {
                return false;
            },
        }
        i += 1;
    }
    true
}

/// The BIP-341 signature hash of a key-path spend of input `index` of `tx`
/// under SIGHASH_DEFAULT, committing to all the outputs `prevouts` spent.
pub uninterp spec fn taproot_sighash(tx: TxView, prevouts: Seq<OutputView>, index: nat) -> Seq<u8>;

/// Relies on bitcoin's `SighashCache::taproot_key_spend_signature_hash` with
/// `Prevouts::All`, which fails only when the number of prevouts is not the
/// number of inputs.
#[verifier::external_body]
fn key_spend_sighash(tx: &Tx, prevouts: &Vec<Output>, index: usize) -> (r: [u8; 32])
    requires
        prevouts@.len() == tx.input@.len(),
    ensures
        r@ == taproot_sighash(tx@, outputs_view(prevouts@), index as nat),
{
    let t = tx.to_bitcoin();
    let p: Vec<bitcoin::TxOut> = prevouts.iter().map(|o| o.to_bitcoin()).collect();
    let mut cache = bitcoin::util::sighash::SighashCache::new(&t);
    let all = bitcoin::util::sighash::Prevouts::All(&p);
    let h = cache.taproot_key_spend_signature_hash(index, &all, bitcoin::SchnorrSighashType::Default).unwrap();
    bitcoin::hashes::Hash::into_inner(h)
}

/// The messages that the input signers sign: the sighash of each input, in
/// order.
pub open spec fn sighashes_spec(s: SignableView) -> Seq<Seq<u8>> {
    Seq::new(s.tx.input.len(), |i: int| taproot_sighash(s.tx, s.prevouts, i as nat))
}

/// The messages signed for a transaction depend on its unsigned transaction
/// and the outputs it spends alone: not on who signs, nor on any nonce.
pub proof fn lemma_sighashes_depend_on_tx_and_prevouts(a: SignableView, b: SignableView)
    requires
        a.tx == b.tx,
        a.prevouts == b.prevouts,
    ensures
        sighashes_spec(a) == sighashes_spec(b),
{
}

/// The sighash of each input of the transaction, which its signer signs.
pub fn sighashes(signable: &SignableTransaction) -> (r: Vec<[u8; 32]>)
    requires
        well_formed(signable@),
    ensures
        r@.map_values(|h: [u8; 32]| h@) == sighashes_spec(signable@),
{
    let tx = signable.tx();
    let prevouts = signable.prevouts();
    let mut r: Vec<[u8; 32]> = Vec::new();
    let mut i: usize = 0;
    while i < tx.input.len()
        invariant
            i <= tx.input@.len(),
            tx@ == signable@.tx,
            outputs_view(prevouts@) == signable@.prevouts,
            prevouts@.len() == tx.input@.len(),
            r@.map_values(|h: [u8; 32]| h@) =~= sighashes_spec(signable@).take(i as int),
        decreases tx.input@.len() - i,
    {
        let h = key_spend_sighash(tx, prevouts, i);
        let ghost prev = r@;
        r.push(h);
        assert(r@.map_values(|h: [u8; 32]| h@) =~= prev.map_values(|h: [u8; 32]| h@).push(h@));
        i += 1;
    }
    assert(sighashes_spec(signable@).take(i as int) =~= sighashes_spec(signable@));
    r
}

/// `tx` with the witness of each input set to the one element that is its
/// signature.
pub open spec fn signed_spec(tx: TxView, signatures: Seq<Seq<u8>>) -> TxView {
    TxView {
        input: Seq::new(tx.input.len(), |i: int| InputView { witness: seq![signatures[i]], ..tx.input[i] }),
        ..tx
    }
}

/// Sets the witness of each input to its 64-byte Schnorr signature, alone:
/// under SIGHASH_DEFAULT no sighash byte follows it.
pub fn attach_signatures(tx: &mut Tx, signatures: &Vec<[u8; 64]>)
    requires
        signatures@.len() == old(tx).input@.len(),
    ensures
        final(tx)@ == signed_spec(old(tx)@, signatures@.map_values(|s: [u8; 64]| s@)),
        final(tx).input@.len() == old(tx).input@.len(),
        forall|i: int| 0 <= i < final(tx).input@.len() ==> {
            &&& (#[trigger] final(tx)@.input[i]).witness.len() == 1
            &&& final(tx)@.input[i].witness[0].len() == 64
        },
{
    let ghost sigs = signatures@.map_values(|s: [u8; 64]| s@);
    let ghost before = tx@;
    let mut input: Vec<Input> = Vec::new();
    let mut i: usize = 0;
    while i < tx.input.len()
        invariant
            i <= tx.input@.len(),
            tx@ == before,
            signatures@.len() == tx.input@.len(),
            sigs == signatures@.map_values(|s: [u8; 64]| s@),
            input@.len() == i,
            forall|j: int| 0 <= j < i ==> (#[trigger] input@[j])@ == signed_spec(before, sigs).input[j],
        decreases tx.input@.len() - i,
    {
        let old_in = &tx.input[i];
        let mut witness: Vec<Vec<u8>> = Vec::new();
        witness.push(array_bytes(&signatures[i]));
        let t = Input {
            previous_output: old_in.previous_output,
            script_sig: old_in.script_sig.clone(),
            sequence: old_in.sequence,
            witness,
        };
        assert(t@.witness =~= seq![sigs[i as int]]);
        assert(t@.script_sig =~= before.input[i as int].script_sig);
        input.push(t);
        i += 1;
    }
    tx.input = input;
    assert(tx@.input =~= signed_spec(before, sigs).input);
}

/// What each participant sent for each input, by input: entry `c` holds,
/// in the participants' order, each participant with a clone of its `c`-th
/// item. Items past the `inputs`-th are not read.
pub fn per_input<K: Copy, T: Clone>(rows: &Vec<(K, Vec<T>)>, inputs: usize) -> (r: Vec<Vec<(K, T)>>)
    requires
        forall|p: int| 0 <= p < rows@.len() ==> (#[trigger] rows@[p]).1@.len() >= inputs,
    ensures
        r@.len() == inputs,
        forall|c: int| 0 <= c < inputs ==> (#[trigger] r@[c])@.len() == rows@.len(),
        forall|c: int, p: int|
            0 <= c < inputs && 0 <= p < rows@.len() ==> {
                &&& (#[trigger] r@[c]@[p]).0 == rows@[p].0
                &&& cloned(rows@[p].1@[c], r@[c]@[p].1)
            },
{
    let mut r: Vec<Vec<(K, T)>> = Vec::new();
    let mut c: usize = 0;
    while c < inputs
        invariant
            c <= inputs,
            r@.len() == c,
            forall|p: int| 0 <= p < rows@.len() ==> (#[trigger] rows@[p]).1@.len() >= inputs,
            forall|c2: int| 0 <= c2 < c ==> (#[trigger] r@[c2])@.len() == rows@.len(),
            forall|c2: int, p: int|
                0 <= c2 < c && 0 <= p < rows@.len() ==> {
                    &&& (#[trigger] r@[c2]@[p]).0 == rows@[p].0
                    &&& cloned(rows@[p].1@[c2], r@[c2]@[p].1)
                },
        decreases inputs - c,
    {
        let mut column: Vec<(K, T)> = Vec::new();
        let mut p: usize = 0;
        while p < rows.len()
            invariant
                c < inputs,
                p <= rows@.len(),
                column@.len() == p,
                forall|q: int| 0 <= q < rows@.len() ==> (#[trigger] rows@[q]).1@.len() >= inputs,
                forall|q: int|
                    0 <= q < p ==> {
                        &&& (#[trigger] column@[q]).0 == rows@[q].0
                        &&& cloned(rows@[q].1@[c as int], column@[q].1)
                    },
            decreases rows@.len() - p,
        {
            let row = &rows[p];
            let item = row.1[c].clone();
            column.push((row.0, item));
            p += 1;
        }
        r.push(column);
        c += 1;
    }
    r
}

/// Without OP_RETURN data, the transaction signed with one 64-byte signature
/// per input weighs exactly the estimate that building checked, so its
/// weight is within the standard limit.
pub proof fn lemma_signed_weight_within_limit(
    inputs: Seq<ReceivedView>,
    payments: Seq<(Seq<u8>, u64)>,
    change: Option<Seq<u8>>,
    fee_per_weight: nat,
    signatures: Seq<Seq<u8>>,
)
    requires
        build(inputs, payments, change, None, fee_per_weight) is Ok,
        signatures.len() == inputs.len(),
        forall|i: int| 0 <= i < signatures.len() ==> (#[trigger] signatures[i]).len() == 64,
    ensures
        bip141_weight(signed_spec(build(inputs, payments, change, None, fee_per_weight)->Ok_0.tx, signatures))
            <= MAX_STANDARD_TX_WEIGHT,
{
    let s = build(inputs, payments, change, None, fee_per_weight)->Ok_0;
    let n = inputs.len();
    let w1 = bip141_weight(estimate_tx(n, payments, change));
    let taken = change_taken(total(input_values(inputs)), total(payment_values(payments)), change, fee_per_weight, w1);
    let est = estimate_tx(n, payments, if taken { change } else { None });
    let signed = signed_spec(s.tx, signatures);
    assert forall|i: int| 0 <= i < n implies input_weight(#[trigger] signed.input[i]) == input_weight(est.input[i])
        && (signed.input[i].witness.len() == 0) == (est.input[i].witness.len() == 0) by {
        lemma_single_witness_size(signatures[i], Seq::new(64, |_j: int| 0u8));
    }
    lemma_inputs_same_weight(signed.input, est.input);
    assert(signed.output.len() == est.output.len());
    assert forall|i: int| 0 <= i < signed.output.len() implies (#[trigger] signed.output[i]).script_pubkey.len()
        == est.output[i].script_pubkey.len() by {
    }
    lemma_outputs_same_size(signed.output, est.output);
}

} // verus!
