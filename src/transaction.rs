use vstd::prelude::*;


verus! {

/// bitcoin's transaction type, which the calls below take.
#[verifier::external_type_specification]
#[verifier::external_body]
pub struct ExBitcoinTransaction(bitcoin::Transaction);

/// bitcoin's output type, which the calls below take.
#[verifier::external_type_specification]
#[verifier::external_body]
pub struct ExBitcoinTxOut(bitcoin::TxOut);

/// A reference to an output of an earlier transaction: its txid, in the
/// internal byte order, and its index.
#[derive(Clone, Copy, PartialEq, Eq, Debug)]
pub struct OutPoint {
    pub txid: [u8; 32],
    pub vout: u32,
}

/// A transaction output: an amount in satoshis and the script that locks it.
#[derive(Clone, PartialEq, Eq, Debug)]
pub struct Output {
    pub value: u64,
    pub script_pubkey: Vec<u8>,
}

/// A transaction input.
#[derive(Clone, PartialEq, Eq, Debug)]
pub struct Input {
    pub previous_output: OutPoint,
    pub script_sig: Vec<u8>,
    pub sequence: u32,
    pub witness: Vec<Vec<u8>>,
}

/// A Bitcoin transaction, with the fields that its BIP-141 serialization holds.
#[derive(Clone, PartialEq, Eq, Debug)]
pub struct Tx {
    pub version: i32,
    pub lock_time: u32,
    pub input: Vec<Input>,
    pub output: Vec<Output>,
}

/// An output as the contracts see it.
pub struct OutputView {
    pub value: u64,
    pub script_pubkey: Seq<u8>,
}

/// An input as the contracts see it.
pub struct InputView {
    pub previous_output: OutPoint,
    pub script_sig: Seq<u8>,
    pub sequence: u32,
    pub witness: Seq<Seq<u8>>,
}

/// A transaction as the contracts see it.
pub struct TxView {
    pub version: i32,
    pub lock_time: u32,
    pub input: Seq<InputView>,
    pub output: Seq<OutputView>,
}

impl View for Output {
    type V = OutputView;

    open spec fn view(&self) -> OutputView {
        OutputView { value: self.value, script_pubkey: self.script_pubkey@ }
    }
}

/// The witness stack of an input as byte sequences.
pub open spec fn witness_view(w: Seq<Vec<u8>>) -> Seq<Seq<u8>> {
    w.map_values(|e: Vec<u8>| e@)
}

impl View for Input {
    type V = InputView;

    open spec fn view(&self) -> InputView {
        InputView {
            previous_output: self.previous_output,
            script_sig: self.script_sig@,
            sequence: self.sequence,
            witness: witness_view(self.witness@),
        }
    }
}

/// Outputs as the contracts see them.
pub open spec fn outputs_view(o: Seq<Output>) -> Seq<OutputView> {
    o.map_values(|t: Output| t@)
}

/// Inputs as the contracts see them.
pub open spec fn inputs_view(i: Seq<Input>) -> Seq<InputView> {
    i.map_values(|t: Input| t@)
}

impl View for Tx {
    type V = TxView;

    open spec fn view(&self) -> TxView {
        TxView {
            version: self.version,
            lock_time: self.lock_time,
            input: inputs_view(self.input@),
            output: outputs_view(self.output@),
        }
    }
}

/// The sequence number that every input of the wallet's transactions uses.
pub const SEQUENCE_FINAL: u32 = 0xFFFF_FFFF;

/// The OP_RETURN opcode.
pub const OP_RETURN: u8 = 0x6a;

/// The OP_PUSHDATA1 opcode.
pub const OP_PUSHDATA1: u8 = 0x4c;

/// The script `OP_RETURN <data>` for data of fewer than 256 bytes: the data
/// is pushed by its length alone when that is under 76, else after
/// OP_PUSHDATA1.
pub open spec fn op_return_script(data: Seq<u8>) -> Seq<u8> {
    if data.len() < 76 {
        seq![OP_RETURN, data.len() as u8] + data
    } else {
        seq![OP_RETURN, OP_PUSHDATA1, data.len() as u8] + data
    }
}

/// The P2TR output script for an x-only key: OP_1, then a push of its 32 bytes.
pub open spec fn p2tr_script_spec(x: Seq<u8>) -> Seq<u8> {
    seq![0x51u8, 0x20u8] + x
}

/// The length of the compact-size encoding of `n`.
pub open spec fn varint_len(n: nat) -> nat {
    if n <= 0xFC {
        1
    } else if n <= 0xFFFF {
        3
    } else if n <= 0xFFFF_FFFF {
        5
    } else {
        9
    }
}

/// The encoded length of the elements of a witness stack, each with its
/// length prefix.
pub open spec fn witness_elements_len(w: Seq<Seq<u8>>) -> nat
    decreases w.len(),
{
    if w.len() == 0 {
        0
    } else {
        witness_elements_len(w.drop_last()) + varint_len(w.last().len()) + w.last().len()
    }
}

/// The encoded length of a witness stack: its element count, then its elements.
pub open spec fn witness_size(w: Seq<Seq<u8>>) -> nat {
    varint_len(w.len()) + witness_elements_len(w)
}

/// The weight of an input: four times its outpoint, sequence and script,
/// plus its witness when it has one.
pub open spec fn input_weight(i: InputView) -> nat {
    4 * (40 + varint_len(i.script_sig.len()) + i.script_sig.len())
        + if i.witness.len() == 0 { 0 } else { witness_size(i.witness) }
}

/// The weight of the inputs.
pub open spec fn inputs_weight(s: Seq<InputView>) -> nat
    decreases s.len(),
{
    if s.len() == 0 {
        0
    } else {
        inputs_weight(s.drop_last()) + input_weight(s.last())
    }
}

/// How many inputs have a witness.
pub open spec fn witnessed(s: Seq<InputView>) -> nat
    decreases s.len(),
{
    if s.len() == 0 {
        0
    } else {
        witnessed(s.drop_last()) + if s.last().witness.len() == 0 { 0nat } else { 1nat }
    }
}

/// The encoded size of an output: its value, then its script with a length prefix.
pub open spec fn output_size(o: OutputView) -> nat {
    8 + varint_len(o.script_pubkey.len()) + o.script_pubkey.len()
}

/// The encoded size of the outputs.
pub open spec fn outputs_size(s: Seq<OutputView>) -> nat
    decreases s.len(),
{
    if s.len() == 0 {
        0
    } else {
        outputs_size(s.drop_last()) + output_size(s.last())
    }
}

/// The BIP-141 weight of a transaction: four times the size without
/// witnesses, plus the witnesses, plus the marker and flag bytes and one
/// empty-stack byte per input without a witness when any input has one.
pub open spec fn bip141_weight(tx: TxView) -> nat {
    let non_input = 4 + varint_len(tx.input.len()) + varint_len(tx.output.len()) + outputs_size(tx.output) + 4;
    let w = witnessed(tx.input);
    non_input * 4 + inputs_weight(tx.input) + if w == 0 { 0 } else { (tx.input.len() - w + 2) as nat }
}

/// Relies on bitcoin's `Script::new_op_return`, which pushes OP_RETURN and
/// then the data with the shortest push prefix for its length.
#[verifier::external_body]
pub(crate) fn op_return(data: &Vec<u8>) -> (r: Vec<u8>)
    requires
        data@.len() < 0x100,
    ensures
        r@ == op_return_script(data@),
{
    bitcoin::Script::new_op_return(data).to_bytes()
}

impl Output {
    /// The same output as bitcoin's `TxOut`, built with its fields and
    /// `Script::from` on the script's bytes: no value is changed.
    #[verifier::external_body]
    pub(crate) fn to_bitcoin(&self) -> bitcoin::TxOut {
        bitcoin::TxOut { value: self.value, script_pubkey: bitcoin::Script::from(self.script_pubkey.clone()) }
    }
}

impl Tx {
    /// The same transaction as bitcoin's `Transaction`, built with its
    /// fields, `PackedLockTime`, `Txid::from_inner`, `Script::from`,
    /// `Sequence` and `Witness::from_vec`: no value is changed.
    #[verifier::external_body]
    pub(crate) fn to_bitcoin(&self) -> bitcoin::Transaction {
        bitcoin::Transaction {
            version: self.version,
            lock_time: bitcoin::PackedLockTime(self.lock_time),
            input: self.input.iter().map(|i| bitcoin::TxIn {
                previous_output: bitcoin::OutPoint::new(<bitcoin::Txid as bitcoin::hashes::Hash>::from_inner(i.previous_output.txid), i.previous_output.vout),
                script_sig: bitcoin::Script::from(i.script_sig.clone()),
                sequence: bitcoin::Sequence(i.sequence),
                witness: bitcoin::Witness::from_vec(i.witness.clone()),
            }).collect(),
            output: self.output.iter().map(|o| o.to_bitcoin()).collect(),
        }
    }
}

/// Relies on bitcoin's `Tx::weight`, the BIP-141 weight of the
/// transaction whose fields are these.
#[verifier::external_body]
pub(crate) fn tx_weight(tx: &Tx) -> (r: u64)
    ensures
        r == bip141_weight(tx@),
{
    tx.to_bitcoin().weight() as u64
}

/// The P2TR output script of a key given in SEC1 compressed form, or `None`
/// when its y coordinate is odd: BIP-340 keys are x-only and stand for the
/// point with even y, so only such a key can be the wallet's output key as it is.
pub fn p2tr_script(key: &[u8; 33]) -> (r: Option<Vec<u8>>)
    ensures
        key@[0] == 2u8 ==> r.is_some() && r.unwrap()@ == p2tr_script_spec(key@.subrange(1, 33)),
        key@[0] != 2u8 ==> r.is_none(),
{
    if key[0] != 2 {
        return None;
    }
    let mut s: Vec<u8> = Vec::new();
    s.push(0x51);
    s.push(0x20);
    let mut i: usize = 1;
    while i < 33
        invariant
            1 <= i <= 33,
            s@ == seq![0x51u8, 0x20u8] + key@.subrange(1, i as int),
        decreases 33 - i,
    {
        s.push(key[i]);
        assert(key@.subrange(1, i + 1) == key@.subrange(1, i as int).push(key@[i as int]));
        i += 1;
    }
    Some(s)
}

/// Inputs whose weights match one by one, and which have a witness at the
/// same places, weigh the same and have as many witnesses.
pub proof fn lemma_inputs_same_weight(a: Seq<InputView>, b: Seq<InputView>)
    requires
        a.len() == b.len(),
        forall|i: int| 0 <= i < a.len() ==> input_weight(#[trigger] a[i]) == input_weight(b[i]),
        forall|i: int| 0 <= i < a.len() ==> ((#[trigger] a[i]).witness.len() == 0) == (b[i].witness.len() == 0),
    ensures
        inputs_weight(a) == inputs_weight(b),
        witnessed(a) == witnessed(b),
    decreases a.len(),
{
    if a.len() > 0 {
        lemma_inputs_same_weight(a.drop_last(), b.drop_last());
        assert(input_weight(a[a.len() - 1]) == input_weight(b[b.len() - 1]));
        assert((a[a.len() - 1].witness.len() == 0) == (b[b.len() - 1].witness.len() == 0));
    }
}

/// Outputs whose scripts have the same lengths one by one have the same
/// encoded size, whatever their values.
pub proof fn lemma_outputs_same_size(a: Seq<OutputView>, b: Seq<OutputView>)
    requires
        a.len() == b.len(),
        forall|i: int| 0 <= i < a.len() ==> (#[trigger] a[i]).script_pubkey.len() == b[i].script_pubkey.len(),
    ensures
        outputs_size(a) == outputs_size(b),
    decreases a.len(),
{
    if a.len() > 0 {
        lemma_outputs_same_size(a.drop_last(), b.drop_last());
        assert(a[a.len() - 1].script_pubkey.len() == b[b.len() - 1].script_pubkey.len());
    }
}

/// A witness of one element weighs by that element's length alone.
pub proof fn lemma_single_witness_size(x: Seq<u8>, y: Seq<u8>)
    requires
        x.len() == y.len(),
    ensures
        witness_size(seq![x]) == witness_size(seq![y]),
{
    assert(seq![x].drop_last() =~= Seq::<Seq<u8>>::empty());
    assert(seq![y].drop_last() =~= Seq::<Seq<u8>>::empty());
}

} // verus!
