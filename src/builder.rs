use vstd::prelude::*;
use vstd::array::{array_fill_for_copy_types, spec_array_fill_for_copy_type};

use crate::transaction::{
    OutPoint, Output, Input, Tx, OutputView, InputView, TxView,
    outputs_view, inputs_view, op_return, op_return_script, tx_weight, bip141_weight,
    SEQUENCE_FINAL,
};

verus! {

/// The largest weight that nodes relay under their standard policy.
pub const MAX_STANDARD_TX_WEIGHT: u64 = 400_000;

/// The least value of an output that the builder creates with a value.
pub const DUST: u64 = 674;

/// The most bytes that an OP_RETURN output may carry.
pub const MAX_DATA_LEN: usize = 80;

/// Why a transaction could not be built.
#[derive(Clone, Copy, PartialEq, Eq, Debug, Structural)]
pub enum TransactionError {
    /// No inputs were given.
    NoInputs,
    /// The transaction would have no outputs.
    NoOutputs,
    /// A payment's amount is under the dust limit.
    DustPayment,
    /// The data for the OP_RETURN output is over the limit.
    TooMuchData,
    /// The inputs do not cover the payments and the fee.
    NotEnoughFunds,
    /// The transaction would be heavier than the standard limit.
    TooLargeTransaction,
}

/// An output that the wallet received, with the scalar by which the group key
/// was offset for the address it was sent to (as 32 big-endian bytes).
#[derive(Clone, PartialEq, Eq, Debug)]
pub struct ReceivedOutput {
    pub outpoint: OutPoint,
    pub output: Output,
    pub offset: [u8; 32],
}

/// A received output as the contracts see it.
pub struct ReceivedView {
    pub outpoint: OutPoint,
    pub output: OutputView,
    pub offset: [u8; 32],
}

impl View for ReceivedOutput {
    type V = ReceivedView;

    open spec fn view(&self) -> ReceivedView {
        ReceivedView { outpoint: self.outpoint, output: self.output@, offset: self.offset }
    }
}

/// Received outputs as the contracts see them.
pub open spec fn received_view(s: Seq<ReceivedOutput>) -> Seq<ReceivedView> {
    s.map_values(|r: ReceivedOutput| r@)
}

/// A payment as the builder sees it: the output script of the address paid,
/// and the amount.
pub open spec fn payments_view(p: Seq<(Vec<u8>, u64)>) -> Seq<(Seq<u8>, u64)> {
    p.map_values(|x: (Vec<u8>, u64)| (x.0@, x.1))
}

/// An optional byte string as the contracts see it.
pub open spec fn bytes_opt(o: Option<Vec<u8>>) -> Option<Seq<u8>> {
    match o {
        Some(v) => Some(v@),
        None => None,
    }
}

/// The sum of a sequence of amounts.
pub open spec fn total(vals: Seq<u64>) -> nat
    decreases vals.len(),
{
    if vals.len() == 0 {
        0
    } else {
        total(vals.drop_last()) + vals.last() as nat
    }
}

/// The values of the received outputs.
pub open spec fn input_values(inputs: Seq<ReceivedView>) -> Seq<u64> {
    inputs.map_values(|r: ReceivedView| r.output.value)
}

/// The amounts of the payments.
pub open spec fn payment_values(payments: Seq<(Seq<u8>, u64)>) -> Seq<u64> {
    payments.map_values(|p: (Seq<u8>, u64)| p.1)
}

/// The values of the outputs.
pub open spec fn output_values(outputs: Seq<OutputView>) -> Seq<u64> {
    outputs.map_values(|o: OutputView| o.value)
}

/// The outputs that pay the payments, in their order.
pub open spec fn payment_outputs(payments: Seq<(Seq<u8>, u64)>) -> Seq<OutputView> {
    payments.map_values(|p: (Seq<u8>, u64)| OutputView { value: p.1, script_pubkey: p.0 })
}

/// The input that stands for each real one when the weight is estimated: a
/// null outpoint, no script, the final sequence and one 64-byte witness
/// element, the size of a Schnorr signature.
pub open spec fn placeholder_input() -> InputView {
    InputView {
        previous_output: OutPoint { txid: spec_array_fill_for_copy_type::<u8, 32>(0u8), vout: 0xFFFF_FFFF },
        script_sig: Seq::empty(),
        sequence: SEQUENCE_FINAL,
        witness: seq![Seq::new(64, |_i: int| 0u8)],
    }
}

/// The transaction whose weight stands for that of the real one: `n`
/// signed inputs, the payments, and a change output of value 0 when a change
/// script is given.
pub open spec fn estimate_tx(n: nat, payments: Seq<(Seq<u8>, u64)>, change: Option<Seq<u8>>) -> TxView {
    TxView {
        version: 2,
        lock_time: 0,
        input: Seq::new(n, |_i: int| placeholder_input()),
        output: payment_outputs(payments) + match change {
            Some(c) => seq![OutputView { value: 0, script_pubkey: c }],
            None => Seq::empty(),
        },
    }
}

/// The unsigned input that spends a received output.
pub open spec fn unsigned_input(r: ReceivedView) -> InputView {
    InputView { previous_output: r.outpoint, script_sig: Seq::empty(), sequence: SEQUENCE_FINAL, witness: Seq::empty() }
}

/// Whether a change output is made: a change script is given and what is
/// left after the payments and the fee of the heavier transaction is at
/// least the dust limit.
pub open spec fn change_taken(in_sum: nat, pay_sum: nat, change: Option<Seq<u8>>, fee_per_weight: nat, weight_with_change: nat) -> bool {
    change.is_some() && in_sum >= pay_sum + fee_per_weight * weight_with_change + DUST
}

/// The outputs of the built transaction: the payments, then the OP_RETURN
/// output when data is given, then the change output when it is made.
pub open spec fn built_outputs(payments: Seq<(Seq<u8>, u64)>, data: Option<Seq<u8>>, change: Option<(u64, Seq<u8>)>) -> Seq<OutputView> {
    payment_outputs(payments)
        + match data {
            Some(d) => seq![OutputView { value: 0, script_pubkey: op_return_script(d) }],
            None => Seq::empty(),
        }
        + match change {
            Some(c) => seq![OutputView { value: c.0, script_pubkey: c.1 }],
            None => Seq::empty(),
        }
}

/// A signable transaction as the contracts see it.
pub struct SignableView {
    pub tx: TxView,
    pub offsets: Seq<[u8; 32]>,
    pub prevouts: Seq<OutputView>,
    pub needed_fee: u64,
}

/// What building gives, for the weight `w0` of the transaction without a
/// change output and `w1` of the one with it.
pub open spec fn build_with(
    inputs: Seq<ReceivedView>,
    payments: Seq<(Seq<u8>, u64)>,
    change: Option<Seq<u8>>,
    data: Option<Seq<u8>>,
    fee_per_weight: nat,
    w0: nat,
    w1: nat,
) -> Result<SignableView, TransactionError> {
    let in_sum = total(input_values(inputs));
    let pay_sum = total(payment_values(payments));
    let taken = change_taken(in_sum, pay_sum, change, fee_per_weight, w1);
    let weight = if taken { w1 } else { w0 };
    if inputs.len() == 0 {
        Err(TransactionError::NoInputs)
    } else if payments.len() == 0 && change.is_none() {
        Err(TransactionError::NoOutputs)
    } else if exists|i: int| 0 <= i < payments.len() && payments[i].1 < DUST {
        Err(TransactionError::DustPayment)
    } else if data.is_some() && data.unwrap().len() > MAX_DATA_LEN {
        Err(TransactionError::TooMuchData)
    } else if in_sum < pay_sum + fee_per_weight * w0 {
        Err(TransactionError::NotEnoughFunds)
    } else if payments.len() == 0 && data.is_none() && !taken {
        Err(TransactionError::NoOutputs)
    } else if weight > MAX_STANDARD_TX_WEIGHT {
        Err(TransactionError::TooLargeTransaction)
    } else {
        Ok(SignableView {
            tx: TxView {
                version: 2,
                lock_time: 0,
                input: inputs.map_values(|r: ReceivedView| unsigned_input(r)),
                output: built_outputs(
                    payments,
                    data,
                    if taken {
                        Some(((in_sum - pay_sum - fee_per_weight * w1) as u64, change.unwrap()))
                    } else {
                        None
                    },
                ),
            },
            offsets: inputs.map_values(|r: ReceivedView| r.offset),
            prevouts: inputs.map_values(|r: ReceivedView| r.output),
            needed_fee: (fee_per_weight * weight) as u64,
        })
    }
}

/// What building gives, with the weights of the two estimate transactions.
pub open spec fn build(
    inputs: Seq<ReceivedView>,
    payments: Seq<(Seq<u8>, u64)>,
    change: Option<Seq<u8>>,
    data: Option<Seq<u8>>,
    fee_per_weight: nat,
) -> Result<SignableView, TransactionError> {
    build_with(
        inputs,
        payments,
        change,
        data,
        fee_per_weight,
        bip141_weight(estimate_tx(inputs.len(), payments, None)),
        bip141_weight(estimate_tx(inputs.len(), payments, change)),
    )
}

/// An unsigned transaction with what is needed to sign it: the offset of the
/// key of each input and the output that each input spends.
#[derive(Clone, PartialEq, Eq, Debug)]
pub struct SignableTransaction {
    tx: Tx,
    offsets: Vec<[u8; 32]>,
    prevouts: Vec<Output>,
    needed_fee: u64,
}

/// Each input has one offset and one spent output.
pub open spec fn well_formed(s: SignableView) -> bool {
    &&& s.offsets.len() == s.tx.input.len()
    &&& s.prevouts.len() == s.tx.input.len()
}

/// The outcome of building as the contracts see it.
pub open spec fn signable_result(r: Result<SignableTransaction, TransactionError>) -> Result<SignableView, TransactionError> {
    match r {
        Ok(s) => Ok(s@),
        Err(e) => Err(e),
    }
}

proof fn lemma_short_of_funds(
    inputs: Seq<ReceivedView>,
    payments: Seq<(Seq<u8>, u64)>,
    change: Option<Seq<u8>>,
    data: Option<Seq<u8>>,
    fee_per_weight: nat,
    w0: nat,
    w1: nat,
)
    requires
        inputs.len() > 0,
        payments.len() > 0 || change.is_some(),
        forall|j: int| 0 <= j < payments.len() ==> payments[j].1 >= DUST,
        data.is_some() ==> data.unwrap().len() <= MAX_DATA_LEN,
        total(input_values(inputs)) < total(payment_values(payments)) + fee_per_weight * w0,
    ensures
        build_with(inputs, payments, change, data, fee_per_weight, w0, w1) == Err::<SignableView, TransactionError>(TransactionError::NotEnoughFunds),
{
}

proof fn lemma_total_step(s: Seq<u64>, i: int)
    requires
        0 <= i < s.len(),
    ensures
        total(s.take(i + 1)) == total(s.take(i)) + s[i] as nat,
{
    assert(s.take(i + 1).drop_last() =~= s.take(i));
}

proof fn lemma_total_prefix(s: Seq<u64>, i: int)
    requires
        0 <= i <= s.len(),
    ensures
        total(s.take(i)) <= total(s),
    decreases s.len(),
{
    if i == s.len() {
        assert(s.take(i) =~= s);
    } else {
        lemma_total_prefix(s.drop_last(), i);
        assert(s.drop_last().take(i) =~= s.take(i));
    }
}

fn placeholder() -> (r: Input)
    ensures
        r@ == placeholder_input(),
{
    let mut sig: Vec<u8> = Vec::new();
    let mut i: usize = 0;
    while i < 64
        invariant
            i <= 64,
            sig@ =~= Seq::new(i as nat, |_i: int| 0u8),
        decreases 64 - i,
    {
        sig.push(0);
        i += 1;
    }
    let mut witness: Vec<Vec<u8>> = Vec::new();
    witness.push(sig);
    let r = Input {
        previous_output: OutPoint { txid: array_fill_for_copy_types::<u8, 32>(0u8), vout: 0xFFFF_FFFF },
        script_sig: Vec::new(),
        sequence: SEQUENCE_FINAL,
        witness,
    };
    assert(r.script_sig@ =~= Seq::<u8>::empty());
    assert(r@.witness =~= placeholder_input().witness);
    r
}

/// The outputs that pay `payments`, in their order.
fn pay_outputs(payments: &[(Vec<u8>, u64)]) -> (r: Vec<Output>)
    ensures
        outputs_view(r@) == payment_outputs(payments_view(payments@)),
{
    let mut r: Vec<Output> = Vec::new();
    let mut i: usize = 0;
    while i < payments.len()
        invariant
            i <= payments@.len(),
            outputs_view(r@) =~= payment_outputs(payments_view(payments@)).take(i as int),
        decreases payments@.len() - i,
    {
        let o = Output { value: payments[i].1, script_pubkey: payments[i].0.clone() };
        assert(o.script_pubkey@ =~= payments@[i as int].0@);
        let ghost prev = r@;
        r.push(o);
        assert(o@ == payment_outputs(payments_view(payments@))[i as int]);
        assert(outputs_view(r@) =~= outputs_view(prev).push(o@));
        assert(outputs_view(r@) =~= payment_outputs(payments_view(payments@)).take(i + 1));
        i += 1;
    }
    assert(payment_outputs(payments_view(payments@)).take(payments@.len() as int) =~= payment_outputs(payments_view(payments@)));
    r
}

impl View for SignableTransaction {
    type V = SignableView;

    closed spec fn view(&self) -> SignableView {
        SignableView {
            tx: self.tx@,
            offsets: self.offsets@,
            prevouts: outputs_view(self.prevouts@),
            needed_fee: self.needed_fee,
        }
    }
}

impl SignableTransaction {
    /// The weight of a transaction with `inputs` signed inputs, the payments
    /// and, when `change` is given, a change output to it.
    fn calculate_weight(inputs: usize, payments: &[(Vec<u8>, u64)], change: &Option<Vec<u8>>) -> (r: u64)
        ensures
            r == bip141_weight(estimate_tx(inputs as nat, payments_view(payments@), bytes_opt(*change))),
    {
        let mut input: Vec<Input> = Vec::new();
        let mut i: usize = 0;
        while i < inputs
            invariant
                i <= inputs,
                inputs_view(input@) =~= Seq::new(i as nat, |_i: int| placeholder_input()),
            decreases inputs - i,
        {
            let p = placeholder();
            let ghost prev = input@;
            input.push(p);
            assert(inputs_view(input@) =~= inputs_view(prev).push(p@));
            i += 1;
        }
        let mut output = pay_outputs(payments);
        let ghost pays = outputs_view(output@);
        if let Some(c) = change {
            output.push(Output { value: 0, script_pubkey: c.clone() });
            assert(outputs_view(output@) =~= pays + seq![OutputView { value: 0, script_pubkey: c@ }]);
        } else {
            assert(outputs_view(output@) =~= pays + Seq::empty());
        }
        let tx = Tx { version: 2, lock_time: 0, input, output };
        assert(tx@ == estimate_tx(inputs as nat, payments_view(payments@), bytes_opt(*change)));
        tx_weight(&tx)
    }
}


impl SignableTransaction {
    /// Builds the transaction from the weights of the two estimate
    /// transactions: `weight` without a change output, `weight_with_change`
    /// with one. Checks, in this order: some input is given; some payment or
    /// a change script is given; no payment is under the dust limit; the data
    /// fits an OP_RETURN output; the inputs cover the payments and the fee
    /// without change. A change output is added when what it would receive is
    /// at least the dust limit. Then the transaction must have an output and
    /// a weight within the standard limit.
    pub fn with_weights(
        inputs: Vec<ReceivedOutput>,
        payments: &[(Vec<u8>, u64)],
        change: Option<Vec<u8>>,
        data: Option<Vec<u8>>,
        fee_per_weight: u64,
        weight: u64,
        weight_with_change: u64,
    ) -> (r: Result<SignableTransaction, TransactionError>)
        requires
            total(input_values(received_view(inputs@))) <= u64::MAX,
        ensures
            signable_result(r) == build_with(
                received_view(inputs@),
                payments_view(payments@),
                bytes_opt(change),
                bytes_opt(data),
                fee_per_weight as nat,
                weight as nat,
                weight_with_change as nat,
            ),
            r is Ok ==> well_formed(r->Ok_0@),
    {
        let ghost ins = received_view(inputs@);
        let ghost pays = payments_view(payments@);
        let ghost in_sum = total(input_values(ins));
        let ghost pay_sum = total(payment_values(pays));
        if inputs.len() == 0 {
            return Err(TransactionError::NoInputs);
        }
        if payments.len() == 0 && change.is_none() {
            return Err(TransactionError::NoOutputs);
        }
        let mut i: usize = 0;
        while i < payments.len()
            invariant
                i <= payments@.len(),
                pays == payments_view(payments@),
                forall|j: int| 0 <= j < i ==> pays[j].1 >= DUST,
                inputs@.len() > 0,
                payments@.len() > 0 || change.is_some(),
            decreases payments@.len() - i,
        {
            if payments[i].1 < DUST {
                assert(pays[i as int].1 < DUST);
                return Err(TransactionError::DustPayment);
            }
            i += 1;
        }
        assert(!(exists|j: int| 0 <= j < pays.len() && pays[j].1 < DUST));
        if let Some(d) = &data {
            if d.len() > MAX_DATA_LEN {
                return Err(TransactionError::TooMuchData);
            }
        }

        let mut in_sat: u64 = 0;
        let mut k: usize = 0;
        while k < inputs.len()
            invariant
                k <= inputs@.len(),
                ins == received_view(inputs@),
                in_sum == total(input_values(ins)),
                in_sum <= u64::MAX,
                in_sat == total(input_values(ins).take(k as int)),
            decreases inputs@.len() - k,
        {
            proof {
                lemma_total_step(input_values(ins), k as int);
                lemma_total_prefix(input_values(ins), k + 1);
            }
            in_sat = in_sat + inputs[k].output.value;
            k += 1;
        }
        assert(input_values(ins).take(ins.len() as int) =~= input_values(ins));

        let mut pay_sat: u64 = 0;
        let mut k: usize = 0;
        while k < payments.len()
            invariant
                k <= payments@.len(),
                pays == payments_view(payments@),
                pay_sum == total(payment_values(pays)),
                in_sum <= u64::MAX,
                in_sat == in_sum,
                in_sum == total(input_values(ins)),
                pay_sat == total(payment_values(pays).take(k as int)),
                !(exists|j: int| 0 <= j < pays.len() && pays[j].1 < DUST),
                inputs@.len() > 0,
                ins == received_view(inputs@),
                payments@.len() > 0 || change.is_some(),
                data.is_some() ==> data.unwrap()@.len() <= MAX_DATA_LEN,
            decreases payments@.len() - k,
        {
            proof {
                lemma_total_step(payment_values(pays), k as int);
                lemma_total_prefix(payment_values(pays), k + 1);
            }
            match pay_sat.checked_add(payments[k].1) {
                Some(v) => pay_sat = v,
                None => {
                    assert(payment_values(pays)[k as int] == payments@[k as int].1);
                    proof {
                        assert(fee_per_weight as nat * weight as nat >= 0) by (nonlinear_arith);
                        lemma_short_of_funds(ins, pays, bytes_opt(change), bytes_opt(data), fee_per_weight as nat, weight as nat, weight_with_change as nat);
                    }
                    return Err(TransactionError::NotEnoughFunds);
                },
            }
            k += 1;
        }
        assert(payment_values(pays).take(pays.len() as int) =~= payment_values(pays));

        let fee = match fee_per_weight.checked_mul(weight) {
            Some(f) => f,
            None => {
                return Err(TransactionError::NotEnoughFunds);
            },
        };
        match pay_sat.checked_add(fee) {
            Some(need) => {
                if in_sat < need {
                    return Err(TransactionError::NotEnoughFunds);
                }
            },
            None => {
                return Err(TransactionError::NotEnoughFunds);
            },
        }

        let ghost taken = change_taken(in_sum, pay_sum, bytes_opt(change), fee_per_weight as nat, weight_with_change as nat);
        let mut change_out: Option<Output> = None;
        let mut chosen: u64 = weight;
        let mut needed_fee: u64 = fee;
        if let Some(c) = &change {
            if let Some(fee1) = fee_per_weight.checked_mul(weight_with_change) {
                if let Some(spend) = pay_sat.checked_add(fee1) {
                    if let Some(value) = in_sat.checked_sub(spend) {
                        if value >= DUST {
                            change_out = Some(Output { value, script_pubkey: c.clone() });
                            chosen = weight_with_change;
                            needed_fee = fee1;
                        }
                    }
                }
            }
        }
        assert(taken <==> change_out.is_some());
        let ghost change_spec = if taken {
            Some(((in_sum - pay_sum - fee_per_weight * weight_with_change) as u64, bytes_opt(change).unwrap()))
        } else {
            None
        };

        let mut outs = pay_outputs(payments);
        let ghost base = outputs_view(outs@);
        if let Some(d) = &data {
            let script = op_return(d);
            outs.push(Output { value: 0, script_pubkey: script });
            assert(outputs_view(outs@) =~= base + seq![OutputView { value: 0, script_pubkey: op_return_script(d@) }]);
        } else {
            assert(outputs_view(outs@) =~= base + Seq::empty());
        }
        let ghost with_data = outputs_view(outs@);
        if let Some(o) = change_out {
            outs.push(o);
            assert(outputs_view(outs@) =~= with_data + seq![o@]);
        } else {
            assert(outputs_view(outs@) =~= with_data + Seq::empty());
        }
        assert(outputs_view(outs@) =~= built_outputs(pays, bytes_opt(data), change_spec));

        if outs.len() == 0 {
            return Err(TransactionError::NoOutputs);
        }
        if chosen > MAX_STANDARD_TX_WEIGHT {
            return Err(TransactionError::TooLargeTransaction);
        }

        let mut tx_ins: Vec<Input> = Vec::new();
        let mut offsets: Vec<[u8; 32]> = Vec::new();
        let mut prevouts: Vec<Output> = Vec::new();
        let mut k: usize = 0;
        while k < inputs.len()
            invariant
                k <= inputs@.len(),
                ins == received_view(inputs@),
                inputs_view(tx_ins@) =~= ins.map_values(|r: ReceivedView| unsigned_input(r)).take(k as int),
                offsets@ =~= ins.map_values(|r: ReceivedView| r.offset).take(k as int),
                outputs_view(prevouts@) =~= ins.map_values(|r: ReceivedView| r.output).take(k as int),
            decreases inputs@.len() - k,
        {
            let input = &inputs[k];
            let t = Input { previous_output: input.outpoint, script_sig: Vec::new(), sequence: SEQUENCE_FINAL, witness: Vec::new() };
            assert(t@.witness =~= Seq::<Seq<u8>>::empty());
            assert(t@.script_sig =~= Seq::<u8>::empty());
            assert(t@ == unsigned_input(ins[k as int]));
            let ghost prev_ins = tx_ins@;
            tx_ins.push(t);
            assert(inputs_view(tx_ins@) =~= inputs_view(prev_ins).push(t@));
            offsets.push(input.offset);
            let o = Output { value: input.output.value, script_pubkey: input.output.script_pubkey.clone() };
            assert(o@ =~= ins[k as int].output);
            let ghost prev_outs = prevouts@;
            prevouts.push(o);
            assert(outputs_view(prevouts@) =~= outputs_view(prev_outs).push(o@));
            k += 1;
        }
        let tx = Tx { version: 2, lock_time: 0, input: tx_ins, output: outs };
        let r = SignableTransaction { tx, offsets, prevouts, needed_fee };
        assert(r@.tx.input =~= ins.map_values(|r: ReceivedView| unsigned_input(r)));
        assert(r@.offsets =~= ins.map_values(|r: ReceivedView| r.offset));
        assert(r@.prevouts =~= ins.map_values(|r: ReceivedView| r.output));
        Ok(r)
    }

    /// Builds the transaction, with the fee for `fee_per_weight` per unit of
    /// BIP-141 weight. The weight is estimated on a transaction with the same
    /// number of signed inputs and the payments, with and without a change
    /// output; the OP_RETURN output is not in the estimate. The values of the
    /// inputs must sum within a u64.
    pub fn new(
        inputs: Vec<ReceivedOutput>,
        payments: &[(Vec<u8>, u64)],
        change: Option<Vec<u8>>,
        data: Option<Vec<u8>>,
        fee_per_weight: u64,
    ) -> (r: Result<SignableTransaction, TransactionError>)
        requires
            total(input_values(received_view(inputs@))) <= u64::MAX,
        ensures
            signable_result(r) == build(
                received_view(inputs@),
                payments_view(payments@),
                bytes_opt(change),
                bytes_opt(data),
                fee_per_weight as nat,
            ),
            r is Ok ==> well_formed(r->Ok_0@),
    {
        let no_change: Option<Vec<u8>> = None;
        let weight = Self::calculate_weight(inputs.len(), payments, &no_change);
        let weight_with_change = if change.is_some() {
            Self::calculate_weight(inputs.len(), payments, &change)
        } else {
            weight
        };
        Self::with_weights(inputs, payments, change, data, fee_per_weight, weight, weight_with_change)
    }

    /// The fee that the transaction must pay for the fee rate it was built
    /// with. It pays the sum of its inputs less the sum of its outputs.
    pub fn needed_fee(&self) -> (r: u64)
        ensures
            r == self@.needed_fee,
    {
        self.needed_fee
    }

    /// The unsigned transaction.
    pub fn tx(&self) -> (r: &Tx)
        ensures
            r@ == self@.tx,
    {
        &self.tx
    }

    /// The offset of the key of each input, in the order of the inputs.
    pub fn offsets(&self) -> (r: &Vec<[u8; 32]>)
        ensures
            r@ == self@.offsets,
    {
        &self.offsets
    }

    /// The output that each input spends, in the order of the inputs.
    pub fn prevouts(&self) -> (r: &Vec<Output>)
        ensures
            outputs_view(r@) == self@.prevouts,
    {
        &self.prevouts
    }
}


proof fn lemma_total_concat(a: Seq<u64>, b: Seq<u64>)
    ensures
        total(a + b) == total(a) + total(b),
    decreases b.len(),
{
    if b.len() == 0 {
        assert(a + b =~= a);
    } else {
        lemma_total_concat(a, b.drop_last());
        assert((a + b).drop_last() =~= a + b.drop_last());
    }
}

proof fn lemma_output_values(
    payments: Seq<(Seq<u8>, u64)>,
    data: Option<Seq<u8>>,
    change: Option<(u64, Seq<u8>)>,
)
    ensures
        total(output_values(built_outputs(payments, data, change))) == total(payment_values(payments)) + match change {
            Some(c) => c.0 as nat,
            None => 0,
        },
{
    let p = payment_outputs(payments);
    let d: Seq<OutputView> = match data {
        Some(d) => seq![OutputView { value: 0, script_pubkey: op_return_script(d) }],
        None => Seq::empty(),
    };
    let c: Seq<OutputView> = match change {
        Some(c) => seq![OutputView { value: c.0, script_pubkey: c.1 }],
        None => Seq::empty(),
    };
    assert(built_outputs(payments, data, change) == p + d + c);
    assert(output_values(p + d + c) =~= output_values(p) + output_values(d) + output_values(c));
    assert(output_values(p) =~= payment_values(payments));
    lemma_total_concat(output_values(p) + output_values(d), output_values(c));
    lemma_total_concat(output_values(p), output_values(d));
    assert(total(Seq::<u64>::empty()) == 0);
    if data.is_some() {
        assert(output_values(d).drop_last() =~= Seq::<u64>::empty());
    } else {
        assert(output_values(d) =~= Seq::<u64>::empty());
    }
    if change.is_some() {
        assert(output_values(c).drop_last() =~= Seq::<u64>::empty());
    } else {
        assert(output_values(c) =~= Seq::<u64>::empty());
    }
}

/// When a change output is made, the inputs pay exactly the outputs and the
/// needed fee: nothing beyond the fee is lost.
pub proof fn lemma_fee_balance(
    inputs: Seq<ReceivedView>,
    payments: Seq<(Seq<u8>, u64)>,
    change: Option<Seq<u8>>,
    data: Option<Seq<u8>>,
    fee_per_weight: nat,
    w0: nat,
    w1: nat,
)
    requires
        build_with(inputs, payments, change, data, fee_per_weight, w0, w1) is Ok,
        change_taken(total(input_values(inputs)), total(payment_values(payments)), change, fee_per_weight, w1),
        total(input_values(inputs)) <= u64::MAX,
    ensures
        ({
            let s = build_with(inputs, payments, change, data, fee_per_weight, w0, w1)->Ok_0;
            total(input_values(inputs)) == total(output_values(s.tx.output)) + s.needed_fee
        }),
{
    let in_sum = total(input_values(inputs));
    let pay_sum = total(payment_values(payments));
    lemma_output_values(payments, data, Some(((in_sum - pay_sum - fee_per_weight * w1) as u64, change.unwrap())));
}

/// Without a change output the inputs pay the outputs and at least the
/// needed fee: what is left beyond it goes to the fee too.
pub proof fn lemma_fee_covered(
    inputs: Seq<ReceivedView>,
    payments: Seq<(Seq<u8>, u64)>,
    change: Option<Seq<u8>>,
    data: Option<Seq<u8>>,
    fee_per_weight: nat,
    w0: nat,
    w1: nat,
)
    requires
        build_with(inputs, payments, change, data, fee_per_weight, w0, w1) is Ok,
        !change_taken(total(input_values(inputs)), total(payment_values(payments)), change, fee_per_weight, w1),
    ensures
        ({
            let s = build_with(inputs, payments, change, data, fee_per_weight, w0, w1)->Ok_0;
            &&& total(input_values(inputs)) >= total(output_values(s.tx.output)) + s.needed_fee
            &&& total(output_values(s.tx.output)) == total(payment_values(payments))
        }),
{
    lemma_output_values(payments, data, None);
}

/// The fee is the fee rate times the weight of the estimate that was kept,
/// and that weight is within the standard limit.
pub proof fn lemma_weight_within_limit(
    inputs: Seq<ReceivedView>,
    payments: Seq<(Seq<u8>, u64)>,
    change: Option<Seq<u8>>,
    data: Option<Seq<u8>>,
    fee_per_weight: nat,
    w0: nat,
    w1: nat,
)
    requires
        build_with(inputs, payments, change, data, fee_per_weight, w0, w1) is Ok,
    ensures
        ({
            let s = build_with(inputs, payments, change, data, fee_per_weight, w0, w1)->Ok_0;
            let w = if change_taken(total(input_values(inputs)), total(payment_values(payments)), change, fee_per_weight, w1) {
                w1
            } else {
                w0
            };
            &&& w <= MAX_STANDARD_TX_WEIGHT
            &&& s.needed_fee == (fee_per_weight * w) as u64
        }),
{
}

/// Every payment output carries at least the dust limit, the OP_RETURN
/// output carries nothing, and a change output carries at least the dust
/// limit.
pub proof fn lemma_outputs_above_dust(
    inputs: Seq<ReceivedView>,
    payments: Seq<(Seq<u8>, u64)>,
    change: Option<Seq<u8>>,
    data: Option<Seq<u8>>,
    fee_per_weight: nat,
    w0: nat,
    w1: nat,
)
    requires
        build_with(inputs, payments, change, data, fee_per_weight, w0, w1) is Ok,
        total(input_values(inputs)) <= u64::MAX,
    ensures
        ({
            let s = build_with(inputs, payments, change, data, fee_per_weight, w0, w1)->Ok_0;
            let n = payments.len();
            let taken = change_taken(total(input_values(inputs)), total(payment_values(payments)), change, fee_per_weight, w1);
            &&& forall|i: int| 0 <= i < n ==> #[trigger] s.tx.output[i].value == payments[i].1
            &&& forall|i: int| 0 <= i < n ==> #[trigger] s.tx.output[i].value >= DUST
            &&& data.is_some() ==> s.tx.output[n as int].value == 0
            &&& taken ==> s.tx.output.last().value >= DUST
            &&& s.tx.output.len() == n + (if data.is_some() { 1int } else { 0 }) + (if taken { 1int } else { 0 })
        }),
{
}

/// When change is asked for but what the change output would receive is
/// under the dust limit, no change output is made and all that is left after
/// the payments goes to the fee: the fee of the transaction with change plus
/// that leftover.
pub proof fn lemma_leftover_to_fee(
    inputs: Seq<ReceivedView>,
    payments: Seq<(Seq<u8>, u64)>,
    change: Option<Seq<u8>>,
    data: Option<Seq<u8>>,
    fee_per_weight: nat,
    w0: nat,
    w1: nat,
)
    requires
        build_with(inputs, payments, change, data, fee_per_weight, w0, w1) is Ok,
        change.is_some(),
        total(input_values(inputs)) - total(payment_values(payments)) - fee_per_weight * w1 < DUST,
    ensures
        ({
            let s = build_with(inputs, payments, change, data, fee_per_weight, w0, w1)->Ok_0;
            let in_sum = total(input_values(inputs));
            let pay_sum = total(payment_values(payments));
            let leftover = in_sum - pay_sum - fee_per_weight * w1;
            &&& s.tx.output.len() == payments.len() + (if data.is_some() { 1int } else { 0 })
            &&& in_sum - total(output_values(s.tx.output)) == fee_per_weight * w1 + leftover
            &&& s.needed_fee == (fee_per_weight * w0) as u64
        }),
{
    lemma_output_values(payments, data, None);
}

/// Building twice with the same arguments gives the same unsigned
/// transaction, offsets, spent outputs and fee, or the same error.
pub proof fn lemma_build_deterministic(
    inputs: Seq<ReceivedView>,
    payments: Seq<(Seq<u8>, u64)>,
    change: Option<Seq<u8>>,
    data: Option<Seq<u8>>,
    fee_per_weight: nat,
    first: Result<SignableTransaction, TransactionError>,
    second: Result<SignableTransaction, TransactionError>,
)
    requires
        signable_result(first) == build(inputs, payments, change, data, fee_per_weight),
        signable_result(second) == build(inputs, payments, change, data, fee_per_weight),
    ensures
        first is Ok <==> second is Ok,
        first is Ok ==> first->Ok_0@ == second->Ok_0@,
        first is Err ==> first->Err_0 == second->Err_0,
{
}

/// A built transaction has one offset and one spent output per input.
pub proof fn lemma_built_well_formed(
    inputs: Seq<ReceivedView>,
    payments: Seq<(Seq<u8>, u64)>,
    change: Option<Seq<u8>>,
    data: Option<Seq<u8>>,
    fee_per_weight: nat,
    w0: nat,
    w1: nat,
)
    requires
        build_with(inputs, payments, change, data, fee_per_weight, w0, w1) is Ok,
    ensures
        well_formed(build_with(inputs, payments, change, data, fee_per_weight, w0, w1)->Ok_0),
{
}
} // verus!
