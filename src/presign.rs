//! Pre-sign verification: does a transaction pay what the request asks,
//! with the change the caller expects, at a reasonable fee?
use vstd::prelude::*;
use crate::address::{address_class, classify_address, script_of, AddressKind, AddressModel};
use crate::error::VerificationFailure;
use crate::types::{Payment, TransactionRequest, total_of};

verus! {

/// A transparent output: a locking script and a value.
#[derive(Debug, Clone, PartialEq, Eq)]
pub struct TxOutput {
    pub script_pubkey: Vec<u8>,
    pub value: u64,
}

impl View for TxOutput {
    type V = (Seq<u8>, u64);

    open spec fn view(&self) -> (Seq<u8>, u64) {
        (self.script_pubkey@, self.value)
    }
}

pub open spec fn output_views(v: Seq<TxOutput>) -> Seq<(Seq<u8>, u64)> {
    v.map_values(|o: TxOutput| o@)
}

/// Whether an output is one of the expected change outputs.
pub open spec fn is_change(o: (Seq<u8>, u64), change: Seq<(Seq<u8>, u64)>) -> bool {
    exists|j: int| 0 <= j < change.len() && change[j] == o
}

/// The outputs that are not expected change, in order.
pub open spec fn non_change(outs: Seq<(Seq<u8>, u64)>, change: Seq<(Seq<u8>, u64)>) -> Seq<(Seq<u8>, u64)>
    decreases outs.len(),
{
    if outs.len() == 0 {
        Seq::empty()
    } else if is_change(outs.last(), change) {
        non_change(outs.drop_last(), change)
    } else {
        non_change(outs.drop_last(), change).push(outs.last())
    }
}

/// Number of outputs that are expected change.
pub open spec fn change_count(outs: Seq<(Seq<u8>, u64)>, change: Seq<(Seq<u8>, u64)>) -> nat
    decreases outs.len(),
{
    if outs.len() == 0 {
        0
    } else if is_change(outs.last(), change) {
        change_count(outs.drop_last(), change) + 1
    } else {
        change_count(outs.drop_last(), change)
    }
}

/// Sum of the values of the outputs.
pub open spec fn value_sum(outs: Seq<(Seq<u8>, u64)>) -> nat
    decreases outs.len(),
{
    if outs.len() == 0 {
        0
    } else {
        value_sum(outs.drop_last()) + outs.last().1 as nat
    }
}

/// Why a transaction fails verification.
pub enum Rejection {
    /// Too few outputs, or, with expected change, not exactly one per payment
    /// and change output.
    CountMismatch,
    /// Not exactly as many outputs match expected change as change is expected.
    ChangeMismatch,
    /// No output pays the transparent payment at this position.
    PaymentMissing(nat),
    /// The shielded payment at this position has no shielded action to go to.
    ShieldedMissing(nat),
    /// The address of the payment at this position is neither transparent nor
    /// shielded-capable.
    AddressInvalid(nat),
    /// The transparent outputs fall short of the request by more than 1%.
    InvalidFee,
}

/// Whether the payment at position `k` is found among the payment outputs.
pub open spec fn payment_rejection(p: Payment, k: nat, pay_outs: Seq<(Seq<u8>, u64)>, n_actions: nat) -> Option<
    Rejection,
> {
    match address_class(p.address@) {
        AddressModel::Transparent(t) => if exists|j: int|
            0 <= j < pay_outs.len() && pay_outs[j] == (script_of(t), p.amount) {
            None
        } else {
            Some(Rejection::PaymentMissing(k))
        },
        AddressModel::ShieldedCapable(_) => if n_actions > 0 {
            None
        } else {
            Some(Rejection::ShieldedMissing(k))
        },
        AddressModel::Invalid => Some(Rejection::AddressInvalid(k)),
    }
}

/// The first payment, from position `start` on, that is not found.
pub open spec fn first_payment_rejection(
    ps: Seq<Payment>,
    start: nat,
    pay_outs: Seq<(Seq<u8>, u64)>,
    n_actions: nat,
) -> Option<Rejection>
    decreases ps.len() - start,
{
    if start >= ps.len() {
        None
    } else {
        match payment_rejection(ps[start as int], start, pay_outs, n_actions) {
            Some(r) => Some(r),
            None => first_payment_rejection(ps, start + 1, pay_outs, n_actions),
        }
    }
}

/// The outcome of verification of a transaction with transparent outputs `outs`
/// and `n_actions` shielded actions, against the payments of a request and the
/// expected change: `None` when it passes, else the first reason to reject.
pub open spec fn rejection(
    outs: Seq<(Seq<u8>, u64)>,
    n_actions: nat,
    payments: Seq<Payment>,
    change: Seq<(Seq<u8>, u64)>,
) -> Option<Rejection> {
    let total = outs.len() + n_actions;
    let pay_outs = if change.len() == 0 { outs } else { non_change(outs, change) };
    let requested = total_of(payments);
    if change.len() == 0 && total < payments.len() {
        Some(Rejection::CountMismatch)
    } else if change.len() > 0 && total != payments.len() + change.len() {
        Some(Rejection::CountMismatch)
    } else if change.len() > 0 && change_count(outs, change) != change.len() {
        Some(Rejection::ChangeMismatch)
    } else if first_payment_rejection(payments, 0, pay_outs, n_actions) is Some {
        first_payment_rejection(payments, 0, pay_outs, n_actions)
    } else if n_actions == 0 && requested > value_sum(outs) + requested / 100 {
        Some(Rejection::InvalidFee)
    } else {
        None
    }
}

/// How a failure reports a rejection: the variant, and for a payment the
/// address it was for.
pub open spec fn reports(e: VerificationFailure, r: Rejection, payments: Seq<Payment>) -> bool {
    match r {
        Rejection::CountMismatch => e is OutputMismatch,
        Rejection::ChangeMismatch => e is ChangeMismatch,
        Rejection::PaymentMissing(k) => e is OutputMismatch && e->OutputMismatch_0@
            == payments[k as int].address@,
        Rejection::ShieldedMissing(k) => e is OutputMismatch,
        Rejection::AddressInvalid(k) => e is OutputMismatch && e->OutputMismatch_0@
            == payments[k as int].address@,
        Rejection::InvalidFee => e is InvalidFee,
    }
}

fn bytes_eq(a: &[u8], b: &[u8]) -> (r: bool)
    ensures
        r == (a@ == b@),
{
    if a.len() != b.len() {
        return false;
    }
    let mut i: usize = 0;
    while i < a.len()
        invariant
            i <= a@.len(),
            a@.len() == b@.len(),
            forall|k: int| 0 <= k < i ==> a@[k] == b@[k],
        decreases a@.len() - i,
    {
        if a[i] != b[i] {
            return false;
        }
        i = i + 1;
    }
    assert(a@ =~= b@);
    true
}

fn output_in(script: &[u8], value: u64, list: &[TxOutput]) -> (r: bool)
    ensures
        r == exists|j: int| 0 <= j < list@.len() && list@[j]@ == (script@, value),
{
    let mut j: usize = 0;
    while j < list.len()
        invariant
            j <= list@.len(),
            forall|k: int| 0 <= k < j ==> list@[k]@ != (script@, value),
        decreases list@.len() - j,
    {
        if list[j].value == value && bytes_eq(list[j].script_pubkey.as_slice(), script) {
            return true;
        }
        j = j + 1;
    }
    false
}

/// Checks the transparent outputs and shielded action count of a transaction
/// against a request and the change the caller expects.
pub fn check_outputs(
    outputs: &[TxOutput],
    num_orchard_actions: usize,
    request: &TransactionRequest,
    expected_change: &[TxOutput],
) -> (r: Result<(), VerificationFailure>)
    ensures
        match rejection(
            output_views(outputs@),
            num_orchard_actions as nat,
            request.payments@,
            output_views(expected_change@),
        ) {
            None => r is Ok,
            Some(rej) => r is Err && reports(r->Err_0, rej, request.payments@),
        },
{
    let ghost outs = output_views(outputs@);
    let ghost change = output_views(expected_change@);
    let ghost payments = request.payments@;
    let num_payments = request.payments.len();
    let n_change = expected_change.len();
    let n_out = outputs.len();
    if n_change == 0 {
        if (n_out as u128) + (num_orchard_actions as u128) < num_payments as u128 {
            return Err(VerificationFailure::OutputMismatch("fewer outputs than payments".to_string()));
        }
    } else {
        if (n_out as u128) + (num_orchard_actions as u128) != (num_payments as u128) + (n_change as u128) {
            return Err(
                VerificationFailure::OutputMismatch("output count does not match payments and change".to_string()),
            );
        }
    }
    // Partition the outputs into expected change and payment outputs.
    let mut pay_outs: Vec<TxOutput> = Vec::new();
    let mut n_matched: usize = 0;
    let mut i: usize = 0;
    while i < n_out
        invariant
            i <= n_out == outputs@.len(),
            outs == output_views(outputs@),
            change == output_views(expected_change@),
            n_matched <= i,
            n_matched == change_count(outs.subrange(0, i as int), change),
            output_views(pay_outs@) == non_change(outs.subrange(0, i as int), change),
        decreases n_out - i,
    {
        let o = &outputs[i];
        let found = output_in(o.script_pubkey.as_slice(), o.value, expected_change);
        proof {
            let pre = outs.subrange(0, i + 1);
            assert(pre.drop_last() =~= outs.subrange(0, i as int));
            assert(pre.last() == o@);
            if found {
                let j = choose|j: int| 0 <= j < expected_change@.len() && expected_change@[j]@ == (o.script_pubkey@, o.value);
                assert(change[j] == o@);
            } else {
                assert forall|j: int| 0 <= j < change.len() implies change[j] != o@ by {
                    assert(change[j] == expected_change@[j]@);
                }
            }
        }
        if found {
            n_matched = n_matched + 1;
        } else {
            let copy = TxOutput {
                script_pubkey: vstd::slice::slice_to_vec(o.script_pubkey.as_slice()),
                value: o.value,
            };
            pay_outs.push(copy);
            proof {
                assert(output_views(pay_outs@) =~= non_change(outs.subrange(0, i + 1), change));
            }
        }
        i = i + 1;
    }
    assert(outs.subrange(0, n_out as int) =~= outs);
    if n_change > 0 && n_matched != n_change {
        return Err(VerificationFailure::ChangeMismatch);
    }
    let candidates: &[TxOutput] = if n_change == 0 { outputs } else { pay_outs.as_slice() };
    let ghost pay = output_views(candidates@);
    assert(pay == if change.len() == 0 { outs } else { non_change(outs, change) });
    // Every payment must be found.
    let mut k: usize = 0;
    while k < num_payments
        invariant
            k <= num_payments == payments.len(),
            payments == request.payments@,
            pay == output_views(candidates@),
            pay == if change.len() == 0 { outs } else { non_change(outs, change) },
            outs == output_views(outputs@),
            change == output_views(expected_change@),
            !(change.len() == 0 && outs.len() + num_orchard_actions < payments.len()),
            !(change.len() > 0 && outs.len() + num_orchard_actions != payments.len() + change.len()),
            !(change.len() > 0 && change_count(outs, change) != change.len()),
            first_payment_rejection(payments, 0, pay, num_orchard_actions as nat)
                == first_payment_rejection(payments, k as nat, pay, num_orchard_actions as nat),
        decreases num_payments - k,
    {
        let p = &request.payments[k];
        match classify_address(p.address.as_str()) {
            AddressKind::Transparent(t) => {
                let script = t.script();
                let present = output_in(script.as_slice(), p.amount, candidates);
                if !present {
                    proof {
                        assert forall|j: int| 0 <= j < pay.len() implies pay[j] != (script_of(t@), p.amount) by {
                            assert(pay[j] == candidates@[j]@);
                        }
                    }
                    return Err(VerificationFailure::OutputMismatch(p.address.clone()));
                }
                proof {
                    let j = choose|j: int| 0 <= j < candidates@.len() && candidates@[j]@ == (script@, p.amount);
                    assert(pay[j] == (script_of(t@), p.amount));
                }
            },
            AddressKind::ShieldedCapable(_) => {
                if num_orchard_actions == 0 {
                    return Err(
                        VerificationFailure::OutputMismatch(
                            "shielded payment requested but no shielded actions found".to_string(),
                        ),
                    );
                }
            },
            AddressKind::Invalid => {
                return Err(VerificationFailure::OutputMismatch(p.address.clone()));
            },
        }
        k = k + 1;
    }
    // The transparent outputs may fall short of the request by at most 1%.
    if num_orchard_actions == 0 {
        let mut out_total: u128 = 0;
        let mut i: usize = 0;
        while i < n_out
            invariant
                i <= n_out == outputs@.len(),
                outs == output_views(outputs@),
                out_total == value_sum(outs.subrange(0, i as int)),
                out_total <= i * 0xffff_ffff_ffff_ffffu128,
            decreases n_out - i,
        {
            proof {
                let pre = outs.subrange(0, i + 1);
                assert(pre.drop_last() =~= outs.subrange(0, i as int));
            }
            out_total = out_total + outputs[i].value as u128;
            i = i + 1;
        }
        assert(outs.subrange(0, n_out as int) =~= outs);
        let mut requested: u128 = 0;
        let mut k: usize = 0;
        while k < num_payments
            invariant
                k <= num_payments == payments.len(),
                payments == request.payments@,
                requested == total_of(payments.subrange(0, k as int)),
                requested <= k * 0xffff_ffff_ffff_ffffu128,
            decreases num_payments - k,
        {
            proof {
                let pre = payments.subrange(0, k + 1);
                assert(pre.drop_last() =~= payments.subrange(0, k as int));
            }
            requested = requested + request.payments[k].amount as u128;
            k = k + 1;
        }
        assert(payments.subrange(0, num_payments as int) =~= payments);
        if requested - requested / 100 > out_total {
            return Err(VerificationFailure::InvalidFee);
        }
    }
    Ok(())
}

} // verus!
