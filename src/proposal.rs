//! The proposal: from spendable coins and a payment request to the list of
//! inputs and outputs of a transaction, with change when there is any.
use vstd::prelude::*;
use vstd::utf8::encode_utf8;
use crate::address::{
    address_class, classify_address, AddressKind, AddressModel, TransparentReceiver,
};
use crate::error::ProposalError;
use zcash_transparent::address::TransparentAddress;
use crate::fee::{calculate_fee, fee_for};
use crate::address::script_of;
use crate::presign::{first_payment_rejection, payment_rejection, rejection, value_sum};
use crate::types::{valid_pubkey, Payment, TransactionRequest, TransparentInput, total_of};

verus! {

/// Largest amount of money that can exist: 21 million coins of 10^8 units.
pub const MAX_MONEY: u64 = 2_100_000_000_000_000;

/// Largest memo a shielded output carries, in bytes.
pub const MAX_MEMO_LEN: usize = 512;

/// A transparent output to create.
#[derive(Debug, Clone, Copy, PartialEq, Eq)]
pub struct PlannedTransparentOutput {
    pub receiver: TransparentReceiver,
    pub amount: u64,
}

/// A shielded output to create.
#[derive(Debug, Clone)]
pub struct PlannedOrchardOutput {
    /// Raw bytes of the Orchard receiver.
    pub receiver: [u8; 43],
    pub amount: u64,
    /// Memo bytes, when the payment has a memo that fits.
    pub memo: Option<Vec<u8>>,
}

/// What a transaction is made of, before it is built.
pub struct TransactionPlan {
    /// Coins to spend, in the order given.
    pub inputs: Vec<TransparentInput>,
    /// Transparent payments in request order, then the change output if any.
    pub transparent_outputs: Vec<PlannedTransparentOutput>,
    /// Shielded payments in request order.
    pub orchard_outputs: Vec<PlannedOrchardOutput>,
    /// The fee estimated for the transaction with one change output.
    pub estimated_fee: u64,
    /// The value of the change output, if one was added.
    pub change: Option<u64>,
}

/// Sum of the amounts of the inputs.
pub open spec fn input_total(inputs: Seq<TransparentInput>) -> nat
    decreases inputs.len(),
{
    if inputs.len() == 0 {
        0
    } else {
        input_total(inputs.drop_last()) + inputs.last().amount as nat
    }
}

/// The transparent payments of a request, as (receiver, amount), in order.
pub open spec fn transparent_payments(ps: Seq<Payment>) -> Seq<((bool, Seq<u8>), u64)>
    decreases ps.len(),
{
    if ps.len() == 0 {
        Seq::empty()
    } else {
        match address_class(ps.last().address@) {
            AddressModel::Transparent(t) => transparent_payments(ps.drop_last()).push(
                (t, ps.last().amount),
            ),
            _ => transparent_payments(ps.drop_last()),
        }
    }
}

/// The shielded payments of a request, as (receiver bytes, amount, memo), in
/// order.
pub open spec fn shielded_payments(ps: Seq<Payment>) -> Seq<(Seq<u8>, u64, Option<Seq<u8>>)>
    decreases ps.len(),
{
    if ps.len() == 0 {
        Seq::empty()
    } else {
        match address_class(ps.last().address@) {
            AddressModel::ShieldedCapable(b) => shielded_payments(ps.drop_last()).push(
                (b, ps.last().amount, memo_bytes(ps.last())),
            ),
            _ => shielded_payments(ps.drop_last()),
        }
    }
}

/// Every payment goes to a transparent or shielded-capable address, for an
/// amount that can exist.
pub open spec fn payments_valid(ps: Seq<Payment>) -> bool {
    forall|k: int|
        0 <= k < ps.len() ==> !(address_class((#[trigger] ps[k]).address@) is Invalid)
            && ps[k].amount <= MAX_MONEY
}

pub open spec fn inputs_valid(inputs: Seq<TransparentInput>) -> bool {
    forall|k: int| 0 <= k < inputs.len() ==> (#[trigger] inputs[k]).amount <= MAX_MONEY
}

/// The fee estimated for a request: the transaction's counts with one change
/// output.
pub open spec fn estimated_fee_for(n_inputs: nat, ps: Seq<Payment>) -> nat {
    fee_for(n_inputs, transparent_payments(ps).len() + 1, shielded_payments(ps).len())
}

pub open spec fn planned_views(v: Seq<PlannedTransparentOutput>) -> Seq<((bool, Seq<u8>), u64)> {
    v.map_values(|o: PlannedTransparentOutput| (o.receiver@, o.amount))
}

pub open spec fn orchard_views(v: Seq<PlannedOrchardOutput>) -> Seq<(Seq<u8>, u64, Option<Seq<u8>>)> {
    v.map_values(
        |o: PlannedOrchardOutput|
            (
                o.receiver@,
                o.amount,
                match o.memo {
                    Some(m) => Some(m@),
                    None => None,
                },
            ),
    )
}

/// The memo a shielded payment carries: the UTF-8 bytes of its memo when they
/// fit in a memo field, nothing otherwise.
pub open spec fn memo_bytes(p: Payment) -> Option<Seq<u8>> {
    match p.memo {
        Some(m) => if encode_utf8(m@).len() <= 512 {
            Some(encode_utf8(m@))
        } else {
            None
        },
        None => None,
    }
}

/// The P2PKH hash of a public key.
pub uninterp spec fn pubkey_hash_of(pubkey: Seq<u8>) -> Seq<u8>;

/// Relies on `secp256k1::PublicKey::from_slice` and
/// `zcash_transparent::address::TransparentAddress::from_pubkey`: the key is
/// accepted exactly when it is valid, the address is always a public key
/// hash, and the hash depends on the key alone.
#[verifier::external_body]
fn p2pkh_hash(pubkey: &[u8; 33]) -> (r: Option<[u8; 20]>)
    ensures
        r is Some <==> valid_pubkey(pubkey@),
        r matches Some(h) ==> h@ == pubkey_hash_of(pubkey@),
{
    let key = secp256k1::PublicKey::from_slice(pubkey).ok()?;
    match TransparentAddress::from_pubkey(&key) {
        TransparentAddress::PublicKeyHash(h) => Some(h),
        TransparentAddress::ScriptHash(_) => None,
    }
}

/// Whether the fee of a transaction of this shape fits in 64 bits.
pub fn fee_fits(n_in: usize, n_out: usize, n_shielded: usize) -> (r: bool)
    ensures
        r == (fee_for(n_in as nat, n_out as nat, n_shielded as nat) <= u64::MAX),
{
    let t: u128 = if n_in >= n_out { n_in as u128 } else { n_out as u128 };
    let logical: u128 = if n_shielded > 0 {
        let padded: u128 = if n_shielded % 2 == 0 { n_shielded as u128 } else { n_shielded as u128 + 1 };
        t + padded
    } else {
        t
    };
    let charged: u128 = if logical >= 2 { logical } else { 2 };
    charged <= (u64::MAX / 5000) as u128
}

/// The transparent receiver of the change output: the given change address,
/// or else the P2PKH address of the first input's key.
pub open spec fn change_receiver(change_address: Option<Seq<char>>, inputs: Seq<TransparentInput>) -> (
    bool,
    Seq<u8>,
) {
    match change_address {
        Some(a) => address_class(a)->Transparent_0,
        None => (false, pubkey_hash_of(inputs[0].pubkey@)),
    }
}

/// The characters of an optional address.
pub open spec fn str_view(a: Option<&str>) -> Option<Seq<char>> {
    match a {
        Some(s) => Some(s@),
        None => None,
    }
}

/// Whether change can be sent: to a transparent change address if one is
/// given, else to the first input's key, which must be valid.
pub open spec fn change_possible(change_address: Option<Seq<char>>, inputs: Seq<TransparentInput>) -> bool {
    match change_address {
        Some(a) => address_class(a) is Transparent,
        None => inputs.len() > 0 && valid_pubkey(inputs[0].pubkey@),
    }
}

/// Whether the inputs pay for the payments and the estimated fee with some
/// value left over.
pub open spec fn change_needed(inputs: Seq<TransparentInput>, ps: Seq<Payment>) -> bool {
    input_total(inputs) > total_of(ps) + estimated_fee_for(inputs.len(), ps)
}

pub open spec fn change_value(inputs: Seq<TransparentInput>, ps: Seq<Payment>) -> int {
    input_total(inputs) - total_of(ps) - estimated_fee_for(inputs.len(), ps)
}

/// Whether a request can be planned from these inputs.
pub open spec fn plannable(
    inputs: Seq<TransparentInput>,
    ps: Seq<Payment>,
    change_address: Option<Seq<char>>,
) -> bool {
    &&& ps.len() > 0
    &&& payments_valid(ps)
    &&& inputs_valid(inputs)
    &&& transparent_payments(ps).len() < usize::MAX
    &&& estimated_fee_for(inputs.len(), ps) <= u64::MAX
    &&& change_needed(inputs, ps) ==> change_possible(change_address, inputs) && change_value(
        inputs,
        ps,
    ) <= MAX_MONEY
}

/// Why a request cannot be planned from given inputs.
pub enum PlanFault {
    NoPayments,
    /// The payment at this position has an address that is neither
    /// transparent nor shielded-capable.
    BadAddress(nat),
    /// The payment at this position asks for more than can exist.
    BadAmount(nat),
    /// An input holds more than can exist.
    BadInputAmount,
    /// The fee does not fit in 64 bits.
    FeeOverflow,
    /// Change is due and the change address is shielded-capable.
    ChangeShielded,
    /// Change is due and the change address does not decode.
    ChangeAddressInvalid,
    /// Change is due to the first input's key, and there is no valid one.
    NoChangeKey,
    /// Change is due and exceeds what can exist.
    ChangeTooLarge,
}

/// The first payment, from position `start` on, that cannot be planned.
pub open spec fn first_payment_fault(ps: Seq<Payment>, start: nat) -> Option<PlanFault>
    decreases ps.len() - start,
{
    if start >= ps.len() {
        None
    } else if address_class(ps[start as int].address@) is Invalid {
        Some(PlanFault::BadAddress(start))
    } else if ps[start as int].amount > MAX_MONEY {
        Some(PlanFault::BadAmount(start))
    } else {
        first_payment_fault(ps, start + 1)
    }
}

/// The first reason, in the order the planner looks, why a request cannot
/// be planned; `None` when it can.
pub open spec fn plan_fault(
    inputs: Seq<TransparentInput>,
    ps: Seq<Payment>,
    change_address: Option<Seq<char>>,
) -> Option<PlanFault> {
    if ps.len() == 0 {
        Some(PlanFault::NoPayments)
    } else if first_payment_fault(ps, 0) is Some {
        first_payment_fault(ps, 0)
    } else if !inputs_valid(inputs) {
        Some(PlanFault::BadInputAmount)
    } else if !(transparent_payments(ps).len() < usize::MAX && estimated_fee_for(inputs.len(), ps)
        <= u64::MAX) {
        Some(PlanFault::FeeOverflow)
    } else if !change_needed(inputs, ps) {
        None
    } else {
        let key_fault = match change_address {
            Some(a) => match address_class(a) {
                AddressModel::Transparent(_) => None,
                AddressModel::ShieldedCapable(_) => Some(PlanFault::ChangeShielded),
                AddressModel::Invalid => Some(PlanFault::ChangeAddressInvalid),
            },
            None => if inputs.len() == 0 || !valid_pubkey(inputs[0].pubkey@) {
                Some(PlanFault::NoChangeKey)
            } else {
                None
            },
        };
        if key_fault is Some {
            key_fault
        } else if change_value(inputs, ps) > MAX_MONEY {
            Some(PlanFault::ChangeTooLarge)
        } else {
            None
        }
    }
}

/// How a planning error reports a fault: an address fault names the address,
/// a fee overflow is a fee error, the rest are invalid requests.
pub open spec fn fault_reported(
    e: ProposalError,
    f: PlanFault,
    ps: Seq<Payment>,
    change_address: Option<Seq<char>>,
) -> bool {
    match f {
        PlanFault::BadAddress(k) => e is InvalidAddress && e->InvalidAddress_0@ == ps[k as int].address@,
        PlanFault::ChangeAddressInvalid => e is InvalidAddress && Some(e->InvalidAddress_0@)
            == change_address,
        PlanFault::FeeOverflow => e is FeeCalculation,
        _ => e is InvalidRequest,
    }
}

/// Plans a transaction: the inputs in the order given; one output per payment,
/// transparent or shielded by its address, for its exact amount; the fee
/// estimated with one change output; and a transparent change output for what
/// is left, when the inputs exceed the payments and that fee.
pub fn plan_transaction(
    inputs: Vec<TransparentInput>,
    request: &TransactionRequest,
    change_address: Option<&str>,
) -> (r: Result<TransactionPlan, ProposalError>)
    ensures
        request.payments@.len() == 0 ==> r matches Err(ProposalError::InvalidRequest(_)),
        r is Ok <==> plannable(inputs@, request.payments@, str_view(change_address)),
        match plan_fault(inputs@, request.payments@, str_view(change_address)) {
            None => r is Ok,
            Some(f) => r is Err && fault_reported(r->Err_0, f, request.payments@, str_view(change_address)),
        },
        r matches Ok(plan) ==> {
            let ps = request.payments@;
            &&& plan.inputs@ == inputs@
            &&& plan.estimated_fee == estimated_fee_for(inputs@.len(), ps)
            &&& orchard_views(plan.orchard_outputs@) == shielded_payments(ps)
            &&& if change_needed(inputs@, ps) {
                &&& plan.change == Some(change_value(inputs@, ps) as u64)
                &&& planned_views(plan.transparent_outputs@) == transparent_payments(ps).push(
                    (change_receiver(str_view(change_address), inputs@), change_value(inputs@, ps) as u64),
                )
            } else {
                &&& plan.change is None
                &&& planned_views(plan.transparent_outputs@) == transparent_payments(ps)
            }
        },
{
    let ghost ps = request.payments@;
    let num_payments = request.payments.len();
    if num_payments == 0 {
        return Err(ProposalError::InvalidRequest("no payments provided".to_string()));
    }
    // Outputs, one per payment.
    let mut t_outs: Vec<PlannedTransparentOutput> = Vec::new();
    let mut o_outs: Vec<PlannedOrchardOutput> = Vec::new();
    let mut total_out: u128 = 0;
    let mut k: usize = 0;
    while k < num_payments
        invariant
            k <= num_payments == ps.len(),
            ps == request.payments@,
            payments_valid(ps.subrange(0, k as int)),
            planned_views(t_outs@) == transparent_payments(ps.subrange(0, k as int)),
            orchard_views(o_outs@) == shielded_payments(ps.subrange(0, k as int)),
            total_out == total_of(ps.subrange(0, k as int)),
            total_out <= k * MAX_MONEY,
            first_payment_fault(ps, 0) == first_payment_fault(ps, k as nat),
        decreases num_payments - k,
    {
        let p = &request.payments[k];
        let ghost pre = ps.subrange(0, k + 1);
        proof {
            assert(pre.drop_last() =~= ps.subrange(0, k as int));
            assert(pre.last() == ps[k as int]);
        }
        let kind = classify_address(p.address.as_str());
        if let AddressKind::Invalid = kind {
            proof {
                assert(ps[k as int] == p);
                assert(!payments_valid(ps));
            }
            return Err(ProposalError::InvalidAddress(p.address.clone()));
        }
        if p.amount > MAX_MONEY {
            proof {
                assert(ps[k as int] == p);
                assert(!payments_valid(ps));
            }
            return Err(ProposalError::InvalidRequest("amount exceeds the money supply".to_string()));
        }
        match kind {
            AddressKind::Transparent(t) => {
                t_outs.push(PlannedTransparentOutput { receiver: t, amount: p.amount });
                proof {
                    assert(planned_views(t_outs@) =~= transparent_payments(pre));
                    assert(orchard_views(o_outs@) =~= shielded_payments(pre));
                }
            },
            AddressKind::ShieldedCapable(b) => {
                let memo: Option<Vec<u8>> = match &p.memo {
                    Some(m) => {
                        let bytes = m.as_str().as_bytes();
                        if bytes.len() <= MAX_MEMO_LEN {
                            Some(vstd::slice::slice_to_vec(bytes))
                        } else {
                            None
                        }
                    },
                    None => None,
                };
                o_outs.push(PlannedOrchardOutput { receiver: b, amount: p.amount, memo });
                proof {
                    assert(planned_views(t_outs@) =~= transparent_payments(pre));
                    assert(orchard_views(o_outs@) =~= shielded_payments(pre));
                }
            },
            AddressKind::Invalid => {},
        }
        total_out = total_out + p.amount as u128;
        proof {
            assert forall|j: int| 0 <= j < pre.len() implies !(address_class((#[trigger] pre[j]).address@) is Invalid)
                && pre[j].amount <= MAX_MONEY by {
                if j < k {
                    assert(pre[j] == ps.subrange(0, k as int)[j]);
                }
            }
        }
        k = k + 1;
    }
    assert(ps.subrange(0, num_payments as int) =~= ps);
    assert(first_payment_fault(ps, num_payments as nat) is None);
    // Inputs, and their total.
    let n_inputs = inputs.len();
    let mut total_in: u128 = 0;
    let mut i: usize = 0;
    while i < n_inputs
        invariant
            i <= n_inputs == inputs@.len(),
            forall|j: int| 0 <= j < i ==> (#[trigger] inputs@[j]).amount <= MAX_MONEY,
            total_in == input_total(inputs@.subrange(0, i as int)),
            total_in <= i * MAX_MONEY,
            ps == request.payments@,
            ps.len() > 0,
            first_payment_fault(ps, 0) is None,
        decreases n_inputs - i,
    {
        proof {
            assert(inputs@.subrange(0, i + 1).drop_last() =~= inputs@.subrange(0, i as int));
        }
        if inputs[i].amount > MAX_MONEY {
            return Err(ProposalError::InvalidRequest("input amount exceeds the money supply".to_string()));
        }
        total_in = total_in + inputs[i].amount as u128;
        i = i + 1;
    }
    assert(inputs@.subrange(0, n_inputs as int) =~= inputs@);
    // The fee, counting one change output.
    let n_transparent = t_outs.len();
    let n_orchard = o_outs.len();
    proof {
        assert(transparent_payments(ps).len() == n_transparent);
        assert(shielded_payments(ps).len() == n_orchard);
    }
    if n_transparent >= usize::MAX || !fee_fits(n_inputs, n_transparent + 1, n_orchard) {
        proof {
            assert(n_transparent <= ps.len()) by {
                lemma_transparent_payments_len(ps);
            }
        }
        return Err(ProposalError::FeeCalculation("fee does not fit in 64 bits".to_string()));
    }
    let estimated_fee = calculate_fee(n_inputs, n_transparent + 1, n_orchard);
    let mut change: Option<u64> = None;
    if total_in > total_out + estimated_fee as u128 {
        let change_amount = total_in - total_out - estimated_fee as u128;
        let receiver = match change_address {
            Some(a) => match classify_address(a) {
                AddressKind::Transparent(t) => t,
                AddressKind::ShieldedCapable(_) => {
                    return Err(ProposalError::InvalidRequest("change address must be transparent".to_string()));
                },
                AddressKind::Invalid => {
                    return Err(ProposalError::InvalidAddress(a.to_owned()));
                },
            },
            None => {
                if n_inputs == 0 {
                    return Err(
                        ProposalError::InvalidRequest("no inputs to derive a change address from".to_string()),
                    );
                }
                match p2pkh_hash(&inputs[0].pubkey) {
                    Some(h) => TransparentReceiver::PublicKeyHash(h),
                    None => {
                        return Err(ProposalError::InvalidRequest("invalid key for change".to_string()));
                    },
                }
            },
        };
        if change_amount > MAX_MONEY as u128 {
            return Err(ProposalError::InvalidRequest("change exceeds the money supply".to_string()));
        }
        let ghost before = t_outs@;
        t_outs.push(PlannedTransparentOutput { receiver, amount: change_amount as u64 });
        proof {
            assert(planned_views(t_outs@) =~= planned_views(before).push(
                (change_receiver(str_view(change_address), inputs@), change_value(inputs@, ps) as u64),
            ));
        }
        change = Some(change_amount as u64);
    }
    Ok(TransactionPlan { inputs, transparent_outputs: t_outs, orchard_outputs: o_outs, estimated_fee, change })
}

proof fn lemma_transparent_payments_len(ps: Seq<Payment>)
    ensures
        transparent_payments(ps).len() <= ps.len(),
    decreases ps.len(),
{
    if ps.len() > 0 {
        lemma_transparent_payments_len(ps.drop_last());
    }
}

/// The planned transparent outputs as (script, value).
pub open spec fn planned_scripts(outs: Seq<((bool, Seq<u8>), u64)>) -> Seq<(Seq<u8>, u64)> {
    outs.map_values(|o: ((bool, Seq<u8>), u64)| (script_of(o.0), o.1))
}

/// The transparent outputs that [`plan_transaction`] plans for a request.
pub open spec fn planned_transparent(
    inputs: Seq<TransparentInput>,
    ps: Seq<Payment>,
    change_address: Option<Seq<char>>,
) -> Seq<((bool, Seq<u8>), u64)> {
    if change_needed(inputs, ps) {
        transparent_payments(ps).push(
            (change_receiver(change_address, inputs), change_value(inputs, ps) as u64),
        )
    } else {
        transparent_payments(ps)
    }
}

proof fn lemma_valid_prefix(ps: Seq<Payment>)
    requires
        ps.len() > 0,
        payments_valid(ps),
    ensures
        payments_valid(ps.drop_last()),
{
    assert forall|k: int| 0 <= k < ps.drop_last().len() implies !(address_class(
        (#[trigger] ps.drop_last()[k]).address@,
    ) is Invalid) && ps.drop_last()[k].amount <= MAX_MONEY by {
        assert(ps.drop_last()[k] == ps[k]);
    }
}

proof fn lemma_payment_split(ps: Seq<Payment>)
    requires
        payments_valid(ps),
    ensures
        transparent_payments(ps).len() + shielded_payments(ps).len() == ps.len(),
    decreases ps.len(),
{
    if ps.len() > 0 {
        lemma_valid_prefix(ps);
        lemma_payment_split(ps.drop_last());
        assert(!(address_class(ps[ps.len() - 1].address@) is Invalid));
    }
}

proof fn lemma_transparent_payment_listed(ps: Seq<Payment>, k: int)
    requires
        0 <= k < ps.len(),
        address_class(ps[k].address@) is Transparent,
    ensures
        exists|j: int|
            0 <= j < transparent_payments(ps).len() && transparent_payments(ps)[j] == (
                address_class(ps[k].address@)->Transparent_0,
                ps[k].amount,
            ),
    decreases ps.len(),
{
    let last = ps.len() - 1;
    if k == last {
        let tp = transparent_payments(ps);
        assert(tp[tp.len() - 1] == (address_class(ps[k].address@)->Transparent_0, ps[k].amount));
    } else {
        assert(ps.drop_last()[k] == ps[k]);
        lemma_transparent_payment_listed(ps.drop_last(), k);
        let j = choose|j: int|
            0 <= j < transparent_payments(ps.drop_last()).len() && transparent_payments(
                ps.drop_last(),
            )[j] == (address_class(ps[k].address@)->Transparent_0, ps[k].amount);
        assert(transparent_payments(ps)[j] == transparent_payments(ps.drop_last())[j]);
    }
}

proof fn lemma_shielded_payment_listed(ps: Seq<Payment>, k: int)
    requires
        0 <= k < ps.len(),
        address_class(ps[k].address@) is ShieldedCapable,
    ensures
        shielded_payments(ps).len() > 0,
    decreases ps.len(),
{
    if k < ps.len() - 1 {
        assert(ps.drop_last()[k] == ps[k]);
        lemma_shielded_payment_listed(ps.drop_last(), k);
    }
}

proof fn lemma_transparent_total(ps: Seq<Payment>)
    requires
        payments_valid(ps),
        shielded_payments(ps).len() == 0,
    ensures
        value_sum(planned_scripts(transparent_payments(ps))) == total_of(ps),
    decreases ps.len(),
{
    if ps.len() > 0 {
        lemma_valid_prefix(ps);
        let pre = ps.drop_last();
        assert(shielded_payments(pre).len() == 0) by {
            if address_class(ps.last().address@) is ShieldedCapable {
                assert(shielded_payments(ps).len() == shielded_payments(pre).len() + 1);
            }
        }
        lemma_transparent_total(pre);
        assert(!(address_class(ps[ps.len() - 1].address@) is Invalid));
        let t = address_class(ps.last().address@)->Transparent_0;
        let tp = transparent_payments(pre);
        assert(planned_scripts(tp.push((t, ps.last().amount))).drop_last() =~= planned_scripts(tp));
    } else {
        assert(planned_scripts(transparent_payments(ps)) =~= Seq::<(Seq<u8>, u64)>::empty());
    }
}

proof fn lemma_no_rejection_from(ps: Seq<Payment>, start: nat, outs: Seq<(Seq<u8>, u64)>, n: nat)
    requires
        forall|k: int| start <= k < ps.len() ==> (#[trigger] payment_rejection(ps[k], k as nat, outs, n)) is None,
    ensures
        first_payment_rejection(ps, start, outs, n) is None,
    decreases ps.len() - start,
{
    if start < ps.len() {
        let k = start as int;
        assert(payment_rejection(ps[k], k as nat, outs, n) is None);
        assert(k as nat == start);
        lemma_no_rejection_from(ps, start + 1, outs, n);
    }
}

/// A plan passes pre-sign verification: the transparent outputs that a
/// request is planned into, together with at least one shielded action per
/// shielded payment, are accepted against that request when no change is
/// declared.
pub proof fn lemma_proposal_passes_check(inputs: Seq<TransparentInput>, ps: Seq<Payment>, n_actions: nat)
    requires
        plannable(inputs, ps, None),
        n_actions >= shielded_payments(ps).len(),
    ensures
        rejection(
            planned_scripts(planned_transparent(inputs, ps, None)),
            n_actions,
            ps,
            Seq::empty(),
        ) is None,
{
    let planned = planned_transparent(inputs, ps, None);
    let outs = planned_scripts(planned);
    let tp = transparent_payments(ps);
    let n = n_actions;
    lemma_payment_split(ps);
    assert(outs.len() >= tp.len());
    // Every payment is found.
    assert forall|k: int| 0 <= k < ps.len() implies (#[trigger] payment_rejection(
        ps[k],
        k as nat,
        outs,
        n,
    )) is None by {
        assert(!(address_class(ps[k].address@) is Invalid));
        if address_class(ps[k].address@) is Transparent {
            lemma_transparent_payment_listed(ps, k);
            let t = address_class(ps[k].address@)->Transparent_0;
            let j = choose|j: int| 0 <= j < tp.len() && tp[j] == (t, ps[k].amount);
            assert(planned[j] == tp[j]);
            assert(outs[j] == (script_of(t), ps[k].amount));
        } else {
            lemma_shielded_payment_listed(ps, k);
        }
    }
    lemma_no_rejection_from(ps, 0, outs, n);
    // Without shielded payments, the outputs pay at least the request.
    if n == 0 {
        assert(shielded_payments(ps).len() == 0);
        lemma_transparent_total(ps);
        if change_needed(inputs, ps) {
            let c = (change_receiver(None, inputs), change_value(inputs, ps) as u64);
            assert(planned_scripts(tp.push(c)).drop_last() =~= planned_scripts(tp));
        }
        assert(value_sum(outs) >= total_of(ps));
    }
}

} // verus!
