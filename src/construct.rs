//! Building the record of a planned transaction: the transaction builder
//! takes the planned inputs and outputs, the record is created from its
//! result, each input is given its public key, and inputs and outputs are
//! then fixed.
use vstd::prelude::*;
use pczt::Pczt;
use pczt::roles::creator::Creator;
use pczt::roles::io_finalizer::IoFinalizer;
use pczt::roles::updater::Updater;
use zcash_primitives::transaction::builder::{BuildConfig, Builder, BundlePadding};
use zcash_primitives::transaction::fees::zip317::FeeRule;
use zcash_protocol::consensus::{BlockHeight, Network};
use zcash_protocol::memo::MemoBytes;
use zcash_protocol::value::Zatoshis;
use zcash_transparent::address::{Script, TransparentAddress};
use zcash_transparent::bundle::{OutPoint, TxOut};
use crate::address::{orchard_receiver_is_valid, script_of, valid_orchard_receiver, TransparentReceiver};
use crate::dto::{
    input_preimages_of, input_signers_of, orchard_actions_of, record_chain_of, transparent_inputs_of,
    transparent_outputs_of,
};
use crate::presign::rejection;
use crate::error::ProposalError;
use crate::proposal::{
    pubkey_hash_of,
    fault_reported, lemma_proposal_passes_check, plan_fault, plan_transaction, plannable, planned_scripts, planned_transparent, planned_views, shielded_payments,
    str_view, PlannedOrchardOutput, PlannedTransparentOutput, TransactionPlan, MAX_MEMO_LEN, MAX_MONEY,
};
use crate::types::{
    decode_input_list, input_models, parse_transparent_inputs, pubkey_is_valid, valid_pubkey,
    InputCodecError, InputModel, Payment, TransactionRequest, TransparentInput,
};

verus! {

#[verifier::external_type_specification]
#[verifier::external_body]
#[verifier::reject_recursive_types(P)]
#[verifier::reject_recursive_types(U)]
pub struct ExBuilder<P, U>(Builder<P, U>);

#[verifier::external_type_specification]
#[verifier::external_body]
pub struct ExNetwork(Network);

#[verifier::external_type_specification]
#[verifier::external_body]
pub struct ExScript(Script);

/// Target height used on the main network when the request gives none.
pub const DEFAULT_MAINNET_HEIGHT: u32 = 2_500_000;

/// Target height used on the test network when the request gives none.
pub const DEFAULT_TESTNET_HEIGHT: u32 = 3_693_760;

/// The transparent inputs given to a builder, as (txid, output index, value).
pub uninterp spec fn builder_inputs(b: Builder<Network, ()>) -> Seq<(Seq<u8>, u32, u64)>;

/// The network (main when set) and target height a builder was made for.
pub uninterp spec fn builder_target(b: Builder<Network, ()>) -> (bool, u32);

/// The consensus branch id active at a height of the main (when set) or test
/// network.
pub uninterp spec fn branch_id_for(mainnet: bool, height: u32) -> u32;

/// Blocks after the target height at which a built transaction expires.
pub open spec fn expiry_delta() -> nat {
    40
}

/// The consensus branch id and expiry height of a transaction built for a
/// network and target height.
pub open spec fn chain_fields_for(mainnet: bool, height: u32) -> (u32, u32) {
    (
        branch_id_for(mainnet, height),
        if height + expiry_delta() > u32::MAX { u32::MAX } else { (height + expiry_delta()) as u32 },
    )
}

/// The transparent outputs given to a builder, as (script, value).
pub uninterp spec fn builder_transparent_outputs(b: Builder<Network, ()>) -> Seq<(Seq<u8>, u64)>;

/// The Orchard outputs given to a builder, as (raw receiver, value).
pub uninterp spec fn builder_orchard_outputs(b: Builder<Network, ()>) -> Seq<(Seq<u8>, u64)>;

/// Relies on `zcash_primitives::transaction::builder::Builder::new`, for the
/// given network and height, with an empty Orchard anchor and default
/// padding: the builder starts with no inputs and no outputs, and keeps the
/// network and height.
#[verifier::external_body]
fn new_builder(use_mainnet: bool, target_height: u32) -> (r: Builder<Network, ()>)
    ensures
        builder_target(r) == (use_mainnet, target_height),
        builder_inputs(r) == Seq::<(Seq<u8>, u32, u64)>::empty(),
        builder_transparent_outputs(r) == Seq::<(Seq<u8>, u64)>::empty(),
        builder_orchard_outputs(r) == Seq::<(Seq<u8>, u64)>::empty(),
{
    let params = if use_mainnet { Network::MainNetwork } else { Network::TestNetwork };
    Builder::new(params, BlockHeight::from_u32(target_height), BuildConfig::Standard {
        sapling_anchor: None,
        orchard_anchor: Some(orchard::Anchor::empty_tree()),
        ironwood_anchor: None,
        orchard_padding: BundlePadding::DEFAULT,
        ironwood_padding: BundlePadding::DEFAULT,
    })
}

/// Relies on `zcash_transparent::address::Script::read`, given the bytes with
/// their length prefix written by `zcash_encoding::CompactSize::write`.
#[verifier::external_body]
fn script_from_bytes(bytes: &[u8]) -> Option<Script> {
    let mut prefixed = Vec::new();
    zcash_encoding::CompactSize::write(&mut prefixed, bytes.len()).ok()?;
    prefixed.extend_from_slice(bytes);
    Script::read(&prefixed[..]).ok()
}

/// Relies on `Builder::add_transparent_p2pkh_input`, given the key, the
/// outpoint and the coin of the input: on success the input is appended;
/// outputs are untouched.
#[verifier::external_body]
fn builder_add_input(builder: &mut Builder<Network, ()>, input: &TransparentInput, script: Script) -> (r: Result<(), String>)
    requires
        valid_pubkey(input.pubkey@),
        input.amount <= MAX_MONEY,
    ensures
        r is Ok ==> builder_inputs(*final(builder)) == builder_inputs(*old(builder)).push(
            (input.txid@, input.vout, input.amount),
        ),
        builder_target(*final(builder)) == builder_target(*old(builder)),
        builder_transparent_outputs(*final(builder)) == builder_transparent_outputs(*old(builder)),
        builder_orchard_outputs(*final(builder)) == builder_orchard_outputs(*old(builder)),
{
    let key = secp256k1::PublicKey::from_slice(&input.pubkey).map_err(|e| format!("{:?}", e))?;
    let coin = TxOut::new(Zatoshis::const_from_u64(input.amount), script);
    builder.add_transparent_p2pkh_input(key, OutPoint::new(input.txid, input.vout), coin)
        .map_err(|e| format!("{:?}", e))
}

/// Relies on `Builder::add_transparent_output`, which always appends an output
/// paying the receiver's script.
#[verifier::external_body]
fn builder_add_transparent_output(
    builder: &mut Builder<Network, ()>,
    receiver: &TransparentReceiver,
    amount: u64,
) -> (r: Result<(), String>)
    requires
        amount <= MAX_MONEY,
    ensures
        r is Ok,
        builder_target(*final(builder)) == builder_target(*old(builder)),
        builder_inputs(*final(builder)) == builder_inputs(*old(builder)),
        builder_transparent_outputs(*final(builder)) == builder_transparent_outputs(*old(builder)).push(
            (script_of(receiver@), amount),
        ),
        builder_orchard_outputs(*final(builder)) == builder_orchard_outputs(*old(builder)),
{
    let to = match receiver {
        TransparentReceiver::PublicKeyHash(h) => TransparentAddress::PublicKeyHash(*h),
        TransparentReceiver::ScriptHash(h) => TransparentAddress::ScriptHash(*h),
    };
    builder.add_transparent_output(&to, Zatoshis::const_from_u64(amount)).map_err(|e| format!("{:?}", e))
}

/// Relies on `Builder::add_orchard_output`, with no outgoing viewing key, and
/// on `MemoBytes::from_bytes`, which takes memos of at most 512 bytes: on
/// success the output is appended; transparent inputs and outputs are
/// untouched.
#[verifier::external_body]
fn builder_add_orchard_output(
    builder: &mut Builder<Network, ()>,
    receiver: &[u8; 43],
    amount: u64,
    memo: &Option<Vec<u8>>,
) -> (r: Result<(), String>)
    requires
        valid_orchard_receiver(receiver@),
        amount <= MAX_MONEY,
        memo matches Some(m) ==> m@.len() <= 512,
    ensures
        builder_target(*final(builder)) == builder_target(*old(builder)),
        builder_inputs(*final(builder)) == builder_inputs(*old(builder)),
        builder_transparent_outputs(*final(builder)) == builder_transparent_outputs(*old(builder)),
        r is Ok ==> builder_orchard_outputs(*final(builder)) == builder_orchard_outputs(*old(builder)).push(
            (receiver@, amount),
        ),
{
    let to = orchard::Address::from_raw_address_bytes(receiver).unwrap();
    let memo = match memo {
        Some(m) => MemoBytes::from_bytes(m).map_err(|e| format!("{:?}", e))?,
        None => MemoBytes::empty(),
    };
    builder.add_orchard_output::<FeeRule>(None, to, Zatoshis::const_from_u64(amount), memo)
        .map_err(|e| format!("{:?}", e))
}

/// Relies on `Builder::build_for_pczt`, with the standard fee rule and the
/// system's random numbers, and on `Creator::build_from_parts`: the record
/// holds the builder's transparent inputs and outputs in order, without
/// signatures or preimages, at least one Orchard action per Orchard output,
/// and the branch id and expiry height the builder chose for its network and
/// target height.
#[verifier::external_body]
fn builder_build(builder: Builder<Network, ()>) -> (r: Result<Pczt, String>)
    ensures
        r matches Ok(p) ==> {
            &&& transparent_inputs_of(p) == builder_inputs(builder)
            &&& transparent_outputs_of(p) == builder_transparent_outputs(builder)
            &&& orchard_actions_of(p).len() >= builder_orchard_outputs(builder).len()
            &&& input_signers_of(p) == Seq::new(builder_inputs(builder).len(), |i: int| Set::<Seq<u8>>::empty())
            &&& input_preimages_of(p) == Seq::new(
                builder_inputs(builder).len(),
                |i: int| Map::<Seq<u8>, Seq<u8>>::empty(),
            )
            &&& record_chain_of(p).0 == branch_id_for(builder_target(builder).0, builder_target(builder).1)
            &&& record_chain_of(p) == chain_fields_for(builder_target(builder).0, builder_target(builder).1)
        },
{
    let result = builder.build_for_pczt(rand_core::OsRng, &FeeRule::standard())
        .map_err(|e| format!("{:?}", e))?;
    Creator::build_from_parts(result.pczt_parts).ok_or_else(|| "unsupported transaction version".to_string())
}

/// Relies on the updater role's `set_hash160_preimage`: records the public
/// key of the transparent input at `index` under its HASH160, which the
/// signer needs; everything else is written back as it was read.
#[verifier::external_body]
fn set_input_pubkey(pczt: Pczt, index: usize, pubkey: &[u8; 33]) -> (r: Result<Pczt, String>)
    ensures
        r matches Ok(p) ==> {
            &&& index < input_preimages_of(pczt).len()
            &&& input_preimages_of(p) == input_preimages_of(pczt).update(
                index as int,
                input_preimages_of(pczt)[index as int].insert(pubkey_hash_of(pubkey@), pubkey@),
            )
            &&& same_except_preimages(p, pczt)
        },
{
    Updater::new(pczt).update_transparent_with(|mut bundle| {
        bundle.update_input_with(index, |mut input| {
            input.set_hash160_preimage(pubkey.to_vec());
            Ok(())
        })
    }).map(|u| u.finish()).map_err(|e| format!("{:?}", e))
}

/// Everything but the preimages is as it was.
pub open spec fn same_except_preimages(p: Pczt, q: Pczt) -> bool {
    &&& transparent_inputs_of(p) == transparent_inputs_of(q)
    &&& transparent_outputs_of(p) == transparent_outputs_of(q)
    &&& orchard_actions_of(p).len() == orchard_actions_of(q).len()
    &&& input_signers_of(p) == input_signers_of(q)
    &&& record_chain_of(p) == record_chain_of(q)
}

/// Relies on `IoFinalizer::finalize_io`: the transparent part and the branch
/// id and expiry height are written back as they were read, and the Orchard
/// actions are kept.
#[verifier::external_body]
fn finalize_io(pczt: Pczt) -> (r: Result<Pczt, String>)
    ensures
        r matches Ok(p) ==> same_except_preimages(p, pczt) && input_preimages_of(p) == input_preimages_of(
            pczt,
        ),
{
    IoFinalizer::new(pczt).finalize_io().map_err(|e| format!("{:?}", e))
}

/// The outpoints and values of the inputs, as (txid, output index, value),
/// in order.
pub open spec fn input_outpoints(v: Seq<TransparentInput>) -> Seq<(Seq<u8>, u32, u64)> {
    v.map_values(|i: TransparentInput| (i.txid@, i.vout, i.amount))
}

/// For each input, its public key recorded under its HASH160.
pub open spec fn key_preimages(v: Seq<TransparentInput>) -> Seq<Map<Seq<u8>, Seq<u8>>> {
    v.map_values(
        |i: TransparentInput| Map::<Seq<u8>, Seq<u8>>::empty().insert(pubkey_hash_of(i.pubkey@), i.pubkey@),
    )
}

/// Every input has a valid key and an amount that can exist.
pub open spec fn inputs_buildable(v: Seq<TransparentInput>) -> bool {
    forall|k: int| 0 <= k < v.len() ==> valid_pubkey((#[trigger] v[k]).pubkey@) && v[k].amount <= MAX_MONEY
}

pub open spec fn transparent_amounts_ok(v: Seq<PlannedTransparentOutput>) -> bool {
    forall|k: int| 0 <= k < v.len() ==> (#[trigger] v[k]).amount <= MAX_MONEY
}

pub open spec fn orchard_receivers_ok(v: Seq<PlannedOrchardOutput>) -> bool {
    forall|k: int| 0 <= k < v.len() ==> valid_orchard_receiver((#[trigger] v[k]).receiver@)
}

pub open spec fn orchard_amounts_ok(v: Seq<PlannedOrchardOutput>) -> bool {
    forall|k: int|
        0 <= k < v.len() ==> (#[trigger] v[k]).amount <= MAX_MONEY && (v[k].memo matches Some(
            m,
        ) ==> m@.len() <= 512)
}

/// Builds the record of a planned transaction. The plan is checked first:
/// an input with an invalid key or an impossible amount, or an impossible
/// output amount or overlong memo, is an invalid request; an invalid Orchard
/// receiver is an invalid address. What the builder does next is up to it;
/// a record it gives holds the planned inputs and transparent outputs in
/// order, and at least one Orchard action per shielded output.
pub fn build_from_plan(plan: &TransactionPlan, use_mainnet: bool, target_height: u32) -> (r: Result<
    Pczt,
    ProposalError,
>)
    ensures
        !inputs_buildable(plan.inputs@) ==> r matches Err(ProposalError::InvalidRequest(_)),
        inputs_buildable(plan.inputs@) && !transparent_amounts_ok(plan.transparent_outputs@) ==> r matches Err(
            ProposalError::InvalidRequest(_),
        ),
        inputs_buildable(plan.inputs@) && transparent_amounts_ok(plan.transparent_outputs@)
            && !orchard_receivers_ok(plan.orchard_outputs@) ==> r matches Err(
            ProposalError::InvalidAddress(_),
        ),
        inputs_buildable(plan.inputs@) && transparent_amounts_ok(plan.transparent_outputs@)
            && orchard_receivers_ok(plan.orchard_outputs@) && !orchard_amounts_ok(plan.orchard_outputs@)
            ==> r matches Err(ProposalError::InvalidRequest(_)),
        r matches Err(e) ==> e is InvalidRequest || e is InvalidAddress || e is PcztCreation,
        r matches Ok(p) ==> {
            &&& record_chain_of(p) == chain_fields_for(use_mainnet, target_height)
            &&& input_preimages_of(p) == key_preimages(plan.inputs@)
            &&& input_signers_of(p) == Seq::new(plan.inputs@.len(), |i: int| Set::<Seq<u8>>::empty())
            &&& transparent_inputs_of(p) == input_outpoints(plan.inputs@)
            &&& transparent_outputs_of(p) == planned_scripts(planned_views(plan.transparent_outputs@))
            &&& orchard_actions_of(p).len() >= plan.orchard_outputs@.len()
        },
{
    // Check the plan before anything is built.
    let n_inputs = plan.inputs.len();
    let mut i: usize = 0;
    while i < n_inputs
        invariant
            i <= n_inputs == plan.inputs@.len(),
            forall|k: int| 0 <= k < i ==> valid_pubkey((#[trigger] plan.inputs@[k]).pubkey@)
                && plan.inputs@[k].amount <= MAX_MONEY,
        decreases n_inputs - i,
    {
        let input = &plan.inputs[i];
        if !pubkey_is_valid(&input.pubkey) {
            return Err(ProposalError::InvalidRequest("invalid public key".to_string()));
        }
        if input.amount > MAX_MONEY {
            return Err(ProposalError::InvalidRequest("input amount exceeds the money supply".to_string()));
        }
        i = i + 1;
    }
    let n_transparent = plan.transparent_outputs.len();
    let mut k: usize = 0;
    while k < n_transparent
        invariant
            k <= n_transparent == plan.transparent_outputs@.len(),
            inputs_buildable(plan.inputs@),
            forall|j: int| 0 <= j < k ==> (#[trigger] plan.transparent_outputs@[j]).amount <= MAX_MONEY,
        decreases n_transparent - k,
    {
        if plan.transparent_outputs[k].amount > MAX_MONEY {
            return Err(ProposalError::InvalidRequest("amount exceeds the money supply".to_string()));
        }
        k = k + 1;
    }
    let n_orchard = plan.orchard_outputs.len();
    let mut k: usize = 0;
    while k < n_orchard
        invariant
            k <= n_orchard == plan.orchard_outputs@.len(),
            inputs_buildable(plan.inputs@),
            transparent_amounts_ok(plan.transparent_outputs@),
            forall|j: int| 0 <= j < k ==> valid_orchard_receiver((#[trigger] plan.orchard_outputs@[j]).receiver@),
        decreases n_orchard - k,
    {
        if !orchard_receiver_is_valid(&plan.orchard_outputs[k].receiver) {
            return Err(ProposalError::InvalidAddress("invalid Orchard receiver".to_string()));
        }
        k = k + 1;
    }
    let mut k: usize = 0;
    while k < n_orchard
        invariant
            k <= n_orchard == plan.orchard_outputs@.len(),
            inputs_buildable(plan.inputs@),
            transparent_amounts_ok(plan.transparent_outputs@),
            orchard_receivers_ok(plan.orchard_outputs@),
            forall|j: int|
                0 <= j < k ==> (#[trigger] plan.orchard_outputs@[j]).amount <= MAX_MONEY
                    && (plan.orchard_outputs@[j].memo matches Some(m) ==> m@.len() <= 512),
        decreases n_orchard - k,
    {
        let out = &plan.orchard_outputs[k];
        if out.amount > MAX_MONEY {
            return Err(ProposalError::InvalidRequest("amount exceeds the money supply".to_string()));
        }
        let memo_fits = match &out.memo {
            Some(m) => m.len() <= MAX_MEMO_LEN,
            None => true,
        };
        if !memo_fits {
            return Err(ProposalError::InvalidRequest("memo too long".to_string()));
        }
        k = k + 1;
    }
    // Build.
    let mut builder = new_builder(use_mainnet, target_height);
    let mut i: usize = 0;
    while i < n_inputs
        invariant
            inputs_buildable(plan.inputs@),
            transparent_amounts_ok(plan.transparent_outputs@),
            orchard_receivers_ok(plan.orchard_outputs@),
            orchard_amounts_ok(plan.orchard_outputs@),
            i <= n_inputs == plan.inputs@.len(),
            builder_target(builder) == (use_mainnet, target_height),
            builder_inputs(builder) == input_outpoints(plan.inputs@.subrange(0, i as int)),
            builder_transparent_outputs(builder) == Seq::<(Seq<u8>, u64)>::empty(),
            builder_orchard_outputs(builder) == Seq::<(Seq<u8>, u64)>::empty(),
        decreases n_inputs - i,
    {
        let input = &plan.inputs[i];
        let script = match script_from_bytes(input.script_pubkey.as_slice()) {
            Some(s) => s,
            None => {
                return Err(ProposalError::InvalidRequest("invalid script".to_string()));
            },
        };
        assert(valid_pubkey(plan.inputs@[i as int].pubkey@));
        if let Err(msg) = builder_add_input(&mut builder, input, script) {
            return Err(ProposalError::PcztCreation(msg));
        }
        assert(input_outpoints(plan.inputs@.subrange(0, i + 1)) =~= input_outpoints(
            plan.inputs@.subrange(0, i as int),
        ).push((input.txid@, input.vout, input.amount)));
        i = i + 1;
    }
    assert(plan.inputs@.subrange(0, n_inputs as int) =~= plan.inputs@);
    let ghost tviews = planned_scripts(planned_views(plan.transparent_outputs@));
    let mut k: usize = 0;
    while k < n_transparent
        invariant
            inputs_buildable(plan.inputs@),
            transparent_amounts_ok(plan.transparent_outputs@),
            orchard_receivers_ok(plan.orchard_outputs@),
            orchard_amounts_ok(plan.orchard_outputs@),
            k <= n_transparent == plan.transparent_outputs@.len(),
            tviews == planned_scripts(planned_views(plan.transparent_outputs@)),
            builder_target(builder) == (use_mainnet, target_height),
            builder_inputs(builder) == input_outpoints(plan.inputs@),
            builder_transparent_outputs(builder) == tviews.subrange(0, k as int),
            builder_orchard_outputs(builder) == Seq::<(Seq<u8>, u64)>::empty(),
        decreases n_transparent - k,
    {
        let out = &plan.transparent_outputs[k];
        assert(plan.transparent_outputs@[k as int].amount <= MAX_MONEY);
        let _ = builder_add_transparent_output(&mut builder, &out.receiver, out.amount);
        assert(tviews.subrange(0, k + 1) =~= tviews.subrange(0, k as int).push(
            (script_of(out.receiver@), out.amount),
        ));
        k = k + 1;
    }
    assert(tviews.subrange(0, n_transparent as int) =~= tviews);
    let mut k: usize = 0;
    while k < n_orchard
        invariant
            inputs_buildable(plan.inputs@),
            transparent_amounts_ok(plan.transparent_outputs@),
            orchard_receivers_ok(plan.orchard_outputs@),
            orchard_amounts_ok(plan.orchard_outputs@),
            k <= n_orchard == plan.orchard_outputs@.len(),
            builder_target(builder) == (use_mainnet, target_height),
            builder_inputs(builder) == input_outpoints(plan.inputs@),
            builder_transparent_outputs(builder) == tviews,
            builder_orchard_outputs(builder).len() == k,
        decreases n_orchard - k,
    {
        let out = &plan.orchard_outputs[k];
        assert(valid_orchard_receiver(plan.orchard_outputs@[k as int].receiver@));
        assert(plan.orchard_outputs@[k as int].amount <= MAX_MONEY);
        if let Err(msg) = builder_add_orchard_output(&mut builder, &out.receiver, out.amount, &out.memo) {
            return Err(ProposalError::PcztCreation(msg));
        }
        k = k + 1;
    }
    let mut pczt = match builder_build(builder) {
        Ok(p) => p,
        Err(msg) => {
            return Err(ProposalError::PcztCreation(msg));
        },
    };
    let mut i: usize = 0;
    while i < n_inputs
        invariant
            inputs_buildable(plan.inputs@),
            transparent_amounts_ok(plan.transparent_outputs@),
            orchard_receivers_ok(plan.orchard_outputs@),
            orchard_amounts_ok(plan.orchard_outputs@),
            i <= n_inputs == plan.inputs@.len(),
            transparent_inputs_of(pczt) == input_outpoints(plan.inputs@),
            transparent_outputs_of(pczt) == tviews,
            orchard_actions_of(pczt).len() >= n_orchard,
            record_chain_of(pczt) == chain_fields_for(use_mainnet, target_height),
            input_signers_of(pczt) == Seq::new(n_inputs as nat, |j: int| Set::<Seq<u8>>::empty()),
            input_preimages_of(pczt) == Seq::new(
                n_inputs as nat,
                |j: int|
                    if j < i {
                        key_preimages(plan.inputs@)[j]
                    } else {
                        Map::<Seq<u8>, Seq<u8>>::empty()
                    },
            ),
        decreases n_inputs - i,
    {
        let ghost before = input_preimages_of(pczt);
        pczt = match set_input_pubkey(pczt, i, &plan.inputs[i].pubkey) {
            Ok(p) => p,
            Err(msg) => {
                return Err(ProposalError::PcztCreation(msg));
            },
        };
        assert(input_preimages_of(pczt) =~= Seq::new(
            n_inputs as nat,
            |j: int|
                if j < i + 1 {
                    key_preimages(plan.inputs@)[j]
                } else {
                    Map::<Seq<u8>, Seq<u8>>::empty()
                },
        )) by {
            assert(Map::<Seq<u8>, Seq<u8>>::empty().insert(pubkey_hash_of(plan.inputs@[i as int].pubkey@), plan.inputs@[i as int].pubkey@)
                == key_preimages(plan.inputs@)[i as int]);
        }
        i = i + 1;
    }
    assert(input_preimages_of(pczt) =~= key_preimages(plan.inputs@));
    match finalize_io(pczt) {
        Ok(p) => Ok(p),
        Err(msg) => Err(ProposalError::PcztCreation(msg)),
    }
}

/// What a proposal from decoded inputs `v` gives: the planner's error for a
/// request that cannot be planned; and a record, if the builder makes one,
/// for the given network and target height, that holds the inputs in order
/// with their keys recorded and no signatures, the planned transparent
/// outputs in order (payments, then change), and at least one Orchard action
/// per shielded payment.
pub open spec fn proposed_from(
    r: Result<Pczt, ProposalError>,
    v: Seq<TransparentInput>,
    ps: Seq<Payment>,
    change_address: Option<Seq<char>>,
    mainnet: bool,
    height: u32,
) -> bool {
    &&& plan_fault(v, ps, change_address) matches Some(f) ==> r is Err && fault_reported(
        r->Err_0,
        f,
        ps,
        change_address,
    )
    &&& r matches Ok(p) ==> {
        &&& plannable(v, ps, change_address)
        &&& record_chain_of(p) == chain_fields_for(mainnet, height)
        &&& input_preimages_of(p) == key_preimages(v)
        &&& input_signers_of(p) == Seq::new(v.len(), |i: int| Set::<Seq<u8>>::empty())
        &&& transparent_inputs_of(p) == input_outpoints(v)
        &&& transparent_outputs_of(p) == planned_scripts(planned_transparent(v, ps, change_address))
        &&& orchard_actions_of(p).len() >= shielded_payments(ps).len()
    }
}

/// A proposed record passes pre-sign verification: a record that a
/// proposal without a change address gives is accepted against its request
/// when no change is declared.
pub proof fn lemma_proposed_record_passes_check(
    v: Seq<TransparentInput>,
    ps: Seq<Payment>,
    p: Pczt,
    mainnet: bool,
    height: u32,
)
    requires
        proposed_from(Ok(p), v, ps, None, mainnet, height),
    ensures
        rejection(transparent_outputs_of(p), orchard_actions_of(p).len(), ps, Seq::empty()) is None,
{
    lemma_proposal_passes_check(v, ps, orchard_actions_of(p).len());
}

/// The target height of a request: its own, or a recent one of its network.
pub open spec fn target_height_for(request: TransactionRequest) -> u32 {
    match request.target_height {
        Some(h) => h,
        None => if request.use_mainnet {
            DEFAULT_MAINNET_HEIGHT
        } else {
            DEFAULT_TESTNET_HEIGHT
        },
    }
}

/// The characters of an optional address.
pub open spec fn string_view(a: Option<String>) -> Option<Seq<char>> {
    match a {
        Some(s) => Some(s@),
        None => None,
    }
}

/// Proposes a transaction: decodes the coins to spend (see
/// [`parse_transparent_inputs`]), plans the transaction (see
/// [`plan_transaction`]) and builds its record on the request's network, at
/// its target height or a recent default one.
pub fn propose_transaction(
    inputs_to_spend: &[u8],
    transaction_request: TransactionRequest,
    change_address: Option<String>,
) -> (r: Result<Pczt, ProposalError>)
    ensures
        transaction_request.payments@.len() == 0 ==> r matches Err(ProposalError::InvalidRequest(_)),
        decode_input_list(inputs_to_spend@) is Err ==> r matches Err(ProposalError::InvalidRequest(_)),
        r is Ok ==> decode_input_list(inputs_to_spend@) is Ok,
        decode_input_list(inputs_to_spend@) is Ok && transaction_request.payments@.len() > 0
            ==> exists|v: Seq<TransparentInput>|
            #![trigger input_models(v)]
            decode_input_list(inputs_to_spend@) == Ok::<Seq<InputModel>, InputCodecError>(input_models(v))
                && proposed_from(
                r,
                v,
                transaction_request.payments@,
                string_view(change_address),
                transaction_request.use_mainnet,
                target_height_for(transaction_request),
            ),
{
    if transaction_request.payments.len() == 0 {
        return Err(ProposalError::InvalidRequest("no payments provided".to_string()));
    }
    let inputs = match parse_transparent_inputs(inputs_to_spend) {
        Ok(v) => v,
        Err(_) => {
            return Err(ProposalError::InvalidRequest("failed to parse inputs".to_string()));
        },
    };
    let change = match &change_address {
        Some(a) => Some(a.as_str()),
        None => None,
    };
    let ghost parsed = inputs@;
    assert(str_view(change) == string_view(change_address));
    let planned = plan_transaction(inputs, &transaction_request, change);
    let plan = match planned {
        Ok(p) => p,
        Err(e) => {
            assert(proposed_from(
                Err(e),
                parsed,
                transaction_request.payments@,
                string_view(change_address),
                transaction_request.use_mainnet,
                target_height_for(transaction_request),
            ));
            return Err(e);
        },
    };
    let target_height = match transaction_request.target_height {
        Some(h) => h,
        None => if transaction_request.use_mainnet {
            DEFAULT_MAINNET_HEIGHT
        } else {
            DEFAULT_TESTNET_HEIGHT
        },
    };
    let r = build_from_plan(&plan, transaction_request.use_mainnet, target_height);
    proof {
        assert(planned_views(plan.transparent_outputs@) == planned_transparent(
            parsed,
            transaction_request.payments@,
            str_view(change),
        ));
        assert(plan.orchard_outputs@.len() == shielded_payments(transaction_request.payments@).len());
        assert(proposed_from(
            r,
            parsed,
            transaction_request.payments@,
            string_view(change_address),
            transaction_request.use_mainnet,
            target_height_for(transaction_request),
        ));
    }
    r
}

} // verus!
