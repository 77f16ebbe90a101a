//! The marginal fee rule: a fee from the shape of a transaction.
use vstd::prelude::*;

verus! {

/// Fee charged per logical action, in the smallest currency unit.
pub const ZIP317_MARGINAL_FEE: u64 = 5_000;

/// Number of logical actions charged even for smaller transactions.
pub const ZIP317_GRACE_ACTIONS: usize = 2;

pub open spec fn max_nat(a: nat, b: nat) -> nat {
    if a >= b { a } else { b }
}

/// Shielded outputs are bundled in pairs: an odd count is padded by one.
pub open spec fn padded_shielded_actions(n_shielded: nat) -> nat {
    if n_shielded % 2 == 0 { n_shielded } else { n_shielded + 1 }
}

/// Logical actions of a transaction: the larger of its transparent input and
/// output counts, plus the padded shielded actions when there are any.
pub open spec fn logical_actions(n_in: nat, n_out: nat, n_shielded: nat) -> nat {
    if n_shielded > 0 {
        max_nat(n_in, n_out) + padded_shielded_actions(n_shielded)
    } else {
        max_nat(n_in, n_out)
    }
}

/// The fee: the marginal fee times the logical actions, never fewer than the
/// grace actions.
pub open spec fn fee_for(n_in: nat, n_out: nat, n_shielded: nat) -> nat {
    5000 * max_nat(2, logical_actions(n_in, n_out, n_shielded))
}

/// Computes the fee of a transaction with the given numbers of transparent
/// inputs, transparent outputs (change included) and shielded outputs.
pub fn calculate_fee(
    num_transparent_inputs: usize,
    num_transparent_outputs: usize,
    num_orchard_outputs: usize,
) -> (fee: u64)
    requires
        fee_for(
            num_transparent_inputs as nat,
            num_transparent_outputs as nat,
            num_orchard_outputs as nat,
        ) <= u64::MAX,
    ensures
        fee as nat == fee_for(
            num_transparent_inputs as nat,
            num_transparent_outputs as nat,
            num_orchard_outputs as nat,
        ),
{
    let n_in = num_transparent_inputs as u64;
    let n_out = num_transparent_outputs as u64;
    let n_shielded = num_orchard_outputs as u64;
    let transparent_actions: u64 = if n_in >= n_out { n_in } else { n_out };
    let logical: u64 = if n_shielded > 0 {
        let orchard_actions: u64 = if n_shielded % 2 == 0 { n_shielded } else { n_shielded + 1 };
        assert(transparent_actions + orchard_actions <= u64::MAX / 5000);
        transparent_actions + orchard_actions
    } else {
        transparent_actions
    };
    let grace = ZIP317_GRACE_ACTIONS as u64;
    let charged: u64 = if logical >= grace { logical } else { grace };
    ZIP317_MARGINAL_FEE * charged
}

/// Pairing law: an odd number of shielded outputs is padded to the next even
/// number, so it costs the same as one more shielded output.
pub proof fn lemma_fee_padding(n_in: nat, n_out: nat, k: nat)
    requires
        k % 2 == 1,
    ensures
        fee_for(n_in, n_out, k) == fee_for(n_in, n_out, k + 1),
{
}

/// The fee is never below the grace amount.
pub proof fn lemma_fee_floor(n_in: nat, n_out: nat, n_shielded: nat)
    ensures
        fee_for(n_in, n_out, n_shielded) >= 10_000,
{
}

} // verus!
