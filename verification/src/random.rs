//! Random generation of well-formed entities, for exercising the pipeline.

use vstd::prelude::*;

use crate::ledger_types::{ConsumedOutput, CreatedOutput};
use crate::output::{AliasOutput, BasicOutput, FoundryOutput, NftOutput, Output, SimpleTokenScheme, TokenScheme, TreasuryOutput};
use crate::types::{InputsCommitment, MessageId, MilestoneId, MilestoneIndex, OutputId, TransactionId, Unspent, OUTPUT_INDEX_MAX, TOKEN_SUPPLY};

verus! {

/// Relies on rand::random: a fresh 64-bit word; nothing is promised of
/// its value.
#[verifier::external_body]
fn random_u64() -> u64 {
    rand::random()
}

/// Relies on rand::random: a fresh 32-bit word; nothing is promised of
/// its value.
#[verifier::external_body]
fn random_u32() -> u32 {
    rand::random()
}

/// Relies on rand::random: a fresh 128-bit word; nothing is promised of
/// its value.
#[verifier::external_body]
fn random_u128() -> u128 {
    rand::random()
}

/// Relies on rand::Rng::gen_range: a value drawn from the given non-empty
/// half-open range.
#[verifier::external_body]
fn random_u64_range(lo: u64, hi: u64) -> (r: u64)
    requires
        lo < hi,
    ensures
        lo <= r < hi,
{
    rand::Rng::gen_range(&mut rand::thread_rng(), lo..hi)
}

/// Relies on rand::Rng::gen_range: a value drawn from the given non-empty
/// half-open range.
#[verifier::external_body]
fn random_u16_range(lo: u16, hi: u16) -> (r: u16)
    requires
        lo < hi,
    ensures
        lo <= r < hi,
{
    rand::Rng::gen_range(&mut rand::thread_rng(), lo..hi)
}

/// Generates a random message id.
pub fn rand_message_id() -> MessageId {
    MessageId(random_u64())
}

/// Generates a random milestone id.
pub fn rand_milestone_id() -> MilestoneId {
    MilestoneId(random_u64())
}

/// Generates a random transaction id.
pub fn rand_transaction_id() -> TransactionId {
    TransactionId(random_u64())
}

/// Generates a random milestone index.
pub fn rand_milestone_index() -> MilestoneIndex {
    MilestoneIndex(random_u32())
}

/// Generates a random output id with an admissible position.
pub fn rand_output_id() -> (r: OutputId)
    ensures
        r.is_valid(),
{
    OutputId { transaction_id: rand_transaction_id(), index: random_u16_range(0, OUTPUT_INDEX_MAX + 1) }
}

/// Generates a random unspent output id.
pub fn rand_unspent_output_id() -> (r: Unspent)
    ensures
        r.0.is_valid(),
{
    Unspent::new(rand_output_id())
}

/// Generates a random treasury output.
pub fn rand_treasury_output() -> (r: TreasuryOutput)
    ensures
        r.is_valid(),
{
    let amount = random_u64_range(0, TOKEN_SUPPLY + 1);
    match TreasuryOutput::new(amount) {
        Ok(output) => output,
        Err(_) => {
            proof {
                assert(false);
            }
            TreasuryOutput::new(0).unwrap()
        },
    }
}

/// Generates a random basic output.
pub fn rand_basic_output() -> (r: BasicOutput)
    ensures
        r.is_valid(),
{
    let amount = random_u64_range(1, TOKEN_SUPPLY + 1);
    match BasicOutput::new(amount, random_u64()) {
        Ok(output) => output,
        Err(_) => {
            proof {
                assert(false);
            }
            BasicOutput::new(1, 0).unwrap()
        },
    }
}

/// Generates a random alias identifier word.
pub fn rand_alias_id() -> u64 {
    random_u64()
}

/// Generates a random alias output whose controllers differ from its
/// identifier.
pub fn rand_alias_output() -> (r: AliasOutput)
    ensures
        r.is_valid(),
{
    let amount = random_u64_range(1, TOKEN_SUPPLY + 1);
    let alias_id = rand_alias_id();
    let sc0 = random_u64();
    let state_controller = if sc0 == alias_id {
        sc0 ^ 1
    } else {
        sc0
    };
    let g0 = random_u64();
    let governor = if g0 == alias_id {
        g0 ^ 1
    } else {
        g0
    };
    proof {
        assert(state_controller != alias_id) by (bit_vector)
            requires
                state_controller == (if sc0 == alias_id {
                    sc0 ^ 1
                } else {
                    sc0
                });
        assert(governor != alias_id) by (bit_vector)
            requires
                governor == (if g0 == alias_id {
                    g0 ^ 1
                } else {
                    g0
                });
    }
    match AliasOutput::new(amount, alias_id, state_controller, governor) {
        Ok(output) => output,
        Err(_) => {
            proof {
                assert(false);
            }
            AliasOutput::new(1, 0, 1, 1).unwrap()
        },
    }
}

/// Generates a random token scheme with ordered counters.
pub fn rand_token_scheme() -> (r: TokenScheme)
    ensures
        r.is_valid(),
{
    let max0 = random_u128();
    let maximum = if max0 == u128::MAX {
        max0
    } else {
        max0 + 1
    };
    let minted_denom = if maximum == u128::MAX {
        maximum
    } else {
        maximum + 1
    };
    let minted = random_u128() % minted_denom;
    let melted_denom = if minted == u128::MAX {
        minted
    } else {
        minted + 1
    };
    let melted = if melted_denom == 0 {
        0
    } else {
        random_u128() % melted_denom
    };
    match SimpleTokenScheme::new(minted, melted, maximum) {
        Ok(scheme) => TokenScheme::Simple(scheme),
        Err(_) => {
            proof {
                assert(false);
            }
            TokenScheme::Simple(SimpleTokenScheme::new(0, 0, 1).unwrap())
        },
    }
}

/// Generates a random foundry output.
pub fn rand_foundry_output() -> (r: FoundryOutput)
    ensures
        r.is_valid(),
{
    let amount = random_u64_range(1, TOKEN_SUPPLY + 1);
    let scheme = rand_token_scheme();
    match FoundryOutput::new(amount, random_u32(), scheme, random_u64()) {
        Ok(output) => output,
        Err(_) => {
            proof {
                assert(false);
            }
            FoundryOutput::new(1, 0, TokenScheme::Simple(SimpleTokenScheme::new(0, 0, 1).unwrap()), 0).unwrap()
        },
    }
}

/// Generates a random output carrying a non-fungible token.
pub fn rand_nft_output() -> (r: NftOutput)
    ensures
        r.is_valid(),
{
    let amount = random_u64_range(1, TOKEN_SUPPLY + 1);
    let nft_id = random_u64();
    let a0 = random_u64();
    let address = if a0 == nft_id {
        a0 ^ 1
    } else {
        a0
    };
    proof {
        assert(address != nft_id) by (bit_vector)
            requires
                address == (if a0 == nft_id {
                    a0 ^ 1
                } else {
                    a0
                });
    }
    match NftOutput::new(amount, nft_id, address) {
        Ok(output) => output,
        Err(_) => {
            proof {
                assert(false);
            }
            NftOutput::new(1, 0, 1).unwrap()
        },
    }
}

/// Generates a random ledger treasury output.
pub fn rand_ledger_treasury_output() -> (r: crate::ledger_types::TreasuryOutput)
    ensures
        r.inner.is_valid(),
{
    crate::ledger_types::TreasuryOutput::new(rand_treasury_output(), rand_milestone_id())
}

/// Generates a random output of any kind.
pub fn rand_output() -> (r: Output)
    ensures
        r.is_valid(),
{
    let pick = random_u64() % 5;
    if pick == 0 {
        Output::Treasury(rand_treasury_output())
    } else if pick == 1 {
        Output::Basic(rand_basic_output())
    } else if pick == 2 {
        Output::Alias(rand_alias_output())
    } else if pick == 3 {
        Output::Foundry(rand_foundry_output())
    } else {
        Output::Nft(rand_nft_output())
    }
}

/// Generates a random spend record.
pub fn rand_consumed_output() -> ConsumedOutput {
    ConsumedOutput::new(rand_transaction_id(), rand_milestone_index(), random_u64())
}

/// Generates a random booked output.
pub fn rand_created_output() -> (r: CreatedOutput)
    ensures
        r.inner.is_valid(),
{
    CreatedOutput::new(rand_message_id(), rand_milestone_index(), random_u64(), rand_output())
}

/// Generates a random inputs commitment.
pub fn rand_inputs_commitment() -> InputsCommitment {
    InputsCommitment(random_u64())
}

} // verus!
