//! Outputs a transaction can create. Amounts and identifier words are held
//! as plain values; each kind carries the invariant its builder enforces.

use vstd::prelude::*;

use crate::types::{Error, TOKEN_SUPPLY};

verus! {

/// An output holding the treasury.
#[derive(Clone, Copy, PartialEq, Eq, Structural, Debug)]
pub struct TreasuryOutput {
    pub amount: u64,
}

impl TreasuryOutput {
    /// Whether the amount lies in the admissible treasury range.
    pub open spec fn is_valid(self) -> bool {
        self.amount <= TOKEN_SUPPLY
    }

    /// Builds a treasury output; rejects an amount above the token supply.
    pub fn new(amount: u64) -> (r: Result<TreasuryOutput, Error>)
        ensures
            amount <= TOKEN_SUPPLY ==> r == Ok::<TreasuryOutput, Error>(TreasuryOutput { amount }),
            amount > TOKEN_SUPPLY ==> r == Err::<TreasuryOutput, Error>(Error::InvalidOutputAmount(amount)),
    {
        if amount <= TOKEN_SUPPLY {
            Ok(TreasuryOutput { amount })
        } else {
            Err(Error::InvalidOutputAmount(amount))
        }
    }

    /// The amount held.
    pub fn amount(&self) -> (r: u64)
        ensures
            r == self.amount,
    {
        self.amount
    }

    /// Spec view of the amount.
    pub open spec fn amount_spec(self) -> u64 {
        self.amount
    }
}

/// A plain value-transfer output, unlockable by one address.
#[derive(Clone, Copy, PartialEq, Eq, Structural, Debug)]
pub struct BasicOutput {
    pub amount: u64,
    pub address: u64,
}

impl BasicOutput {
    /// Whether the amount lies in the admissible range for value outputs.
    pub open spec fn is_valid(self) -> bool {
        1 <= self.amount <= TOKEN_SUPPLY
    }

    /// Builds a basic output; rejects an amount of zero or above supply.
    pub fn new(amount: u64, address: u64) -> (r: Result<BasicOutput, Error>)
        ensures
            1 <= amount <= TOKEN_SUPPLY ==> r == Ok::<BasicOutput, Error>(BasicOutput { amount, address }),
            !(1 <= amount <= TOKEN_SUPPLY) ==> r == Err::<BasicOutput, Error>(Error::InvalidOutputAmount(amount)),
    {
        if 1 <= amount && amount <= TOKEN_SUPPLY {
            Ok(BasicOutput { amount, address })
        } else {
            Err(Error::InvalidOutputAmount(amount))
        }
    }

    /// The amount held.
    pub fn amount(&self) -> (r: u64)
        ensures
            r == self.amount,
    {
        self.amount
    }

    /// The unlocking address word.
    pub fn address(&self) -> (r: u64)
        ensures
            r == self.address,
    {
        self.address
    }

    /// Spec view of the amount.
    pub open spec fn amount_spec(self) -> u64 {
        self.amount
    }
}

/// An output owned by an alias account; its two controller addresses must
/// differ from the alias identifier itself.
#[derive(Clone, Copy, PartialEq, Eq, Structural, Debug)]
pub struct AliasOutput {
    pub amount: u64,
    pub alias_id: u64,
    pub state_controller: u64,
    pub governor: u64,
}

impl AliasOutput {
    /// Amount in range and controllers distinct from the alias identifier.
    pub open spec fn is_valid(self) -> bool {
        &&& 1 <= self.amount <= TOKEN_SUPPLY
        &&& self.state_controller != self.alias_id
        &&& self.governor != self.alias_id
    }

    /// Builds an alias output; rejects an amount out of range or a
    /// controller equal to the alias identifier.
    pub fn new(amount: u64, alias_id: u64, state_controller: u64, governor: u64) -> (r: Result<
        AliasOutput,
        Error,
    >)
        ensures
            !(1 <= amount <= TOKEN_SUPPLY) ==> r == Err::<AliasOutput, Error>(Error::InvalidOutputAmount(amount)),
            1 <= amount <= TOKEN_SUPPLY && (state_controller == alias_id || governor == alias_id) ==> r == Err::<
                AliasOutput,
                Error,
            >(Error::InvalidUnlockCondition),
            1 <= amount <= TOKEN_SUPPLY && state_controller != alias_id && governor != alias_id ==> r == Ok::<
                AliasOutput,
                Error,
            >(AliasOutput { amount, alias_id, state_controller, governor }),
    {
        if amount < 1 || amount > TOKEN_SUPPLY {
            Err(Error::InvalidOutputAmount(amount))
        } else if state_controller == alias_id || governor == alias_id {
            Err(Error::InvalidUnlockCondition)
        } else {
            Ok(AliasOutput { amount, alias_id, state_controller, governor })
        }
    }

    /// The amount held.
    pub fn amount(&self) -> (r: u64)
        ensures
            r == self.amount,
    {
        self.amount
    }

    /// The alias identifier word.
    pub fn alias_id(&self) -> (r: u64)
        ensures
            r == self.alias_id,
    {
        self.alias_id
    }

    /// Spec view of the amount.
    pub open spec fn amount_spec(self) -> u64 {
        self.amount
    }
}

/// A native-token scheme: monotone counters of minted and melted tokens
/// under a fixed maximum.
#[derive(Clone, Copy, PartialEq, Eq, Structural, Debug)]
pub struct SimpleTokenScheme {
    pub minted: u128,
    pub melted: u128,
    pub maximum: u128,
}

impl SimpleTokenScheme {
    /// Melted never exceeds minted, minted never exceeds the maximum, and
    /// the maximum is positive.
    pub open spec fn is_valid(self) -> bool {
        &&& 1 <= self.maximum
        &&& self.melted <= self.minted
        &&& self.minted <= self.maximum
    }

    /// Builds a token scheme; rejects counters that break the ordering.
    pub fn new(minted: u128, melted: u128, maximum: u128) -> (r: Result<SimpleTokenScheme, Error>)
        ensures
            1 <= maximum && melted <= minted && minted <= maximum ==> r == Ok::<SimpleTokenScheme, Error>(
                SimpleTokenScheme { minted, melted, maximum },
            ),
            !(1 <= maximum && melted <= minted && minted <= maximum) ==> r == Err::<SimpleTokenScheme, Error>(
                Error::InvalidTokenScheme,
            ),
    {
        if 1 <= maximum && melted <= minted && minted <= maximum {
            Ok(SimpleTokenScheme { minted, melted, maximum })
        } else {
            Err(Error::InvalidTokenScheme)
        }
    }

    /// The minted counter.
    pub fn minted(&self) -> (r: u128)
        ensures
            r == self.minted,
    {
        self.minted
    }

    /// The melted counter.
    pub fn melted(&self) -> (r: u128)
        ensures
            r == self.melted,
    {
        self.melted
    }

    /// The fixed maximum.
    pub fn maximum(&self) -> (r: u128)
        ensures
            r == self.maximum,
    {
        self.maximum
    }
}

/// The token scheme of a foundry.
#[derive(Clone, Copy, PartialEq, Eq, Structural, Debug)]
pub enum TokenScheme {
    /// The only scheme currently defined.
    Simple(SimpleTokenScheme),
}

impl TokenScheme {
    /// Validity of the wrapped scheme.
    pub open spec fn is_valid(self) -> bool {
        match self {
            TokenScheme::Simple(s) => s.is_valid(),
        }
    }
}

/// An output that controls minting of native tokens, owned by an alias.
#[derive(Clone, Copy, PartialEq, Eq, Structural, Debug)]
pub struct FoundryOutput {
    pub amount: u64,
    pub serial_number: u32,
    pub token_scheme: TokenScheme,
    pub alias_address: u64,
}

impl FoundryOutput {
    /// Amount in range and a valid token scheme.
    pub open spec fn is_valid(self) -> bool {
        &&& 1 <= self.amount <= TOKEN_SUPPLY
        &&& self.token_scheme.is_valid()
    }

    /// Builds a foundry output; rejects an amount out of range or an
    /// invalid token scheme.
    pub fn new(amount: u64, serial_number: u32, token_scheme: TokenScheme, alias_address: u64) -> (r:
        Result<FoundryOutput, Error>)
        ensures
            !(1 <= amount <= TOKEN_SUPPLY) ==> r == Err::<FoundryOutput, Error>(Error::InvalidOutputAmount(amount)),
            1 <= amount <= TOKEN_SUPPLY && !token_scheme.is_valid() ==> r == Err::<FoundryOutput, Error>(
                Error::InvalidTokenScheme,
            ),
            1 <= amount <= TOKEN_SUPPLY && token_scheme.is_valid() ==> r == Ok::<FoundryOutput, Error>(
                FoundryOutput { amount, serial_number, token_scheme, alias_address },
            ),
    {
        if amount < 1 || amount > TOKEN_SUPPLY {
            Err(Error::InvalidOutputAmount(amount))
        } else {
            let valid = match &token_scheme {
                TokenScheme::Simple(s) => {
                    let okc = 1 <= s.maximum() && s.melted() <= s.minted() && s.minted() <= s.maximum();
                    okc
                },
            };
            if valid {
                Ok(FoundryOutput { amount, serial_number, token_scheme, alias_address })
            } else {
                Err(Error::InvalidTokenScheme)
            }
        }
    }

    /// The amount held.
    pub fn amount(&self) -> (r: u64)
        ensures
            r == self.amount,
    {
        self.amount
    }

    /// The serial number of the foundry under its alias.
    pub fn serial_number(&self) -> (r: u32)
        ensures
            r == self.serial_number,
    {
        self.serial_number
    }

    /// Spec view of the amount.
    pub open spec fn amount_spec(self) -> u64 {
        self.amount
    }
}

/// An output carrying a non-fungible token; its unlocking address must
/// differ from the token identifier.
#[derive(Clone, Copy, PartialEq, Eq, Structural, Debug)]
pub struct NftOutput {
    pub amount: u64,
    pub nft_id: u64,
    pub address: u64,
}

impl NftOutput {
    /// Amount in range and address distinct from the token identifier.
    pub open spec fn is_valid(self) -> bool {
        &&& 1 <= self.amount <= TOKEN_SUPPLY
        &&& self.address != self.nft_id
    }

    /// Builds an NFT output; rejects an amount out of range or an address
    /// equal to the token identifier.
    pub fn new(amount: u64, nft_id: u64, address: u64) -> (r: Result<NftOutput, Error>)
        ensures
            !(1 <= amount <= TOKEN_SUPPLY) ==> r == Err::<NftOutput, Error>(Error::InvalidOutputAmount(amount)),
            1 <= amount <= TOKEN_SUPPLY && address == nft_id ==> r == Err::<NftOutput, Error>(
                Error::InvalidUnlockCondition,
            ),
            1 <= amount <= TOKEN_SUPPLY && address != nft_id ==> r == Ok::<NftOutput, Error>(
                NftOutput { amount, nft_id, address },
            ),
    {
        if amount < 1 || amount > TOKEN_SUPPLY {
            Err(Error::InvalidOutputAmount(amount))
        } else if address == nft_id {
            Err(Error::InvalidUnlockCondition)
        } else {
            Ok(NftOutput { amount, nft_id, address })
        }
    }

    /// The amount held.
    pub fn amount(&self) -> (r: u64)
        ensures
            r == self.amount,
    {
        self.amount
    }

    /// Spec view of the amount.
    pub open spec fn amount_spec(self) -> u64 {
        self.amount
    }
}

/// Any output a transaction can create.
#[derive(Clone, Copy, PartialEq, Eq, Structural, Debug)]
pub enum Output {
    /// A treasury output.
    Treasury(TreasuryOutput),
    /// A plain value output.
    Basic(BasicOutput),
    /// An alias account output.
    Alias(AliasOutput),
    /// A foundry output.
    Foundry(FoundryOutput),
    /// A non-fungible-token output.
    Nft(NftOutput),
}

impl Output {
    /// Validity of the wrapped output.
    pub open spec fn is_valid(self) -> bool {
        match self {
            Output::Treasury(o) => o.is_valid(),
            Output::Basic(o) => o.is_valid(),
            Output::Alias(o) => o.is_valid(),
            Output::Foundry(o) => o.is_valid(),
            Output::Nft(o) => o.is_valid(),
        }
    }

    /// Spec view of the amount held by the output.
    pub open spec fn amount_spec(self) -> u64 {
        match self {
            Output::Treasury(o) => o.amount_spec(),
            Output::Basic(o) => o.amount_spec(),
            Output::Alias(o) => o.amount_spec(),
            Output::Foundry(o) => o.amount_spec(),
            Output::Nft(o) => o.amount_spec(),
        }
    }

    /// The amount held by the output.
    pub fn amount(&self) -> (r: u64)
        ensures
            r == self.amount_spec(),
    {
        match self {
            Output::Treasury(o) => o.amount(),
            Output::Basic(o) => o.amount(),
            Output::Alias(o) => o.amount(),
            Output::Foundry(o) => o.amount(),
            Output::Nft(o) => o.amount(),
        }
    }
}

} // verus!
