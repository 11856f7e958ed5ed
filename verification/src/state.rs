use vstd::prelude::*;

verus! {

/// Fixed-point unit for fractional quantities.
///
/// Rates, risk parameters (liquidation threshold, bonus, close factor,
/// maximum loan-to-value) and oracle prices are carried as integers scaled
/// by this constant, so the value `1.0` is stored as `SCALE`.
pub const SCALE: u64 = 1_000_000;

/// The two asset classes the protocol supports.
///
/// Every request names the class it acts on; a borrow is collateralized by
/// the class it does not name.
#[derive(Clone, Copy, Debug, PartialEq, Eq, Structural)]
pub enum AssetClass {
    Primary,
    Secondary,
}

impl AssetClass {
    /// The asset class other than `self`.
    pub open spec fn spec_other(self) -> AssetClass {
        match self {
            AssetClass::Primary => AssetClass::Secondary,
            AssetClass::Secondary => AssetClass::Primary,
        }
    }

    /// The asset class other than `self`.
    #[verifier::when_used_as_spec(spec_other)]
    pub fn other(self) -> (r: AssetClass)
        ensures
            r == self.spec_other(),
    {
        match self {
            AssetClass::Primary => AssetClass::Secondary,
            AssetClass::Secondary => AssetClass::Primary,
        }
    }
}

/// Aggregate reserve and accounting record for one asset class.
///
/// Principal totals and share totals come in pairs; the value of one share
/// is `total principal / total shares`.  Fractional parameters are scaled
/// by [`SCALE`].
#[derive(Clone, Copy, Debug, PartialEq, Eq, Structural)]
pub struct AssetPool {
    /// Identity permitted to configure this pool.
    pub authority: u64,
    /// The token this pool custodies.
    pub asset_id: u64,
    /// Aggregate principal owned by depositors.
    pub total_deposits: u64,
    /// Aggregate share units held by depositors.
    pub total_deposit_shares: u64,
    /// Aggregate principal owed by borrowers.
    pub total_borrows: u64,
    /// Aggregate share units held by borrowers.
    pub total_borrow_shares: u64,
    /// Fraction of collateral value counted as borrowing power, scaled by [`SCALE`].
    pub liquidation_threshold: u64,
    /// Maximum loan-to-value ratio permitted at borrow time, scaled by [`SCALE`].
    pub max_ltv: u64,
    /// Extra fraction awarded to a liquidator on seized collateral, scaled by [`SCALE`].
    pub liquidation_bonus: u64,
    /// Maximum fraction of a borrow position repayable in one liquidation, scaled by [`SCALE`].
    pub liquidation_close_factor: u64,
    /// Per-second nominal interest rate, scaled by [`SCALE`].
    pub interest_rate: u64,
    /// Timestamp of the last interest accrual applied to this pool.
    pub last_accrual_time: u64,
}

impl AssetPool {
    /// Principal and share totals are zero together: an empty side of the
    /// pool holds no shares, and shares never outlive their principal.
    pub open spec fn share_pairing(self) -> bool {
        &&& (self.total_deposits == 0 <==> self.total_deposit_shares == 0)
        &&& (self.total_borrows == 0 <==> self.total_borrow_shares == 0)
    }

    /// The fractional risk parameters describe fractions of at most one.
    pub open spec fn params_bounded(self) -> bool {
        &&& self.liquidation_threshold <= SCALE
        &&& self.liquidation_bonus <= SCALE
        &&& self.liquidation_close_factor <= SCALE
    }
}

/// Per-user record of deposit and borrow balances and proportional shares,
/// kept separately for each asset class.
#[derive(Clone, Copy, Debug, PartialEq, Eq, Structural)]
pub struct Position {
    /// The account that owns this position.
    pub owner: u64,
    /// Principal deposited in the primary class.
    pub deposit_primary: u64,
    /// Deposit share units held in the primary class.
    pub deposit_primary_shares: u64,
    /// Principal borrowed in the primary class.
    pub borrow_primary: u64,
    /// Borrow share units held in the primary class.
    pub borrow_primary_shares: u64,
    /// Principal deposited in the secondary class.
    pub deposit_secondary: u64,
    /// Deposit share units held in the secondary class.
    pub deposit_secondary_shares: u64,
    /// Principal borrowed in the secondary class.
    pub borrow_secondary: u64,
    /// Borrow share units held in the secondary class.
    pub borrow_secondary_shares: u64,
    /// Which asset class is this user's designated reference pricing branch.
    pub reference_asset: AssetClass,
    /// Accrual basis for the deposit leg.
    pub last_updated: u64,
    /// Accrual basis for the borrow leg.
    pub last_updated_borrowed: u64,
}

impl Position {
    /// Principal deposited in class `a`.
    pub open spec fn spec_deposit_amount(self, a: AssetClass) -> u64 {
        match a {
            AssetClass::Primary => self.deposit_primary,
            AssetClass::Secondary => self.deposit_secondary,
        }
    }

    /// Deposit share units held in class `a`.
    pub open spec fn spec_deposit_shares(self, a: AssetClass) -> u64 {
        match a {
            AssetClass::Primary => self.deposit_primary_shares,
            AssetClass::Secondary => self.deposit_secondary_shares,
        }
    }

    /// Principal borrowed in class `a`.
    pub open spec fn spec_borrow_amount(self, a: AssetClass) -> u64 {
        match a {
            AssetClass::Primary => self.borrow_primary,
            AssetClass::Secondary => self.borrow_secondary,
        }
    }

    /// Borrow share units held in class `a`.
    pub open spec fn spec_borrow_shares(self, a: AssetClass) -> u64 {
        match a {
            AssetClass::Primary => self.borrow_primary_shares,
            AssetClass::Secondary => self.borrow_secondary_shares,
        }
    }

    /// Principal deposited in class `a`.
    pub fn deposit_amount(&self, a: AssetClass) -> (r: u64)
        ensures
            r == self.spec_deposit_amount(a),
    {
        match a {
            AssetClass::Primary => self.deposit_primary,
            AssetClass::Secondary => self.deposit_secondary,
        }
    }

    /// Deposit share units held in class `a`.
    pub fn deposit_shares(&self, a: AssetClass) -> (r: u64)
        ensures
            r == self.spec_deposit_shares(a),
    {
        match a {
            AssetClass::Primary => self.deposit_primary_shares,
            AssetClass::Secondary => self.deposit_secondary_shares,
        }
    }

    /// Principal borrowed in class `a`.
    pub fn borrow_amount(&self, a: AssetClass) -> (r: u64)
        ensures
            r == self.spec_borrow_amount(a),
    {
        match a {
            AssetClass::Primary => self.borrow_primary,
            AssetClass::Secondary => self.borrow_secondary,
        }
    }

    /// Borrow share units held in class `a`.
    pub fn borrow_shares(&self, a: AssetClass) -> (r: u64)
        ensures
            r == self.spec_borrow_shares(a),
    {
        match a {
            AssetClass::Primary => self.borrow_primary_shares,
            AssetClass::Secondary => self.borrow_secondary_shares,
        }
    }

    /// `self` with the deposit leg of class `a` replaced.
    pub open spec fn with_deposit_leg(self, a: AssetClass, amount: u64, shares: u64) -> Position {
        match a {
            AssetClass::Primary => Position {
                deposit_primary: amount,
                deposit_primary_shares: shares,
                ..self
            },
            AssetClass::Secondary => Position {
                deposit_secondary: amount,
                deposit_secondary_shares: shares,
                ..self
            },
        }
    }

    /// `self` with the borrow leg of class `a` replaced.
    pub open spec fn with_borrow_leg(self, a: AssetClass, amount: u64, shares: u64) -> Position {
        match a {
            AssetClass::Primary => Position {
                borrow_primary: amount,
                borrow_primary_shares: shares,
                ..self
            },
            AssetClass::Secondary => Position {
                borrow_secondary: amount,
                borrow_secondary_shares: shares,
                ..self
            },
        }
    }
}

/// Creates the aggregate record for a newly supported asset class.
///
/// The caller supplies the liquidation threshold and the maximum
/// loan-to-value ratio; every balance starts at zero, and the remaining
/// risk parameters start at zero until the pool authority configures them.
pub fn initialize_pool(
    authority: u64,
    asset_id: u64,
    liquidation_threshold: u64,
    max_ltv: u64,
) -> (pool: AssetPool)
    requires
        liquidation_threshold <= SCALE,
    ensures
        pool == (AssetPool {
            authority,
            asset_id,
            total_deposits: 0,
            total_deposit_shares: 0,
            total_borrows: 0,
            total_borrow_shares: 0,
            liquidation_threshold,
            max_ltv,
            liquidation_bonus: 0,
            liquidation_close_factor: 0,
            interest_rate: 0,
            last_accrual_time: 0,
        }),
        pool.share_pairing(),
        pool.params_bounded(),
{
    AssetPool {
        authority,
        asset_id,
        total_deposits: 0,
        total_deposit_shares: 0,
        total_borrows: 0,
        total_borrow_shares: 0,
        liquidation_threshold,
        max_ltv,
        liquidation_bonus: 0,
        liquidation_close_factor: 0,
        interest_rate: 0,
        last_accrual_time: 0,
    }
}

/// Creates an empty position for `owner`, recording which asset class is
/// the user's designated reference pricing branch.
pub fn initialize_position(owner: u64, reference_asset: AssetClass) -> (position: Position)
    ensures
        position == (Position {
            owner,
            deposit_primary: 0,
            deposit_primary_shares: 0,
            borrow_primary: 0,
            borrow_primary_shares: 0,
            deposit_secondary: 0,
            deposit_secondary_shares: 0,
            borrow_secondary: 0,
            borrow_secondary_shares: 0,
            reference_asset,
            last_updated: 0,
            last_updated_borrowed: 0,
        }),
{
    Position {
        owner,
        deposit_primary: 0,
        deposit_primary_shares: 0,
        borrow_primary: 0,
        borrow_primary_shares: 0,
        deposit_secondary: 0,
        deposit_secondary_shares: 0,
        borrow_secondary: 0,
        borrow_secondary_shares: 0,
        reference_asset,
        last_updated: 0,
        last_updated_borrowed: 0,
    }
}

} // verus!
