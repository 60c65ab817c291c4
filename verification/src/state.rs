//! On-chain state of accounts and banks, held as plain values, and the protocol's constants.
//!
//! Fixed-point fields are the raw bits of an `I80F48` (see `fixed_point`).

use vstd::prelude::*;

verus! {

// ---------------------------------------------------------------------------------------------
// Constants
// ---------------------------------------------------------------------------------------------

/// Asset tag of an ordinary bank.
pub const ASSET_TAG_DEFAULT: u8 = 0;

/// Asset tag of a bank for native SOL.
pub const ASSET_TAG_SOL: u8 = 1;

/// Asset tag of a staked-collateral bank.
pub const ASSET_TAG_STAKED: u8 = 2;

/// Asset tag of a Kamino integration bank.
pub const ASSET_TAG_KAMINO: u8 = 3;

/// Asset tag of a Drift integration bank.
pub const ASSET_TAG_DRIFT: u8 = 4;

/// Asset tag of a Solend integration bank.
pub const ASSET_TAG_SOLEND: u8 = 5;

/// Asset tag of a JupLend integration bank.
pub const ASSET_TAG_JUPLEND: u8 = 6;

/// Decimals of Drift's scaled balances, used for Drift banks in place of the mint's.
pub const DRIFT_SCALED_BALANCE_DECIMALS: u8 = 9;

/// Number of balance slots of a lending account.
pub const MAX_LENDING_ACCOUNT_BALANCES: usize = 16;

/// Maximum number of open integration (Kamino, Drift, Solend, JupLend) positions per account.
pub const MAX_INTEGRATION_POSITIONS: usize = 8;

/// Number of tags an order can reserve.
pub const ORDER_ACTIVE_TAGS: usize = 2;

/// Account flag: the account was disabled.
pub const ACCOUNT_DISABLED: u64 = 1;

/// Account flag: a flash loan is in progress.
pub const ACCOUNT_IN_FLASHLOAN: u64 = 2;

/// Account flag: the account is being liquidated in receivership.
pub const ACCOUNT_IN_RECEIVERSHIP: u64 = 16;

/// Account flag: the account is being deleveraged.
pub const ACCOUNT_IN_DELEVERAGE: u64 = 32;

/// Account flag: the account was frozen by the group admin.
pub const ACCOUNT_FROZEN: u64 = 64;

/// Account flag: an order of the account is being executed.
pub const ACCOUNT_IN_ORDER_EXECUTION: u64 = 128;

/// Bank flag: the mint is a Token-2022 mint.
pub const IS_T22: u64 = 128;

/// Bank flag: the bank's seed is known and stored in `bank_seed`.
pub const BANK_SEED_KNOWN: u64 = 256;

/// Bits of 1.0: a balance side with fewer shares than this is empty.
pub const EMPTY_BALANCE_THRESHOLD: i128 = 0x1_0000_0000_0000;

/// Bits of 0.0001 (rounded to nearest): amounts within this of zero count as zero.
pub const ZERO_AMOUNT_THRESHOLD: i128 = 28_147_497_671;

/// Bits of 0.1 (rounded to nearest): an account whose equity assets are worth less than this
/// (in dollars) may be declared bankrupt.
pub const BANKRUPT_THRESHOLD: i128 = 28_147_497_671_066;

/// Number of entries of the table of powers of ten: decimals must be below this.
pub const EXP_10_LEN: usize = 24;

// ---------------------------------------------------------------------------------------------
// Keys
// ---------------------------------------------------------------------------------------------

/// A 32-byte public key, held as four big-endian 64-bit words, so that the order of the words
/// is the byte order of the key.
#[derive(PartialEq, Eq, Structural, Clone, Copy, Debug)]
pub struct Pubkey {
    pub w0: u64,
    pub w1: u64,
    pub w2: u64,
    pub w3: u64,
}

/// The all-zero key (`Pubkey::default()`).
pub open spec fn spec_default_key() -> Pubkey {
    Pubkey { w0: 0, w1: 0, w2: 0, w3: 0 }
}

/// Byte-order comparison of keys: `a` comes strictly before `b`.
pub open spec fn key_lt(a: Pubkey, b: Pubkey) -> bool {
    ||| a.w0 < b.w0
    ||| (a.w0 == b.w0 && a.w1 < b.w1)
    ||| (a.w0 == b.w0 && a.w1 == b.w1 && a.w2 < b.w2)
    ||| (a.w0 == b.w0 && a.w1 == b.w1 && a.w2 == b.w2 && a.w3 < b.w3)
}

impl Pubkey {
    /// The all-zero key.
    pub fn default_key() -> (r: Pubkey)
        ensures
            r == spec_default_key(),
    {
        Pubkey { w0: 0, w1: 0, w2: 0, w3: 0 }
    }

    /// Key equality.
    pub fn same(&self, other: &Pubkey) -> (r: bool)
        ensures
            r == (*self == *other),
    {
        self.w0 == other.w0 && self.w1 == other.w1 && self.w2 == other.w2 && self.w3 == other.w3
    }

    /// Whether `self` comes strictly before `other` in byte order.
    pub fn less_than(&self, other: &Pubkey) -> (r: bool)
        ensures
            r == key_lt(*self, *other),
    {
        if self.w0 != other.w0 {
            self.w0 < other.w0
        } else if self.w1 != other.w1 {
            self.w1 < other.w1
        } else if self.w2 != other.w2 {
            self.w2 < other.w2
        } else {
            self.w3 < other.w3
        }
    }
}

// ---------------------------------------------------------------------------------------------
// Errors
// ---------------------------------------------------------------------------------------------

/// Errors of the protocol's logic.
#[derive(PartialEq, Eq, Structural, Clone, Copy, Debug)]
pub enum MarginfiError {
    MathError,
    AssetTagMismatch,
    InvalidBankAccount,
    WrongNumberOfOracleAccounts,
    AccountInFlashloan,
    InternalLogicError,
    HealthyAccount,
    AccountNotBankrupt,
    IsolatedAccountIllegalState,
    RiskEngineInitRejected,
    LendingAccountBalanceNotFound,
    NoLiabilitiesInLiabilityBank,
    AssetsInLiabilityBank,
    ExhaustedLiability,
    TooSeverePayoff,
    TooSevereLiquidation,
    WorseHealthPostLiquidation,
    IllegalAction,
    BankAccountNotFound,
    IntegrationPositionLimitExceeded,
    LendingAccountBalanceSlotsFull,
    NoAssetFound,
    NoLiabilityFound,
    IllegalBalanceState,
    OperationRepayOnly,
    OperationDepositOnly,
    OperationWithdrawOnly,
    OperationBorrowOnly,
    BankAssetCapacityExceeded,
    BankLiabilityCapacityExceeded,
    IllegalUtilizationRatio,
    MetadataTooLong,
    StakePoolValidationFailed,
    InvalidOracleSetup,
    /// A remaining account that should hold a bank does not deserialize as one.
    AccountNotABank,
    /// An error reported by an oracle, by its numeric code.
    OracleFailure(u32),
}

// ---------------------------------------------------------------------------------------------
// Enumerations
// ---------------------------------------------------------------------------------------------

/// Which side of a balance holds shares.
#[derive(PartialEq, Eq, Structural, Clone, Copy, Debug)]
pub enum BalanceSide {
    Assets,
    Liabilities,
}

/// The margin requirement a health computation uses.
#[derive(PartialEq, Eq, Structural, Clone, Copy, Debug)]
pub enum RequirementType {
    Initial,
    Maintenance,
    Equity,
}

/// Which oracle price a computation reads.
#[derive(PartialEq, Eq, Structural, Clone, Copy, Debug)]
pub enum OraclePriceType {
    TimeWeighted,
    RealTime,
}

/// Direction in which a price is moved by its confidence interval.
#[derive(PartialEq, Eq, Structural, Clone, Copy, Debug)]
pub enum PriceBias {
    Low,
    High,
}

/// Risk tier of a bank.
#[derive(PartialEq, Eq, Structural, Clone, Copy, Debug)]
pub enum RiskTier {
    Collateral,
    /// Assets of this tier can only be borrowed alone.
    Isolated,
}

/// Operational state of a bank.
#[derive(PartialEq, Eq, Structural, Clone, Copy, Debug)]
pub enum BankOperationalState {
    /// All operations are halted
    Paused,
    /// Normal operations
    Operational,
    /// Only withdrawals and repayments are allowed (no new deposits or borrows)
    ReduceOnly,
    /// Bank was killed by a bankruptcy event (irrecoverable)
    KilledByBankruptcy,
}

/// How a bank is priced.
#[derive(PartialEq, Eq, Structural, Clone, Copy, Debug)]
pub enum OracleSetup {
    /// No oracle configured.
    NoOracle,
    PythLegacy,
    SwitchboardV2,
    PythPushOracle,
    SwitchboardPull,
    StakedWithPythPush,
    KaminoPythPush,
    KaminoSwitchboardPull,
    Fixed,
    DriftPythPull,
    DriftSwitchboardPull,
    SolendPythPull,
    SolendSwitchboardPull,
    FixedKamino,
    FixedDrift,
    JuplendPythPull,
    JuplendSwitchboardPull,
    FixedJuplend,
}

/// The wire number of each oracle setup.
pub open spec fn oracle_setup_code(s: OracleSetup) -> u8 {
    match s {
        OracleSetup::NoOracle => 0,
        OracleSetup::PythLegacy => 1,
        OracleSetup::SwitchboardV2 => 2,
        OracleSetup::PythPushOracle => 3,
        OracleSetup::SwitchboardPull => 4,
        OracleSetup::StakedWithPythPush => 5,
        OracleSetup::KaminoPythPush => 6,
        OracleSetup::KaminoSwitchboardPull => 7,
        OracleSetup::Fixed => 8,
        OracleSetup::DriftPythPull => 9,
        OracleSetup::DriftSwitchboardPull => 10,
        OracleSetup::SolendPythPull => 11,
        OracleSetup::SolendSwitchboardPull => 12,
        OracleSetup::FixedKamino => 13,
        OracleSetup::FixedDrift => 14,
        OracleSetup::JuplendPythPull => 15,
        OracleSetup::JuplendSwitchboardPull => 16,
        OracleSetup::FixedJuplend => 17,
    }
}

impl OracleSetup {
    /// The oracle setup with wire number `value`, `None` for an unknown number.
    pub fn from_u8(value: u8) -> (r: Option<OracleSetup>)
        ensures
            value <= 17 ==> r is Some && oracle_setup_code(r->0) == value,
            value > 17 ==> r is None,
    {
        match value {
            0 => Some(OracleSetup::NoOracle),
            1 => Some(OracleSetup::PythLegacy),
            2 => Some(OracleSetup::SwitchboardV2),
            3 => Some(OracleSetup::PythPushOracle),
            4 => Some(OracleSetup::SwitchboardPull),
            5 => Some(OracleSetup::StakedWithPythPush),
            6 => Some(OracleSetup::KaminoPythPush),
            7 => Some(OracleSetup::KaminoSwitchboardPull),
            8 => Some(OracleSetup::Fixed),
            9 => Some(OracleSetup::DriftPythPull),
            10 => Some(OracleSetup::DriftSwitchboardPull),
            11 => Some(OracleSetup::SolendPythPull),
            12 => Some(OracleSetup::SolendSwitchboardPull),
            13 => Some(OracleSetup::FixedKamino),
            14 => Some(OracleSetup::FixedDrift),
            15 => Some(OracleSetup::JuplendPythPull),
            16 => Some(OracleSetup::JuplendSwitchboardPull),
            17 => Some(OracleSetup::FixedJuplend),
            _ => None,
        }
    }
}

/// Distinct setups have distinct wire numbers, all at most 17; with the contract of `from_u8`,
/// decoding a setup's number gives that setup back.
pub proof fn lemma_oracle_setup_code_injective(a: OracleSetup, b: OracleSetup)
    ensures
        oracle_setup_code(a) <= 17,
        oracle_setup_code(a) == oracle_setup_code(b) ==> a == b,
{
}


// ---------------------------------------------------------------------------------------------
// Balances and accounts
// ---------------------------------------------------------------------------------------------

/// One position of a lending account in one bank.
#[derive(PartialEq, Eq, Structural, Clone, Copy, Debug)]
pub struct Balance {
    /// Non-zero when the slot is in use.
    pub active: u8,
    pub bank_pk: Pubkey,
    /// Asset tag of the bank, recorded when the position was opened.
    pub bank_asset_tag: u8,
    /// Tag given to the position by an order; 0 when untagged.
    pub tag: u16,
    pub asset_shares: i128,
    pub liability_shares: i128,
    pub emissions_outstanding: i128,
    pub last_update: u64,
}

/// The empty, inactive balance.
pub open spec fn spec_empty_balance() -> Balance {
    Balance {
        active: 0,
        bank_pk: spec_default_key(),
        bank_asset_tag: 0,
        tag: 0,
        asset_shares: 0,
        liability_shares: 0,
        emissions_outstanding: 0,
        last_update: 0,
    }
}

/// Whether a balance slot is in use.
pub open spec fn balance_active(b: Balance) -> bool {
    b.active != 0
}

/// Whether one side of a balance holds less than one share.
pub open spec fn side_empty(b: Balance, side: BalanceSide) -> bool {
    match side {
        BalanceSide::Assets => b.asset_shares < EMPTY_BALANCE_THRESHOLD,
        BalanceSide::Liabilities => b.liability_shares < EMPTY_BALANCE_THRESHOLD,
    }
}

/// A balance never holds a share or more on both sides.
pub open spec fn balance_sides_consistent(b: Balance) -> bool {
    b.asset_shares < EMPTY_BALANCE_THRESHOLD || b.liability_shares < EMPTY_BALANCE_THRESHOLD
}

/// The side of a balance that holds shares, if any.
pub open spec fn balance_side(b: Balance) -> Option<BalanceSide> {
    if b.liability_shares >= EMPTY_BALANCE_THRESHOLD {
        Some(BalanceSide::Liabilities)
    } else if b.asset_shares >= EMPTY_BALANCE_THRESHOLD {
        Some(BalanceSide::Assets)
    } else {
        None
    }
}

impl Balance {
    /// The empty, inactive balance.
    pub fn empty_deactivated() -> (r: Balance)
        ensures
            r == spec_empty_balance(),
    {
        Balance {
            active: 0,
            bank_pk: Pubkey::default_key(),
            bank_asset_tag: 0,
            tag: 0,
            asset_shares: 0,
            liability_shares: 0,
            emissions_outstanding: 0,
            last_update: 0,
        }
    }

    /// Whether the slot is in use.
    pub fn is_active(&self) -> (r: bool)
        ensures
            r == balance_active(*self),
    {
        self.active != 0
    }

    /// Whether the given side holds less than one share.
    pub fn is_empty(&self, side: BalanceSide) -> (r: bool)
        ensures
            r == side_empty(*self, side),
    {
        match side {
            BalanceSide::Assets => self.asset_shares < EMPTY_BALANCE_THRESHOLD,
            BalanceSide::Liabilities => self.liability_shares < EMPTY_BALANCE_THRESHOLD,
        }
    }

    /// The side that holds shares, if any.
    pub fn get_side(&self) -> (r: Option<BalanceSide>)
        requires
            balance_sides_consistent(*self),
        ensures
            r == balance_side(*self),
    {
        if self.liability_shares >= EMPTY_BALANCE_THRESHOLD {
            Some(BalanceSide::Liabilities)
        } else if self.asset_shares >= EMPTY_BALANCE_THRESHOLD {
            Some(BalanceSide::Assets)
        } else {
            None
        }
    }
}

/// The balances of an account.
#[derive(PartialEq, Eq, Clone, Debug)]
pub struct LendingAccount {
    pub balances: Vec<Balance>,
    /// The last tag handed out to an order.
    pub last_tag_used: u16,
}

/// Shape of a lending account: a fixed number of slots.
pub open spec fn lending_account_wf(la: LendingAccount) -> bool {
    la.balances@.len() == MAX_LENDING_ACCOUNT_BALANCES
}

/// Every balance of the sequence holds shares on at most one side.
pub open spec fn all_sides_consistent(bs: Seq<Balance>) -> bool {
    forall|i: int| 0 <= i < bs.len() ==> #[trigger] balance_sides_consistent(bs[i])
}

/// Flags kept for off-chain indexers.
#[derive(PartialEq, Eq, Structural, Clone, Copy, Debug)]
pub struct IndexerFlags {
    pub is_empty: u8,
    pub was_active_30d: u8,
    pub was_active_60d: u8,
    pub has_isolated: u8,
}

/// A user's margin account.
#[derive(PartialEq, Eq, Clone, Debug)]
pub struct MarginfiAccount {
    pub group: Pubkey,
    pub authority: Pubkey,
    pub lending_account: LendingAccount,
    pub account_flags: u64,
    pub emissions_destination_account: Pubkey,
    pub migrated_from: Pubkey,
    pub migrated_to: Pubkey,
    pub last_update: u64,
    pub indexer_flags: IndexerFlags,
    pub active_orders: u8,
    pub liquidation_record: Pubkey,
}

// ---------------------------------------------------------------------------------------------
// Banks
// ---------------------------------------------------------------------------------------------

/// One entry of an emode configuration: preferential weights for collateral of a tag.
#[derive(PartialEq, Eq, Structural, Clone, Copy, Debug)]
pub struct EmodeEntry {
    pub collateral_bank_emode_tag: u16,
    pub asset_weight_init: i128,
    pub asset_weight_maint: i128,
}

/// The emode entries a liability bank grants.
#[derive(PartialEq, Eq, Clone, Debug)]
pub struct EmodeConfig {
    pub entries: Vec<EmodeEntry>,
}

/// A bank's emode settings.
#[derive(PartialEq, Eq, Clone, Debug)]
pub struct EmodeSettings {
    /// Emode tag of the bank as collateral; 0 for none.
    pub emode_tag: u16,
    pub emode_config: EmodeConfig,
}

/// A bank's risk configuration.
#[derive(PartialEq, Eq, Clone, Debug)]
pub struct BankConfig {
    pub asset_weight_init: i128,
    pub asset_weight_maint: i128,
    pub liability_weight_init: i128,
    pub liability_weight_maint: i128,
    pub deposit_limit: u64,
    pub borrow_limit: u64,
    pub operational_state: BankOperationalState,
    pub risk_tier: RiskTier,
    pub asset_tag: u8,
    pub oracle_setup: OracleSetup,
    pub oracle_keys: Vec<Pubkey>,
    /// Dollar value of deposits beyond which initial asset weights are discounted; 0 when off.
    pub total_asset_value_init_limit: u64,
}

/// A bank's cached liquidation prices.
#[derive(PartialEq, Eq, Structural, Clone, Copy, Debug)]
pub struct BankCache {
    pub liquidation_price_rt: i128,
    pub liquidation_price_rt_confidence: i128,
    pub liquidation_price_twap: i128,
    pub liquidation_price_twap_confidence: i128,
    pub liquidation_price_cache_locked: bool,
}

/// A lending pool for one mint.
#[derive(PartialEq, Eq, Clone, Debug)]
pub struct Bank {
    pub mint: Pubkey,
    /// Number of decimals of the mint; below 24.
    pub mint_decimals: u8,
    pub group: Pubkey,
    /// Token amount per asset share.
    pub asset_share_value: i128,
    /// Token amount per liability share.
    pub liability_share_value: i128,
    pub collected_insurance_fees_outstanding: i128,
    pub collected_group_fees_outstanding: i128,
    pub total_liability_shares: i128,
    pub total_asset_shares: i128,
    pub config: BankConfig,
    pub flags: u64,
    pub emode: EmodeSettings,
    pub cache: BankCache,
    pub lending_position_count: i32,
    pub borrowing_position_count: i32,
    pub integration_acc_1: Pubkey,
    pub bank_seed: u64,
}

/// The decimals in which a bank's balances are counted.
pub open spec fn balance_decimals(bank: Bank) -> u8 {
    if bank.config.asset_tag == ASSET_TAG_DRIFT {
        DRIFT_SCALED_BALANCE_DECIMALS
    } else {
        bank.mint_decimals
    }
}

impl Bank {
    /// The decimals in which the bank's balances are counted: Drift's scaled decimals for Drift
    /// banks, else the mint's.
    pub fn get_balance_decimals(&self) -> (r: u8)
        ensures
            r == balance_decimals(*self),
    {
        if self.config.asset_tag == ASSET_TAG_DRIFT {
            DRIFT_SCALED_BALANCE_DECIMALS
        } else {
            self.mint_decimals
        }
    }
}

} // verus!
