//! Storage of the multi-admin protocol that the `admin` and `vouch` modules run on.
use vstd::prelude::*;
use crate::addresses::copy_addresses;
use crate::stakes::StakeEntry;
use crate::table::{Duplicate, Table};
use crate::LoanRecord;

verus! {

/// The most vouchers a borrower may have when no limit has been set.
///
/// This value is assumed: nothing in the protocol's rules fixes it.
pub const DEFAULT_MAX_VOUCHERS_PER_BORROWER: u32 = 100;

/// Protocol configuration, stored under `Config`.
pub struct Config {
    /// Addresses that may approve admin operations.
    pub admins: Vec<String>,
    /// How many admins must approve an admin operation.
    pub admin_threshold: u32,
    /// The primary token of the protocol.
    pub token: String,
    /// Further tokens that admins have allowed.
    pub allowed_tokens: Vec<String>,
    /// Yield paid to vouchers on repayment, in basis points.
    pub yield_bps: i128,
    /// Share of stake slashed on default, in basis points.
    pub slash_bps: i128,
    pub max_vouchers: u32,
    pub min_loan_amount: i128,
    pub loan_duration: u64,
    pub max_loan_to_stake_ratio: u32,
}

/// A configuration as mathematical values.
pub struct ConfigModel {
    pub admins: Seq<String>,
    pub admin_threshold: u32,
    pub token: String,
    pub allowed_tokens: Seq<String>,
    pub yield_bps: i128,
    pub slash_bps: i128,
    pub max_vouchers: u32,
    pub min_loan_amount: i128,
    pub loan_duration: u64,
    pub max_loan_to_stake_ratio: u32,
}

impl View for Config {
    type V = ConfigModel;

    open spec fn view(&self) -> ConfigModel {
        ConfigModel {
            admins: self.admins@,
            admin_threshold: self.admin_threshold,
            token: self.token,
            allowed_tokens: self.allowed_tokens@,
            yield_bps: self.yield_bps,
            slash_bps: self.slash_bps,
            max_vouchers: self.max_vouchers,
            min_loan_amount: self.min_loan_amount,
            loan_duration: self.loan_duration,
            max_loan_to_stake_ratio: self.max_loan_to_stake_ratio,
        }
    }
}

impl Config {
    /// A copy of this configuration.
    pub fn copy(&self) -> (r: Config)
        ensures
            r@ == self@,
    {
        Config {
            admins: copy_addresses(&self.admins),
            admin_threshold: self.admin_threshold,
            token: self.token.clone(),
            allowed_tokens: copy_addresses(&self.allowed_tokens),
            yield_bps: self.yield_bps,
            slash_bps: self.slash_bps,
            max_vouchers: self.max_vouchers,
            min_loan_amount: self.min_loan_amount,
            loan_duration: self.loan_duration,
            max_loan_to_stake_ratio: self.max_loan_to_stake_ratio,
        }
    }
}

/// Stake that one voucher holds for a borrower, with the ledger time of the vouch.
#[derive(Debug)]
pub struct VouchRecord {
    pub voucher: String,
    /// in stroops
    pub stake: i128,
    pub vouch_timestamp: u64,
}

impl Clone for VouchRecord {
    fn clone(&self) -> (r: Self)
        ensures
            r == *self,
    {
        VouchRecord {
            voucher: self.voucher.clone(),
            stake: self.stake,
            vouch_timestamp: self.vouch_timestamp,
        }
    }
}

impl StakeEntry for VouchRecord {
    open spec fn voucher_key(&self) -> Seq<char> {
        self.voucher@
    }

    open spec fn stake_amount(&self) -> i128 {
        self.stake
    }

    fn voucher(&self) -> (r: &String) {
        &self.voucher
    }

    fn stake(&self) -> (r: i128) {
        self.stake
    }
}

/// A copy of a list of vouch records.
pub fn copy_vouches(list: &Vec<VouchRecord>) -> (r: Vec<VouchRecord>)
    ensures
        r@ == list@,
{
    let mut out: Vec<VouchRecord> = Vec::new();
    let mut i: usize = 0;
    while i < list.len()
        invariant
            i <= list@.len(),
            out@ == list@.take(i as int),
        decreases list@.len() - i,
    {
        out.push(list[i].clone());
        assert(out@ =~= list@.take(i as int + 1));
        i = i + 1;
    }
    assert(list@.take(i as int) =~= list@);
    out
}

impl Duplicate for Vec<VouchRecord> {
    fn duplicate(&self) -> (r: Self) {
        copy_vouches(self)
    }
}

/// The protocol's storage: its instance entries, then its persistent entries.
pub struct ContractStorage {
    pub config: Option<Config>,
    pub protocol_fee_bps: Option<u32>,
    pub whitelist_enabled: Option<bool>,
    pub fee_treasury: Option<String>,
    pub paused: Option<bool>,
    pub reputation_nft: Option<String>,
    pub min_stake: Option<i128>,
    pub max_loan_amount: Option<i128>,
    pub min_vouchers: Option<u32>,
    pub max_vouchers_per_borrower: Option<u32>,
    pub slash_treasury: Option<i128>,
    /// `VoucherWhitelist(voucher)`
    pub voucher_whitelist: Table<bool>,
    /// `Blacklisted(borrower)`
    pub blacklisted: Table<bool>,
    /// `Vouches(borrower)`
    pub vouches: Table<Vec<VouchRecord>>,
    /// `VoucherHistory(voucher)`: the borrowers a voucher has vouched for
    pub voucher_history: Table<Vec<String>>,
    /// `LastVouchTimestamp(voucher)`
    pub last_vouch_timestamp: Table<u64>,
    /// `Loan(borrower)`
    pub loans: Table<LoanRecord>,
}

/// The protocol's storage as mathematical values.
pub struct StorageModel {
    pub config: Option<ConfigModel>,
    pub protocol_fee_bps: Option<u32>,
    pub whitelist_enabled: Option<bool>,
    pub fee_treasury: Option<String>,
    pub paused: Option<bool>,
    pub reputation_nft: Option<String>,
    pub min_stake: Option<i128>,
    pub max_loan_amount: Option<i128>,
    pub min_vouchers: Option<u32>,
    pub max_vouchers_per_borrower: Option<u32>,
    pub slash_treasury: Option<i128>,
    pub voucher_whitelist: Map<Seq<char>, bool>,
    pub blacklisted: Map<Seq<char>, bool>,
    pub vouches: Map<Seq<char>, Seq<VouchRecord>>,
    pub voucher_history: Map<Seq<char>, Seq<String>>,
    pub last_vouch_timestamp: Map<Seq<char>, u64>,
    pub loans: Map<Seq<char>, LoanRecord>,
}

/// The mathematical value of an optional configuration.
pub open spec fn config_view(c: Option<Config>) -> Option<ConfigModel> {
    match c {
        Some(c) => Some(c@),
        None => None,
    }
}

impl View for ContractStorage {
    type V = StorageModel;

    open spec fn view(&self) -> StorageModel {
        StorageModel {
            config: config_view(self.config),
            protocol_fee_bps: self.protocol_fee_bps,
            whitelist_enabled: self.whitelist_enabled,
            fee_treasury: self.fee_treasury,
            paused: self.paused,
            reputation_nft: self.reputation_nft,
            min_stake: self.min_stake,
            max_loan_amount: self.max_loan_amount,
            min_vouchers: self.min_vouchers,
            max_vouchers_per_borrower: self.max_vouchers_per_borrower,
            slash_treasury: self.slash_treasury,
            voucher_whitelist: self.voucher_whitelist@,
            blacklisted: self.blacklisted@,
            vouches: self.vouches@.map_values(|v: Vec<VouchRecord>| v@),
            voucher_history: self.voucher_history@.map_values(|v: Vec<String>| v@),
            last_vouch_timestamp: self.last_vouch_timestamp@,
            loans: self.loans@,
        }
    }
}

impl StorageModel {
    /// The vouches stored for `borrower`; none when the entry is absent.
    pub open spec fn vouches_of(self, borrower: Seq<char>) -> Seq<VouchRecord> {
        if self.vouches.contains_key(borrower) {
            self.vouches[borrower]
        } else {
            Seq::empty()
        }
    }

    /// The borrowers that `voucher` has vouched for; none when the entry is absent.
    pub open spec fn history_of(self, voucher: Seq<char>) -> Seq<String> {
        if self.voucher_history.contains_key(voucher) {
            self.voucher_history[voucher]
        } else {
            Seq::empty()
        }
    }

    /// Whether the contract is paused.
    pub open spec fn is_paused(self) -> bool {
        self.paused == Some(true)
    }

    /// Whether `borrower` has a loan that is neither repaid nor defaulted.
    pub open spec fn has_active_loan(self, borrower: Seq<char>) -> bool {
        &&& self.loans.contains_key(borrower)
        &&& !self.loans[borrower].repaid
        &&& !self.loans[borrower].defaulted
    }
}

impl ContractStorage {
    /// Storage holding only the given configuration, if any.
    pub fn new(config: Option<Config>) -> (s: Self)
        ensures
            s@ == (StorageModel {
                config: config_view(config),
                protocol_fee_bps: None,
                whitelist_enabled: None,
                fee_treasury: None,
                paused: None,
                reputation_nft: None,
                min_stake: None,
                max_loan_amount: None,
                min_vouchers: None,
                max_vouchers_per_borrower: None,
                slash_treasury: None,
                voucher_whitelist: Map::empty(),
                blacklisted: Map::empty(),
                vouches: Map::empty(),
                voucher_history: Map::empty(),
                last_vouch_timestamp: Map::empty(),
                loans: Map::empty(),
            }),
    {
        let s = ContractStorage {
            config,
            protocol_fee_bps: None,
            whitelist_enabled: None,
            fee_treasury: None,
            paused: None,
            reputation_nft: None,
            min_stake: None,
            max_loan_amount: None,
            min_vouchers: None,
            max_vouchers_per_borrower: None,
            slash_treasury: None,
            voucher_whitelist: Table::new(),
            blacklisted: Table::new(),
            vouches: Table::new(),
            voucher_history: Table::new(),
            last_vouch_timestamp: Table::new(),
            loans: Table::new(),
        };
        assert(s@.vouches =~= Map::<Seq<char>, Seq<VouchRecord>>::empty());
        assert(s@.voucher_history =~= Map::<Seq<char>, Seq<String>>::empty());
        s
    }
}

} // verus!
