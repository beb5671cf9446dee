use vstd::prelude::*;

verus! {

/// An account or contract address, held as its strkey text.
#[derive(PartialEq, Eq, Debug)]
pub struct Address {
    pub strkey: String,
}

impl View for Address {
    type V = Seq<char>;

    open spec fn view(&self) -> Seq<char> {
        self.strkey@
    }
}

impl Address {
    /// Wraps a strkey.
    pub fn new(strkey: String) -> (r: Address)
        ensures
            r.strkey == strkey,
    {
        Address { strkey }
    }

    /// Two addresses are the same account when their strkeys agree.
    pub fn same_as(&self, other: &Address) -> (r: bool)
        ensures
            r == (self@ == other@),
    {
        self.strkey == other.strkey
    }
}

impl Clone for Address {
    fn clone(&self) -> (r: Self)
        ensures
            r == *self,
    {
        Address { strkey: self.strkey.clone() }
    }
}

/// Enrollment status of a scholarship recipient.
#[derive(Clone, Copy, PartialEq, Eq, Debug, Structural)]
pub enum EnrollmentStatus {
    /// Registered but not yet verified.
    Pending,
    /// Verified; eligible to receive disbursements.
    Active,
    /// Temporarily blocked from receiving funds.
    Suspended,
}

/// A single scholarship recipient record.
#[derive(PartialEq, Eq, Debug)]
pub struct ScholarRecord {
    pub id: u32,
    pub wallet: Address,
    pub name: String,
    pub school: String,
    pub status: EnrollmentStatus,
    /// Cumulative amount received, in the token's smallest unit.
    pub total_received: i128,
}

impl Clone for ScholarRecord {
    fn clone(&self) -> (r: Self)
        ensures
            r == *self,
    {
        ScholarRecord {
            id: self.id,
            wallet: self.wallet.clone(),
            name: self.name.clone(),
            school: self.school.clone(),
            status: self.status,
            total_received: self.total_received,
        }
    }
}

/// The number of distinct cycle ids, 2^32: the factor that keeps the guard
/// slots of different scholars apart.
pub const CYCLE_SPAN: u64 = 0x1_0000_0000;

/// The slot of the per-cycle guard of a scholar: one slot per pair of
/// scholar id and cycle id, `scholar_id * 2^32 + cycle_id`.
pub open spec fn guard_slot(scholar_id: u32, cycle_id: u32) -> u64 {
    (scholar_id * CYCLE_SPAN + cycle_id) as u64
}

/// The guard slot holds the pair without truncation, so that different
/// pairs have different slots.
pub proof fn lemma_guard_slot(scholar_id: u32, cycle_id: u32)
    ensures
        guard_slot(scholar_id, cycle_id) as int == scholar_id * CYCLE_SPAN + cycle_id,
{
    assert(0 <= scholar_id * 0x1_0000_0000int + cycle_id <= 0xffff_ffff_ffff_ffffint) by (nonlinear_arith)
        requires
            0 <= scholar_id <= 0xffff_ffff,
            0 <= cycle_id <= 0xffff_ffff,
    ;
}

/// Different pairs of scholar and cycle have different guard slots.
pub proof fn lemma_guard_slot_injective(a: u32, c: u32, b: u32, d: u32)
    ensures
        guard_slot(a, c) == guard_slot(b, d) <==> (a == b && c == d),
{
    lemma_guard_slot(a, c);
    lemma_guard_slot(b, d);
    if guard_slot(a, c) == guard_slot(b, d) {
        assert(a == b && c == d) by (nonlinear_arith)
            requires
                0 <= c <= 0xffff_ffff,
                0 <= d <= 0xffff_ffff,
                0 <= a,
                0 <= b,
                a * 0x1_0000_0000int + c == b * 0x1_0000_0000int + d,
        ;
    }
}

/// The guard slot of a scholar in a cycle.
pub fn guard_slot_of(scholar_id: u32, cycle_id: u32) -> (r: u64)
    ensures
        r == guard_slot(scholar_id, cycle_id),
        r as int == scholar_id * CYCLE_SPAN + cycle_id,
{
    proof {
        lemma_guard_slot(scholar_id, cycle_id);
    }
    (scholar_id as u64) * CYCLE_SPAN + (cycle_id as u64)
}

/// The keys under which the contract keeps its state.
#[derive(Clone, Copy, PartialEq, Eq, Debug, Structural)]
pub enum DataKey {
    Admin,
    UsdcToken,
    ScholarCount,
    /// scholar id -> its record
    Scholar(u32),
    /// (scholar id, cycle id) -> `true` once the scholar was paid in that cycle
    Disbursed(u32, u32),
}

/// Why the contract refuses a call.
#[derive(Clone, Copy, PartialEq, Eq, Debug, Structural)]
pub enum ContractError {
    AlreadyInitialized,
    NotInitialized,
    Unauthorized,
    ScholarNotFound,
    AmountNotPositive,
    ScholarNotActive,
    /// The refusal of an inactive scholar inside a batch.
    BatchScholarNotActive,
    AlreadyDisbursed,
    Overflow,
}

/// The text with which the contract refuses a call.
pub open spec fn error_text(e: ContractError) -> Seq<char> {
    match e {
        ContractError::AlreadyInitialized => "already initialized"@,
        ContractError::NotInitialized => "called `Option::unwrap()` on a `None` value"@,
        ContractError::Unauthorized => "unauthorized: caller is not admin"@,
        ContractError::ScholarNotFound => "scholar not found"@,
        ContractError::AmountNotPositive => "amount must be positive"@,
        ContractError::ScholarNotActive => "scholar is not active"@,
        ContractError::BatchScholarNotActive => "scholar not active"@,
        ContractError::AlreadyDisbursed => "already disbursed this cycle"@,
        ContractError::Overflow => "arithmetic overflow"@,
    }
}

impl ContractError {
    /// The refusal text, as the contract reports it.
    pub fn message(&self) -> (r: &'static str)
        ensures
            r@ == error_text(*self),
    {
        match self {
            ContractError::AlreadyInitialized => "already initialized",
            ContractError::NotInitialized => "called `Option::unwrap()` on a `None` value",
            ContractError::Unauthorized => "unauthorized: caller is not admin",
            ContractError::ScholarNotFound => "scholar not found",
            ContractError::AmountNotPositive => "amount must be positive",
            ContractError::ScholarNotActive => "scholar is not active",
            ContractError::BatchScholarNotActive => "scholar not active",
            ContractError::AlreadyDisbursed => "already disbursed this cycle",
            ContractError::Overflow => "arithmetic overflow",
        }
    }
}

/// A token transfer that a successful disbursement asks the token contract to make.
#[derive(PartialEq, Eq, Debug)]
pub struct Transfer {
    pub token: Address,
    pub from: Address,
    pub to: Address,
    pub amount: i128,
}

} // verus!
