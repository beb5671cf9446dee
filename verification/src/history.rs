use crate::model::ContractModel;
use crate::types::{Address, EnrollmentStatus};
use vstd::prelude::*;

verus! {

/// A call of the contract, with its arguments.
pub enum Call {
    Initialize { admin: Address, usdc_token: Address },
    Register { caller: Address, wallet: Address, name: String, school: String },
    Activate { caller: Address, scholar_id: u32 },
    Suspend { caller: Address, scholar_id: u32 },
    Disburse { caller: Address, scholar_id: u32, amount: i128, cycle_id: u32 },
    BatchDisburse { caller: Address, scholar_ids: Seq<u32>, amount_each: i128, cycle_id: u32 },
}

/// A stipend paid to a scholar, tagged with its cycle.
pub struct Payment {
    pub scholar_id: u32,
    pub cycle_id: u32,
    pub amount: i128,
}

/// The payments of a successful batch, in list order.
pub open spec fn batch_payments(scholar_ids: Seq<u32>, cycle_id: u32, amount: i128) -> Seq<Payment> {
    scholar_ids.map_values(|id: u32| Payment { scholar_id: id, cycle_id, amount })
}

/// The state after a call and the payments it made. A refused call is
/// reverted: it leaves the state as it was and pays nobody.
pub open spec fn after(m: ContractModel, call: Call) -> (ContractModel, Seq<Payment>) {
    match call {
        Call::Initialize { admin, usdc_token } => match m.initialize(admin, usdc_token) {
            Ok(m1) => (m1, Seq::empty()),
            Err(_) => (m, Seq::empty()),
        },
        Call::Register { caller, wallet, name, school } => match m.register_scholar(
            caller,
            wallet,
            name,
            school,
        ) {
            Ok((m1, _)) => (m1, Seq::empty()),
            Err(_) => (m, Seq::empty()),
        },
        Call::Activate { caller, scholar_id } => match m.set_status(
            caller,
            scholar_id,
            EnrollmentStatus::Active,
        ) {
            Ok(m1) => (m1, Seq::empty()),
            Err(_) => (m, Seq::empty()),
        },
        Call::Suspend { caller, scholar_id } => match m.set_status(
            caller,
            scholar_id,
            EnrollmentStatus::Suspended,
        ) {
            Ok(m1) => (m1, Seq::empty()),
            Err(_) => (m, Seq::empty()),
        },
        Call::Disburse { caller, scholar_id, amount, cycle_id } => match m.disburse(
            caller,
            scholar_id,
            amount,
            cycle_id,
        ) {
            Ok((m1, _)) => (m1, seq![Payment { scholar_id, cycle_id, amount }]),
            Err(_) => (m, Seq::empty()),
        },
        Call::BatchDisburse { caller, scholar_ids, amount_each, cycle_id } => match m.batch_disburse(
            caller,
            scholar_ids,
            amount_each,
            cycle_id,
        ) {
            Ok((m1, _)) => (m1, batch_payments(scholar_ids, cycle_id, amount_each)),
            Err(_) => (m, Seq::empty()),
        },
    }
}

/// The state after a sequence of calls and the payments they made, in order.
pub open spec fn run(m: ContractModel, calls: Seq<Call>) -> (ContractModel, Seq<Payment>)
    decreases calls.len(),
{
    if calls.len() == 0 {
        (m, Seq::empty())
    } else {
        let (m1, ps) = run(m, calls.drop_last());
        let (m2, qs) = after(m1, calls.last());
        (m2, ps + qs)
    }
}

/// Whether a call registers a scholar (is a registration that is not refused).
pub open spec fn registers(m: ContractModel, call: Call) -> bool {
    match call {
        Call::Register { caller, wallet, name, school } => m.register_scholar(
            caller,
            wallet,
            name,
            school,
        ) is Ok,
        _ => false,
    }
}

/// The number of registrations among a sequence of calls.
pub open spec fn registrations(m: ContractModel, calls: Seq<Call>) -> nat
    decreases calls.len(),
{
    if calls.len() == 0 {
        0
    } else {
        registrations(m, calls.drop_last()) + if registers(run(m, calls.drop_last()).0, calls.last()) {
            1nat
        } else {
            0nat
        }
    }
}

/// Whether the `i`-th call of a sequence activates the scholar, and is not
/// refused (in the state the calls before it leave).
pub open spec fn activated_at(m: ContractModel, calls: Seq<Call>, i: int, s: u32) -> bool {
    match calls[i] {
        Call::Activate { caller, scholar_id } => scholar_id == s && run(m, calls.take(i)).0.set_status(
            caller,
            s,
            EnrollmentStatus::Active,
        ) is Ok,
        _ => false,
    }
}

/// Whether some payment of a list went to the scholar in the cycle.
pub open spec fn pays_pair(ps: Seq<Payment>, s: u32, c: u32) -> bool {
    exists|i: int| 0 <= i < ps.len() && #[trigger] ps[i].scholar_id == s && ps[i].cycle_id == c
}

/// The sum of the payments of a list to the scholar.
pub open spec fn paid_to(ps: Seq<Payment>, s: u32) -> int
    decreases ps.len(),
{
    if ps.len() == 0 {
        0
    } else {
        paid_to(ps.drop_last(), s) + if ps.last().scholar_id == s {
            ps.last().amount as int
        } else {
            0
        }
    }
}

} // verus!
