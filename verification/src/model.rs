use crate::types::{guard_slot, Address, ContractError, EnrollmentStatus, ScholarRecord, Transfer};
use vstd::prelude::*;

verus! {

/// The contract's stored state as mathematical values: the instance entries
/// (admin, token, scholar count) and the persistent entries (scholar records
/// by id, per-cycle guards by slot).
pub struct ContractModel {
    pub admin: Option<Address>,
    pub usdc_token: Option<Address>,
    pub scholar_count: u32,
    pub scholars: Map<u32, ScholarRecord>,
    /// The per-cycle guards, by guard slot of (scholar id, cycle id).
    pub disbursed: Map<u64, bool>,
}

impl ContractModel {
    /// A contract that was never called.
    pub open spec fn empty() -> ContractModel {
        ContractModel {
            admin: None,
            usdc_token: None,
            scholar_count: 0,
            scholars: Map::empty(),
            disbursed: Map::empty(),
        }
    }

    /// What every reachable state satisfies: admin and token are set
    /// together, nothing is counted before initialization, and each record
    /// sits under its own id, an id in `1..=scholar_count`.
    pub open spec fn well_formed(self) -> bool {
        &&& self.admin.is_some() == self.usdc_token.is_some()
        &&& self.admin.is_none() ==> self.scholar_count == 0
        &&& forall|k: u32| #[trigger]
            self.scholars.contains_key(k) ==> self.scholars[k].id == k && 1 <= k
                <= self.scholar_count
    }

    /// Why `caller` may not act as the admin, if it may not.
    pub open spec fn admin_refusal(self, caller: Address) -> Option<ContractError> {
        match self.admin {
            None => Some(ContractError::NotInitialized),
            Some(a) => if a@ == caller@ {
                None
            } else {
                Some(ContractError::Unauthorized)
            },
        }
    }

    pub open spec fn initialize(self, admin: Address, usdc_token: Address) -> Result<
        ContractModel,
        ContractError,
    > {
        if self.admin.is_some() {
            Err(ContractError::AlreadyInitialized)
        } else {
            Ok(
                ContractModel {
                    admin: Some(admin),
                    usdc_token: Some(usdc_token),
                    scholar_count: 0,
                    ..self
                },
            )
        }
    }

    /// The record that registration creates.
    pub open spec fn new_record(id: u32, wallet: Address, name: String, school: String) -> ScholarRecord {
        ScholarRecord {
            id,
            wallet,
            name,
            school,
            status: EnrollmentStatus::Pending,
            total_received: 0,
        }
    }

    pub open spec fn register_scholar(
        self,
        caller: Address,
        wallet: Address,
        name: String,
        school: String,
    ) -> Result<(ContractModel, u32), ContractError> {
        match self.admin_refusal(caller) {
            Some(e) => Err(e),
            None => if self.scholar_count == u32::MAX {
                Err(ContractError::Overflow)
            } else {
                let id = (self.scholar_count + 1) as u32;
                Ok(
                    (
                        ContractModel {
                            scholar_count: id,
                            scholars: self.scholars.insert(
                                id,
                                Self::new_record(id, wallet, name, school),
                            ),
                            ..self
                        },
                        id,
                    ),
                )
            },
        }
    }

    /// Activation (`status` Active) and suspension (`status` Suspended).
    pub open spec fn set_status(
        self,
        caller: Address,
        scholar_id: u32,
        status: EnrollmentStatus,
    ) -> Result<ContractModel, ContractError> {
        match self.admin_refusal(caller) {
            Some(e) => Err(e),
            None => if !self.scholars.contains_key(scholar_id) {
                Err(ContractError::ScholarNotFound)
            } else {
                Ok(
                    ContractModel {
                        scholars: self.scholars.insert(
                            scholar_id,
                            ScholarRecord { status, ..self.scholars[scholar_id] },
                        ),
                        ..self
                    },
                )
            },
        }
    }

    /// One payment of `amount` from `from` to a scholar in a cycle, after the
    /// admin and the amount were accepted; `inactive` is the refusal of a
    /// scholar that is not Active.
    pub open spec fn pay(
        self,
        from: Address,
        scholar_id: u32,
        amount: i128,
        cycle_id: u32,
        inactive: ContractError,
    ) -> Result<(ContractModel, Transfer), ContractError> {
        if !self.scholars.contains_key(scholar_id) {
            Err(ContractError::ScholarNotFound)
        } else if self.scholars[scholar_id].status != EnrollmentStatus::Active {
            Err(inactive)
        } else if self.is_paid(scholar_id, cycle_id) {
            Err(ContractError::AlreadyDisbursed)
        } else if self.usdc_token.is_none() {
            Err(ContractError::NotInitialized)
        } else if self.scholars[scholar_id].total_received + amount > i128::MAX
            || self.scholars[scholar_id].total_received + amount < i128::MIN {
            Err(ContractError::Overflow)
        } else {
            let rec = self.scholars[scholar_id];
            Ok(
                (
                    ContractModel {
                        scholars: self.scholars.insert(
                            scholar_id,
                            ScholarRecord {
                                total_received: (rec.total_received + amount) as i128,
                                ..rec
                            },
                        ),
                        disbursed: self.disbursed.insert(guard_slot(scholar_id, cycle_id), true),
                        ..self
                    },
                    Transfer { token: self.usdc_token.unwrap(), from, to: rec.wallet, amount },
                ),
            )
        }
    }

    pub open spec fn disburse(
        self,
        caller: Address,
        scholar_id: u32,
        amount: i128,
        cycle_id: u32,
    ) -> Result<(ContractModel, Transfer), ContractError> {
        match self.admin_refusal(caller) {
            Some(e) => Err(e),
            None => if amount <= 0 {
                Err(ContractError::AmountNotPositive)
            } else {
                self.pay(caller, scholar_id, amount, cycle_id, ContractError::ScholarNotActive)
            },
        }
    }

    /// The payments of a batch made one after the other, stopping at the first refusal.
    pub open spec fn pay_each(
        self,
        from: Address,
        scholar_ids: Seq<u32>,
        amount: i128,
        cycle_id: u32,
    ) -> Result<(ContractModel, Seq<Transfer>), ContractError>
        decreases scholar_ids.len(),
    {
        if scholar_ids.len() == 0 {
            Ok((self, Seq::empty()))
        } else {
            match self.pay_each(from, scholar_ids.drop_last(), amount, cycle_id) {
                Err(e) => Err(e),
                Ok((m, ts)) => match m.pay(
                    from,
                    scholar_ids.last(),
                    amount,
                    cycle_id,
                    ContractError::BatchScholarNotActive,
                ) {
                    Err(e) => Err(e),
                    Ok((m2, t)) => Ok((m2, ts.push(t))),
                },
            }
        }
    }

    pub open spec fn batch_disburse(
        self,
        caller: Address,
        scholar_ids: Seq<u32>,
        amount_each: i128,
        cycle_id: u32,
    ) -> Result<(ContractModel, Seq<Transfer>), ContractError> {
        match self.admin_refusal(caller) {
            Some(e) => Err(e),
            None => if amount_each <= 0 {
                Err(ContractError::AmountNotPositive)
            } else {
                self.pay_each(caller, scholar_ids, amount_each, cycle_id)
            },
        }
    }

    pub open spec fn get_scholar(self, scholar_id: u32) -> Result<ScholarRecord, ContractError> {
        if self.scholars.contains_key(scholar_id) {
            Ok(self.scholars[scholar_id])
        } else {
            Err(ContractError::ScholarNotFound)
        }
    }

    /// Whether the guard of the scholar in the cycle is set.
    pub open spec fn is_paid(self, scholar_id: u32, cycle_id: u32) -> bool {
        self.disbursed.contains_key(guard_slot(scholar_id, cycle_id))
    }

    pub open spec fn get_admin(self) -> Result<Address, ContractError> {
        match self.admin {
            Some(a) => Ok(a),
            None => Err(ContractError::NotInitialized),
        }
    }
}

/// A batch refused part-way is refused as a whole, with the first refusal.
pub proof fn lemma_pay_each_refusal_persists(
    m: ContractModel,
    from: Address,
    scholar_ids: Seq<u32>,
    amount: i128,
    cycle_id: u32,
    j: int,
    e: ContractError,
)
    requires
        0 <= j <= scholar_ids.len(),
        m.pay_each(from, scholar_ids.take(j), amount, cycle_id) == Err::<
            (ContractModel, Seq<Transfer>),
            ContractError,
        >(e),
    ensures
        m.pay_each(from, scholar_ids, amount, cycle_id) == Err::<
            (ContractModel, Seq<Transfer>),
            ContractError,
        >(e),
    decreases scholar_ids.len(),
{
    if j == scholar_ids.len() {
        assert(scholar_ids.take(j) =~= scholar_ids);
    } else {
        assert(scholar_ids.drop_last().take(j) =~= scholar_ids.take(j));
        lemma_pay_each_refusal_persists(m, from, scholar_ids.drop_last(), amount, cycle_id, j, e);
    }
}

} // verus!
