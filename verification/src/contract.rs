use crate::model::{lemma_pay_each_refusal_persists, ContractModel};
use crate::types::{guard_slot_of, Address, ContractError, EnrollmentStatus, ScholarRecord, Transfer};
use std::collections::HashMap;
use vstd::prelude::*;

verus! {

broadcast use vstd::std_specs::hash::group_hash_axioms;

/// The contract together with the part of its storage that a call works on:
/// the instance entries and the scholar records and per-cycle guards by key.
pub struct TulongScholarContract {
    pub admin: Option<Address>,
    pub usdc_token: Option<Address>,
    pub scholar_count: u32,
    pub scholars: HashMap<u32, ScholarRecord>,
    pub disbursed: HashMap<u64, bool>,
}

impl View for TulongScholarContract {
    type V = ContractModel;

    open spec fn view(&self) -> ContractModel {
        ContractModel {
            admin: self.admin,
            usdc_token: self.usdc_token,
            scholar_count: self.scholar_count,
            scholars: self.scholars@,
            disbursed: self.disbursed@,
        }
    }
}

fn copy_address_option(a: &Option<Address>) -> (r: Option<Address>)
    ensures
        r == *a,
{
    match a {
        Some(x) => Some(x.clone()),
        None => None,
    }
}

impl TulongScholarContract {
    /// A contract with empty storage.
    pub fn new() -> (r: TulongScholarContract)
        ensures
            r@ == ContractModel::empty(),
    {
        TulongScholarContract {
            admin: None,
            usdc_token: None,
            scholar_count: 0,
            scholars: HashMap::new(),
            disbursed: HashMap::new(),
        }
    }

    /// Initialize the contract with an admin address and the USDC token address.
    /// Refused once an admin is stored.
    pub fn initialize(&mut self, admin: Address, usdc_token: Address) -> (r: Result<(), ContractError>)
        ensures
            match old(self)@.initialize(admin, usdc_token) {
                Ok(m) => r == Ok::<(), ContractError>(()) && final(self)@ == m,
                Err(e) => r == Err::<(), ContractError>(e) && final(self)@ == old(self)@,
            },
    {
        if self.admin.is_some() {
            return Err(ContractError::AlreadyInitialized);
        }
        self.admin = Some(admin);
        self.usdc_token = Some(usdc_token);
        self.scholar_count = 0;
        Ok(())
    }

    /// Register a new scholarship recipient, Pending with nothing received;
    /// admin only. Returns the newly assigned id, one more than the count.
    pub fn register_scholar(
        &mut self,
        admin: &Address,
        wallet: Address,
        name: String,
        school: String,
    ) -> (r: Result<u32, ContractError>)
        ensures
            match old(self)@.register_scholar(*admin, wallet, name, school) {
                Ok((m, id)) => r == Ok::<u32, ContractError>(id) && final(self)@ == m,
                Err(e) => r == Err::<u32, ContractError>(e) && final(self)@ == old(self)@,
            },
    {
        match self.assert_admin(admin) {
            Err(e) => return Err(e),
            Ok(()) => {},
        }
        if self.scholar_count == u32::MAX {
            return Err(ContractError::Overflow);
        }
        let new_id = self.scholar_count + 1;
        let record = ScholarRecord {
            id: new_id,
            wallet,
            name,
            school,
            status: EnrollmentStatus::Pending,
            total_received: 0,
        };
        self.scholars.insert(new_id, record);
        self.scholar_count = new_id;
        Ok(new_id)
    }

    fn set_status(&mut self, admin: &Address, scholar_id: u32, status: EnrollmentStatus) -> (r:
        Result<(), ContractError>)
        ensures
            match old(self)@.set_status(*admin, scholar_id, status) {
                Ok(m) => r == Ok::<(), ContractError>(()) && final(self)@ == m,
                Err(e) => r == Err::<(), ContractError>(e) && final(self)@ == old(self)@,
            },
    {
        match self.assert_admin(admin) {
            Err(e) => return Err(e),
            Ok(()) => {},
        }
        let mut record = match self.get_scholar_record(scholar_id) {
            Err(e) => return Err(e),
            Ok(rec) => rec,
        };
        record.status = status;
        self.scholars.insert(scholar_id, record);
        Ok(())
    }

    /// Make a scholar Active, so that they can receive disbursements; admin only.
    pub fn activate_scholar(&mut self, admin: &Address, scholar_id: u32) -> (r: Result<(), ContractError>)
        ensures
            match old(self)@.set_status(*admin, scholar_id, EnrollmentStatus::Active) {
                Ok(m) => r == Ok::<(), ContractError>(()) && final(self)@ == m,
                Err(e) => r == Err::<(), ContractError>(e) && final(self)@ == old(self)@,
            },
    {
        self.set_status(admin, scholar_id, EnrollmentStatus::Active)
    }

    /// Suspend a scholar, blocking disbursements to them; admin only.
    pub fn suspend_scholar(&mut self, admin: &Address, scholar_id: u32) -> (r: Result<(), ContractError>)
        ensures
            match old(self)@.set_status(*admin, scholar_id, EnrollmentStatus::Suspended) {
                Ok(m) => r == Ok::<(), ContractError>(()) && final(self)@ == m,
                Err(e) => r == Err::<(), ContractError>(e) && final(self)@ == old(self)@,
            },
    {
        self.set_status(admin, scholar_id, EnrollmentStatus::Suspended)
    }

    fn pay(
        &mut self,
        from: &Address,
        scholar_id: u32,
        amount: i128,
        cycle_id: u32,
        inactive: ContractError,
    ) -> (r: Result<Transfer, ContractError>)
        ensures
            match old(self)@.pay(*from, scholar_id, amount, cycle_id, inactive) {
                Ok((m, t)) => r == Ok::<Transfer, ContractError>(t) && final(self)@ == m,
                Err(e) => r == Err::<Transfer, ContractError>(e) && final(self)@ == old(self)@,
            },
    {
        let mut record = match self.get_scholar_record(scholar_id) {
            Err(e) => return Err(e),
            Ok(rec) => rec,
        };
        if record.status != EnrollmentStatus::Active {
            return Err(inactive);
        }
        let slot = guard_slot_of(scholar_id, cycle_id);
        if self.disbursed.contains_key(&slot) {
            return Err(ContractError::AlreadyDisbursed);
        }
        let token = match &self.usdc_token {
            None => return Err(ContractError::NotInitialized),
            Some(t) => t.clone(),
        };
        let total = match record.total_received.checked_add(amount) {
            None => return Err(ContractError::Overflow),
            Some(t) => t,
        };
        let to = record.wallet.clone();
        record.total_received = total;
        self.disbursed.insert(slot, true);
        self.scholars.insert(scholar_id, record);
        Ok(Transfer { token, from: from.clone(), to, amount })
    }

    /// Pay a stipend of `amount` to one Active scholar, at most once per
    /// cycle; admin only. On success the transfer to make from the admin to
    /// the scholar's wallet is returned, the cycle's guard is set and the
    /// scholar's cumulative total grows by `amount`.
    pub fn disburse(&mut self, admin: &Address, scholar_id: u32, amount: i128, cycle_id: u32) -> (r:
        Result<Transfer, ContractError>)
        ensures
            match old(self)@.disburse(*admin, scholar_id, amount, cycle_id) {
                Ok((m, t)) => r == Ok::<Transfer, ContractError>(t) && final(self)@ == m,
                Err(e) => r == Err::<Transfer, ContractError>(e) && final(self)@ == old(self)@,
            },
    {
        match self.assert_admin(admin) {
            Err(e) => return Err(e),
            Ok(()) => {},
        }
        if amount <= 0 {
            return Err(ContractError::AmountNotPositive);
        }
        self.pay(admin, scholar_id, amount, cycle_id, ContractError::ScholarNotActive)
    }

    /// Pay the same amount to each listed scholar in turn; admin only. Any
    /// refusal refuses the whole batch and leaves the storage as it was.
    pub fn batch_disburse(
        &mut self,
        admin: &Address,
        scholar_ids: &Vec<u32>,
        amount_each: i128,
        cycle_id: u32,
    ) -> (r: Result<Vec<Transfer>, ContractError>)
        ensures
            match old(self)@.batch_disburse(*admin, scholar_ids@, amount_each, cycle_id) {
                Ok((m, ts)) => r.is_ok() && r.unwrap()@ == ts && final(self)@ == m,
                Err(e) => r == Err::<Vec<Transfer>, ContractError>(e) && final(self)@ == old(
                    self,
                )@,
            },
    {
        match self.assert_admin(admin) {
            Err(e) => return Err(e),
            Ok(()) => {},
        }
        if amount_each <= 0 {
            return Err(ContractError::AmountNotPositive);
        }
        let mut work = TulongScholarContract {
            admin: copy_address_option(&self.admin),
            usdc_token: copy_address_option(&self.usdc_token),
            scholar_count: self.scholar_count,
            scholars: self.scholars.clone(),
            disbursed: self.disbursed.clone(),
        };
        let mut transfers: Vec<Transfer> = Vec::new();
        let mut i: usize = 0;
        while i < scholar_ids.len()
            invariant
                0 <= i <= scholar_ids.len(),
                self@ == old(self)@,
                self@.admin_refusal(*admin).is_none(),
                amount_each > 0,
                self@.pay_each(*admin, scholar_ids@.take(i as int), amount_each, cycle_id) == Ok::<
                    (ContractModel, Seq<Transfer>),
                    ContractError,
                >((work@, transfers@)),
            decreases scholar_ids.len() - i,
        {
            let scholar_id = scholar_ids[i];
            assert(scholar_ids@.take(i + 1).drop_last() =~= scholar_ids@.take(i as int));
            assert(scholar_ids@.take(i + 1).last() == scholar_id);
            match work.pay(admin, scholar_id, amount_each, cycle_id, ContractError::BatchScholarNotActive) {
                Ok(t) => {
                    transfers.push(t);
                },
                Err(e) => {
                    proof {
                        assert(self@.pay_each(
                            *admin,
                            scholar_ids@.take(i + 1),
                            amount_each,
                            cycle_id,
                        ) == Err::<(ContractModel, Seq<Transfer>), ContractError>(e));
                        lemma_pay_each_refusal_persists(
                            self@,
                            *admin,
                            scholar_ids@,
                            amount_each,
                            cycle_id,
                            i + 1,
                            e,
                        );
                    }
                    return Err(e);
                },
            }
            i = i + 1;
        }
        assert(scholar_ids@.take(scholar_ids.len() as int) =~= scholar_ids@);
        *self = work;
        Ok(transfers)
    }

    /// The full record of a scholar.
    pub fn get_scholar(&self, scholar_id: u32) -> (r: Result<ScholarRecord, ContractError>)
        ensures
            r == self@.get_scholar(scholar_id),
    {
        self.get_scholar_record(scholar_id)
    }

    /// The number of registered scholars (0 before any registration).
    pub fn scholar_count(&self) -> (r: u32)
        ensures
            r == self@.scholar_count,
    {
        self.scholar_count
    }

    /// Whether a scholar was already paid in a cycle.
    pub fn is_disbursed(&self, scholar_id: u32, cycle_id: u32) -> (r: bool)
        ensures
            r == self@.is_paid(scholar_id, cycle_id),
    {
        self.disbursed.contains_key(&guard_slot_of(scholar_id, cycle_id))
    }

    /// The admin address (foundation or bursar).
    pub fn get_admin(&self) -> (r: Result<Address, ContractError>)
        ensures
            r == self@.get_admin(),
    {
        match &self.admin {
            Some(a) => Ok(a.clone()),
            None => Err(ContractError::NotInitialized),
        }
    }

    fn assert_admin(&self, caller: &Address) -> (r: Result<(), ContractError>)
        ensures
            r == match self@.admin_refusal(*caller) {
                Some(e) => Err::<(), ContractError>(e),
                None => Ok(()),
            },
    {
        match &self.admin {
            None => Err(ContractError::NotInitialized),
            Some(a) => if caller.same_as(a) {
                Ok(())
            } else {
                Err(ContractError::Unauthorized)
            },
        }
    }

    fn get_scholar_record(&self, scholar_id: u32) -> (r: Result<ScholarRecord, ContractError>)
        ensures
            r == self@.get_scholar(scholar_id),
    {
        match self.scholars.get(&scholar_id) {
            Some(rec) => Ok(rec.clone()),
            None => Err(ContractError::ScholarNotFound),
        }
    }
}

} // verus!
