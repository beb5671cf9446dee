use crate::history::{activated_at, after, batch_payments, paid_to, pays_pair, registrations, run, Call, Payment};
use crate::model::ContractModel;
use crate::types::{guard_slot, lemma_guard_slot_injective, Address, ContractError, EnrollmentStatus, ScholarRecord, Transfer};
use vstd::prelude::*;

verus! {

/// The disbursements of a list made by separate calls, one after the other,
/// stopping at the first refusal.
pub open spec fn disburse_each(
    m: ContractModel,
    caller: Address,
    scholar_ids: Seq<u32>,
    amount: i128,
    cycle_id: u32,
) -> Result<(ContractModel, Seq<Transfer>), ContractError>
    decreases scholar_ids.len(),
{
    if scholar_ids.len() == 0 {
        Ok((m, Seq::empty()))
    } else {
        match disburse_each(m, caller, scholar_ids.drop_last(), amount, cycle_id) {
            Err(e) => Err(e),
            Ok((m1, ts)) => match m1.disburse(caller, scholar_ids.last(), amount, cycle_id) {
                Err(e) => Err(e),
                Ok((m2, t)) => Ok((m2, ts.push(t))),
            },
        }
    }
}

/// A contract can be initialized once: after a successful initialization
/// every further one is refused.
pub proof fn law_initialize_only_once(
    m: ContractModel,
    admin: Address,
    usdc_token: Address,
    admin2: Address,
    usdc_token2: Address,
)
    requires
        m.initialize(admin, usdc_token) is Ok,
    ensures
        m.initialize(admin, usdc_token)->Ok_0.initialize(admin2, usdc_token2) == Err::<
            ContractModel,
            ContractError,
        >(ContractError::AlreadyInitialized),
        m.initialize(admin, usdc_token)->Ok_0.get_admin() == Ok::<Address, ContractError>(admin),
{
}

/// Whoever is not the stored admin (or calls before initialization) is
/// refused by every operation that changes the storage, with the same refusal.
pub proof fn law_only_the_admin_changes_storage(
    m: ContractModel,
    caller: Address,
    wallet: Address,
    name: String,
    school: String,
    scholar_id: u32,
    status: EnrollmentStatus,
    amount: i128,
    cycle_id: u32,
    scholar_ids: Seq<u32>,
)
    requires
        m.admin_refusal(caller) is Some,
    ensures
        m.register_scholar(caller, wallet, name, school) == Err::<(ContractModel, u32), ContractError>(
            m.admin_refusal(caller)->Some_0,
        ),
        m.set_status(caller, scholar_id, status) == Err::<ContractModel, ContractError>(
            m.admin_refusal(caller)->Some_0,
        ),
        m.disburse(caller, scholar_id, amount, cycle_id) == Err::<
            (ContractModel, Transfer),
            ContractError,
        >(m.admin_refusal(caller)->Some_0),
        m.batch_disburse(caller, scholar_ids, amount, cycle_id) == Err::<
            (ContractModel, Seq<Transfer>),
            ContractError,
        >(m.admin_refusal(caller)->Some_0),
        m.admin is Some ==> m.admin_refusal(caller) == Some(ContractError::Unauthorized),
{
}

/// A scholar is paid at most once per cycle: after a payment the cycle's
/// guard is set and any further payment to them in that cycle is refused.
pub proof fn law_no_second_payment_in_a_cycle(
    m: ContractModel,
    caller: Address,
    scholar_id: u32,
    amount: i128,
    cycle_id: u32,
    amount2: i128,
)
    requires
        m.disburse(caller, scholar_id, amount, cycle_id) is Ok,
        amount2 > 0,
    ensures
        ({
            let m1 = m.disburse(caller, scholar_id, amount, cycle_id)->Ok_0.0;
            &&& m1.is_paid(scholar_id, cycle_id)
            &&& m1.disburse(caller, scholar_id, amount2, cycle_id) == Err::<
                (ContractModel, Transfer),
                ContractError,
            >(ContractError::AlreadyDisbursed)
        }),
{
}

/// Only an Active scholar is paid; the payment sends `amount` of the stored
/// token from the admin to the scholar's wallet and adds it to the scholar's
/// cumulative total, leaving every other record as it was.
pub proof fn law_payment_reaches_an_active_scholar(
    m: ContractModel,
    caller: Address,
    scholar_id: u32,
    amount: i128,
    cycle_id: u32,
)
    requires
        m.disburse(caller, scholar_id, amount, cycle_id) is Ok,
    ensures
        ({
            let (m1, t) = m.disburse(caller, scholar_id, amount, cycle_id)->Ok_0;
            &&& m.scholars.contains_key(scholar_id)
            &&& m.scholars[scholar_id].status == EnrollmentStatus::Active
            &&& amount > 0
            &&& t == Transfer {
                token: m.usdc_token.unwrap(),
                from: caller,
                to: m.scholars[scholar_id].wallet,
                amount,
            }
            &&& m1.scholars.dom() == m.scholars.dom()
            &&& m1.scholars[scholar_id].total_received == m.scholars[scholar_id].total_received
                + amount
            &&& m1.scholars[scholar_id].status == EnrollmentStatus::Active
            &&& m1.scholars[scholar_id].wallet == m.scholars[scholar_id].wallet
            &&& forall|k: u32| k != scholar_id && #[trigger] m.scholars.contains_key(k)
                ==> m1.scholars[k] == m.scholars[k]
            &&& m1.scholar_count == m.scholar_count
            &&& m1.admin == m.admin
        }),
{
}

/// A suspended (or still Pending) scholar is refused any payment.
pub proof fn law_inactive_scholar_is_not_paid(
    m: ContractModel,
    caller: Address,
    scholar_id: u32,
    amount: i128,
    cycle_id: u32,
)
    requires
        m.admin_refusal(caller) is None,
        amount > 0,
        m.scholars.contains_key(scholar_id),
        m.scholars[scholar_id].status != EnrollmentStatus::Active,
    ensures
        m.disburse(caller, scholar_id, amount, cycle_id) == Err::<
            (ContractModel, Transfer),
            ContractError,
        >(ContractError::ScholarNotActive),
{
}

/// After a suspension every payment to that scholar is refused.
pub proof fn law_suspension_blocks_payment(
    m: ContractModel,
    caller: Address,
    scholar_id: u32,
    amount: i128,
    cycle_id: u32,
)
    requires
        m.set_status(caller, scholar_id, EnrollmentStatus::Suspended) is Ok,
        amount > 0,
    ensures
        m.set_status(caller, scholar_id, EnrollmentStatus::Suspended)->Ok_0.disburse(
            caller,
            scholar_id,
            amount,
            cycle_id,
        ) == Err::<(ContractModel, Transfer), ContractError>(ContractError::ScholarNotActive),
{
}

/// Activation and suspension change the scholar's status and nothing else.
pub proof fn law_status_change_touches_only_status(
    m: ContractModel,
    caller: Address,
    scholar_id: u32,
    status: EnrollmentStatus,
)
    requires
        m.set_status(caller, scholar_id, status) is Ok,
    ensures
        ({
            let m1 = m.set_status(caller, scholar_id, status)->Ok_0;
            &&& m1.scholars.dom() == m.scholars.dom()
            &&& m1.scholars[scholar_id] == ScholarRecord { status, ..m.scholars[scholar_id] }
            &&& forall|k: u32| k != scholar_id && #[trigger] m.scholars.contains_key(k)
                ==> m1.scholars[k] == m.scholars[k]
            &&& m1.disbursed == m.disbursed
            &&& m1.scholar_count == m.scholar_count
            &&& m1.admin == m.admin
            &&& m1.usdc_token == m.usdc_token
        }),
{
}

/// Registration numbers scholars 1, 2, 3, ...: the new id is one more than
/// the count, becomes the count, and (in a well-formed state) was not in use,
/// so no record is ever overwritten.
pub proof fn law_registration_assigns_the_next_id(
    m: ContractModel,
    caller: Address,
    wallet: Address,
    name: String,
    school: String,
)
    requires
        m.well_formed(),
        m.register_scholar(caller, wallet, name, school) is Ok,
    ensures
        ({
            let (m1, id) = m.register_scholar(caller, wallet, name, school)->Ok_0;
            &&& id == m.scholar_count + 1
            &&& m1.scholar_count == id
            &&& !m.scholars.contains_key(id)
            &&& m1.get_scholar(id) == Ok::<ScholarRecord, ContractError>(
                ContractModel::new_record(id, wallet, name, school),
            )
            &&& forall|k: u32| #[trigger] m.scholars.contains_key(k) ==> m1.scholars.contains_key(k)
                && m1.scholars[k] == m.scholars[k]
        }),
{
}

/// Paying a scholar in a cycle sets the guard of exactly that pair: every
/// other scholar's and every other cycle's guard reads as before.
pub proof fn law_cycle_guards_are_independent(
    m: ContractModel,
    caller: Address,
    scholar_id: u32,
    amount: i128,
    cycle_id: u32,
    other_id: u32,
    other_cycle: u32,
)
    requires
        m.disburse(caller, scholar_id, amount, cycle_id) is Ok,
        other_id != scholar_id || other_cycle != cycle_id,
    ensures
        m.disburse(caller, scholar_id, amount, cycle_id)->Ok_0.0.is_paid(other_id, other_cycle)
            == m.is_paid(other_id, other_cycle),
{
    lemma_guard_slot_injective(other_id, other_cycle, scholar_id, cycle_id);
}

proof fn lemma_pay_keeps_well_formed(
    m: ContractModel,
    from: Address,
    scholar_id: u32,
    amount: i128,
    cycle_id: u32,
    inactive: ContractError,
)
    requires
        m.well_formed(),
    ensures
        m.pay(from, scholar_id, amount, cycle_id, inactive) is Ok ==> {
            let m1 = m.pay(from, scholar_id, amount, cycle_id, inactive)->Ok_0.0;
            &&& m1.well_formed()
            &&& m1.admin == m.admin
        },
{
    if m.pay(from, scholar_id, amount, cycle_id, inactive) is Ok {
        let m1 = m.pay(from, scholar_id, amount, cycle_id, inactive)->Ok_0.0;
        assert forall|k: u32| #[trigger] m1.scholars.contains_key(k) implies m1.scholars[k].id == k
            && 1 <= k <= m1.scholar_count by {
            assert(m.scholars.contains_key(k));
        }
    }
}

proof fn lemma_pay_each_keeps_well_formed(
    m: ContractModel,
    from: Address,
    scholar_ids: Seq<u32>,
    amount: i128,
    cycle_id: u32,
)
    requires
        m.well_formed(),
    ensures
        m.pay_each(from, scholar_ids, amount, cycle_id) is Ok ==> {
            let m1 = m.pay_each(from, scholar_ids, amount, cycle_id)->Ok_0.0;
            &&& m1.well_formed()
            &&& m1.admin == m.admin
        },
    decreases scholar_ids.len(),
{
    if scholar_ids.len() > 0 {
        lemma_pay_each_keeps_well_formed(m, from, scholar_ids.drop_last(), amount, cycle_id);
        match m.pay_each(from, scholar_ids.drop_last(), amount, cycle_id) {
            Err(_) => {},
            Ok((m1, _)) => {
                lemma_pay_keeps_well_formed(
                    m1,
                    from,
                    scholar_ids.last(),
                    amount,
                    cycle_id,
                    ContractError::BatchScholarNotActive,
                );
            },
        }
    }
}

/// Every operation keeps a well-formed state well-formed, and the empty
/// state is well-formed: admin and token are set together, and every record
/// sits under its own id within `1..=scholar_count`.
pub proof fn law_operations_keep_well_formed(
    m: ContractModel,
    caller: Address,
    usdc_token: Address,
    wallet: Address,
    name: String,
    school: String,
    scholar_id: u32,
    status: EnrollmentStatus,
    amount: i128,
    cycle_id: u32,
    scholar_ids: Seq<u32>,
)
    requires
        m.well_formed(),
    ensures
        ContractModel::empty().well_formed(),
        m.initialize(caller, usdc_token) is Ok ==> m.initialize(caller, usdc_token)->Ok_0.well_formed(),
        m.register_scholar(caller, wallet, name, school) is Ok ==> m.register_scholar(
            caller,
            wallet,
            name,
            school,
        )->Ok_0.0.well_formed(),
        m.set_status(caller, scholar_id, status) is Ok ==> m.set_status(
            caller,
            scholar_id,
            status,
        )->Ok_0.well_formed(),
        m.disburse(caller, scholar_id, amount, cycle_id) is Ok ==> m.disburse(
            caller,
            scholar_id,
            amount,
            cycle_id,
        )->Ok_0.0.well_formed(),
        m.batch_disburse(caller, scholar_ids, amount, cycle_id) is Ok ==> m.batch_disburse(
            caller,
            scholar_ids,
            amount,
            cycle_id,
        )->Ok_0.0.well_formed(),
{
    lemma_pay_keeps_well_formed(m, caller, scholar_id, amount, cycle_id, ContractError::ScholarNotActive);
    if m.initialize(caller, usdc_token) is Ok {
        let m1 = m.initialize(caller, usdc_token)->Ok_0;
        assert forall|k: u32| #[trigger] m1.scholars.contains_key(k) implies m1.scholars[k].id == k
            && 1 <= k <= m1.scholar_count by {
            assert(m.scholars.contains_key(k));
        }
    }
    lemma_pay_each_keeps_well_formed(m, caller, scholar_ids, amount, cycle_id);
    if m.register_scholar(caller, wallet, name, school) is Ok {
        let m1 = m.register_scholar(caller, wallet, name, school)->Ok_0.0;
        assert forall|k: u32| #[trigger] m1.scholars.contains_key(k) implies m1.scholars[k].id == k
            && 1 <= k <= m1.scholar_count by {
            if k != m1.scholar_count {
                assert(m.scholars.contains_key(k));
            }
        }
    }
    if m.set_status(caller, scholar_id, status) is Ok {
        let m1 = m.set_status(caller, scholar_id, status)->Ok_0;
        assert forall|k: u32| #[trigger] m1.scholars.contains_key(k) implies m1.scholars[k].id == k
            && 1 <= k <= m1.scholar_count by {
            assert(m.scholars.contains_key(k));
        }
    }
}

proof fn lemma_batch_matches_separate_calls(
    m: ContractModel,
    caller: Address,
    scholar_ids: Seq<u32>,
    amount: i128,
    cycle_id: u32,
)
    requires
        m.admin_refusal(caller) is None,
        amount > 0,
    ensures
        (m.pay_each(caller, scholar_ids, amount, cycle_id) is Ok) == (disburse_each(
            m,
            caller,
            scholar_ids,
            amount,
            cycle_id,
        ) is Ok),
        m.pay_each(caller, scholar_ids, amount, cycle_id) is Ok ==> {
            &&& m.pay_each(caller, scholar_ids, amount, cycle_id) == disburse_each(
                m,
                caller,
                scholar_ids,
                amount,
                cycle_id,
            )
            &&& m.pay_each(caller, scholar_ids, amount, cycle_id)->Ok_0.0.admin == m.admin
        },
    decreases scholar_ids.len(),
{
    if scholar_ids.len() > 0 {
        lemma_batch_matches_separate_calls(m, caller, scholar_ids.drop_last(), amount, cycle_id);
    }
}

/// A batch does what separate disbursements of the same amount to the listed
/// scholars, in order, do: it succeeds exactly when they all would, and then
/// ends in the same state with the same transfers. (For an empty list the
/// batch still checks the admin and the amount, which no call of the empty
/// sequence does; the list is therefore taken non-empty.)
pub proof fn law_batch_is_a_sequence_of_disbursements(
    m: ContractModel,
    caller: Address,
    scholar_ids: Seq<u32>,
    amount_each: i128,
    cycle_id: u32,
)
    requires
        scholar_ids.len() > 0,
    ensures
        (m.batch_disburse(caller, scholar_ids, amount_each, cycle_id) is Ok) == (disburse_each(
            m,
            caller,
            scholar_ids,
            amount_each,
            cycle_id,
        ) is Ok),
        m.batch_disburse(caller, scholar_ids, amount_each, cycle_id) is Ok ==> m.batch_disburse(
            caller,
            scholar_ids,
            amount_each,
            cycle_id,
        ) == disburse_each(m, caller, scholar_ids, amount_each, cycle_id),
    decreases scholar_ids.len(),
{
    if m.admin_refusal(caller) is None && amount_each > 0 {
        lemma_batch_matches_separate_calls(m, caller, scholar_ids, amount_each, cycle_id);
    } else {
        lemma_first_call_refused(m, caller, scholar_ids, amount_each, cycle_id);
    }
}

proof fn lemma_first_call_refused(
    m: ContractModel,
    caller: Address,
    scholar_ids: Seq<u32>,
    amount: i128,
    cycle_id: u32,
)
    requires
        scholar_ids.len() > 0,
        m.admin_refusal(caller) is Some || amount <= 0,
    ensures
        disburse_each(m, caller, scholar_ids, amount, cycle_id) is Err,
    decreases scholar_ids.len(),
{
    if scholar_ids.len() > 1 {
        lemma_first_call_refused(m, caller, scholar_ids.drop_last(), amount, cycle_id);
    } else {
        assert(disburse_each(m, caller, scholar_ids.drop_last(), amount, cycle_id) == Ok::<
            (ContractModel, Seq<Transfer>),
            ContractError,
        >((m, Seq::empty())));
    }
}

// ── Facts of single payments, used by the laws over sequences of calls ──

proof fn lemma_pay_facts(
    m: ContractModel,
    from: Address,
    s: u32,
    amount: i128,
    c: u32,
    inactive: ContractError,
)
    requires
        m.pay(from, s, amount, c, inactive) is Ok,
    ensures
        ({
            let m1 = m.pay(from, s, amount, c, inactive)->Ok_0.0;
            &&& m.scholars.contains_key(s)
            &&& m.scholars[s].status == EnrollmentStatus::Active
            &&& !m.is_paid(s, c)
            &&& m1.admin == m.admin
            &&& m1.usdc_token == m.usdc_token
            &&& m1.scholar_count == m.scholar_count
            &&& m1.scholars.dom() == m.scholars.dom()
            &&& m1.scholars[s].total_received == m.scholars[s].total_received + amount
            &&& forall|k: u32| #[trigger]
                m.scholars.contains_key(k) ==> m1.scholars[k].status == m.scholars[k].status
            &&& forall|k: u32| k != s && #[trigger] m.scholars.contains_key(k) ==> m1.scholars[k]
                == m.scholars[k]
            &&& forall|s2: u32, c2: u32| #[trigger]
                m1.is_paid(s2, c2) <==> (m.is_paid(s2, c2) || (s2 == s && c2 == c))
        }),
{
    let m1 = m.pay(from, s, amount, c, inactive)->Ok_0.0;
    assert(m1.scholars.dom() =~= m.scholars.dom());
    assert forall|s2: u32, c2: u32| #[trigger]
        m1.is_paid(s2, c2) <==> (m.is_paid(s2, c2) || (s2 == s && c2 == c)) by {
        lemma_guard_slot_injective(s2, c2, s, c);
    }
}

proof fn lemma_pay_each_facts(m: ContractModel, from: Address, ids: Seq<u32>, amount: i128, c: u32)
    requires
        m.pay_each(from, ids, amount, c) is Ok,
    ensures
        ({
            let m1 = m.pay_each(from, ids, amount, c)->Ok_0.0;
            &&& m1.admin == m.admin
            &&& m1.usdc_token == m.usdc_token
            &&& m1.scholar_count == m.scholar_count
            &&& m1.scholars.dom() == m.scholars.dom()
            &&& forall|k: u32| #[trigger]
                m.scholars.contains_key(k) ==> m1.scholars[k].status == m.scholars[k].status
            &&& forall|i: int| 0 <= i < ids.len() ==> m.scholars.contains_key(#[trigger] ids[i])
                && m.scholars[ids[i]].status == EnrollmentStatus::Active && !m.is_paid(ids[i], c)
            &&& forall|i: int, j: int| 0 <= i < j < ids.len() ==> #[trigger] ids[i] != #[trigger] ids[j]
            &&& forall|s2: u32, c2: u32| #[trigger]
                m1.is_paid(s2, c2) <==> (m.is_paid(s2, c2) || (c2 == c && ids.contains(s2)))
        }),
    decreases ids.len(),
{
    if ids.len() > 0 {
        let front = ids.drop_last();
        let last = ids.last();
        lemma_pay_each_facts(m, from, front, amount, c);
        let mid = m.pay_each(from, front, amount, c)->Ok_0.0;
        lemma_pay_facts(mid, from, last, amount, c, ContractError::BatchScholarNotActive);
        let m1 = m.pay_each(from, ids, amount, c)->Ok_0.0;
        assert forall|i: int| 0 <= i < ids.len() implies m.scholars.contains_key(#[trigger] ids[i])
            && m.scholars[ids[i]].status == EnrollmentStatus::Active && !m.is_paid(ids[i], c) by {
            if i < ids.len() - 1 {
                assert(front[i] == ids[i]);
            } else {
                assert(mid.scholars.contains_key(last));
            }
        }
        assert forall|i: int, j: int| 0 <= i < j < ids.len() implies #[trigger] ids[i]
            != #[trigger] ids[j] by {
            assert(front[i] == ids[i]);
            if j == ids.len() - 1 {
                assert(front.contains(ids[i]));
                assert(mid.is_paid(ids[i], c));
            } else {
                assert(front[j] == ids[j]);
            }
        }
        assert forall|s2: u32, c2: u32| #[trigger]
            m1.is_paid(s2, c2) <==> (m.is_paid(s2, c2) || (c2 == c && ids.contains(s2))) by {
            if ids.contains(s2) {
                let k = choose|k: int| 0 <= k < ids.len() && ids[k] == s2;
                if k < ids.len() - 1 {
                    assert(front[k] == ids[k]);
                }
            }
            if front.contains(s2) {
                let k = choose|k: int| 0 <= k < front.len() && front[k] == s2;
                assert(ids[k] == s2);
            }
            assert(ids[ids.len() - 1] == last);
        }
    }
}

proof fn lemma_batch_payments_split(ids: Seq<u32>, c: u32, amount: i128)
    requires
        ids.len() > 0,
    ensures
        batch_payments(ids, c, amount).drop_last() == batch_payments(ids.drop_last(), c, amount),
        batch_payments(ids, c, amount).last() == (Payment { scholar_id: ids.last(), cycle_id: c, amount }),
        batch_payments(ids, c, amount).len() == ids.len(),
{
    assert(batch_payments(ids, c, amount).drop_last() =~= batch_payments(ids.drop_last(), c, amount));
}

proof fn lemma_pay_each_totals(m: ContractModel, from: Address, ids: Seq<u32>, amount: i128, c: u32, s: u32)
    requires
        m.pay_each(from, ids, amount, c) is Ok,
    ensures
        ({
            let m1 = m.pay_each(from, ids, amount, c)->Ok_0.0;
            &&& m.scholars.contains_key(s) ==> m1.scholars[s].total_received
                == m.scholars[s].total_received + paid_to(batch_payments(ids, c, amount), s)
            &&& !m.scholars.contains_key(s) ==> paid_to(batch_payments(ids, c, amount), s) == 0
        }),
    decreases ids.len(),
{
    if ids.len() > 0 {
        let front = ids.drop_last();
        lemma_pay_each_totals(m, from, front, amount, c, s);
        lemma_pay_each_facts(m, from, front, amount, c);
        let mid = m.pay_each(from, front, amount, c)->Ok_0.0;
        lemma_pay_facts(mid, from, ids.last(), amount, c, ContractError::BatchScholarNotActive);
        lemma_batch_payments_split(ids, c, amount);
    }
}

proof fn lemma_paid_to_concat(ps: Seq<Payment>, qs: Seq<Payment>, s: u32)
    ensures
        paid_to(ps + qs, s) == paid_to(ps, s) + paid_to(qs, s),
    decreases qs.len(),
{
    if qs.len() == 0 {
        assert(ps + qs =~= ps);
    } else {
        assert((ps + qs).drop_last() =~= ps + qs.drop_last());
        lemma_paid_to_concat(ps, qs.drop_last(), s);
    }
}

// ── Laws over any sequence of calls ──

/// What one call does to the per-cycle guards: it sets the guards of the
/// pairs it pays, each of them unset before, no pair twice, and no other.
proof fn lemma_after_guards(m: ContractModel, call: Call)
    ensures
        ({
            let (m1, qs) = after(m, call);
            &&& forall|i: int, j: int| 0 <= i < j < qs.len() ==> !(#[trigger] qs[i].scholar_id
                == #[trigger] qs[j].scholar_id && qs[i].cycle_id == qs[j].cycle_id)
            &&& forall|i: int| 0 <= i < qs.len() ==> !m.is_paid(#[trigger] qs[i].scholar_id, qs[i].cycle_id)
            &&& forall|s: u32, c: u32| #[trigger]
                m1.is_paid(s, c) <==> (m.is_paid(s, c) || pays_pair(qs, s, c))
        }),
{
    let (m1, qs) = after(m, call);
    match call {
        Call::Disburse { caller, scholar_id, amount, cycle_id } => {
            if m.disburse(caller, scholar_id, amount, cycle_id) is Ok {
                lemma_pay_facts(m, caller, scholar_id, amount, cycle_id, ContractError::ScholarNotActive);
                assert forall|s: u32, c: u32| #[trigger]
                    m1.is_paid(s, c) <==> (m.is_paid(s, c) || pays_pair(qs, s, c)) by {
                    if s == scholar_id && c == cycle_id {
                        assert(qs[0].scholar_id == s);
                    }
                }
            }
        },
        Call::BatchDisburse { caller, scholar_ids, amount_each, cycle_id } => {
            if m.batch_disburse(caller, scholar_ids, amount_each, cycle_id) is Ok {
                lemma_pay_each_facts(m, caller, scholar_ids, amount_each, cycle_id);
                assert forall|i: int, j: int| 0 <= i < j < qs.len() implies !(#[trigger] qs[i].scholar_id
                    == #[trigger] qs[j].scholar_id && qs[i].cycle_id == qs[j].cycle_id) by {
                    assert(scholar_ids[i] != scholar_ids[j]);
                }
                assert forall|i: int| 0 <= i < qs.len() implies !m.is_paid(
                    #[trigger] qs[i].scholar_id,
                    qs[i].cycle_id,
                ) by {
                    assert(qs[i].scholar_id == scholar_ids[i]);
                }
                assert forall|s: u32, c: u32| #[trigger]
                    m1.is_paid(s, c) <==> (m.is_paid(s, c) || pays_pair(qs, s, c)) by {
                    if scholar_ids.contains(s) && c == cycle_id {
                        let k = choose|k: int| 0 <= k < scholar_ids.len() && scholar_ids[k] == s;
                        assert(qs[k].scholar_id == s);
                    }
                    if pays_pair(qs, s, c) {
                        let k = choose|k: int| 0 <= k < qs.len() && #[trigger] qs[k].scholar_id == s
                            && qs[k].cycle_id == c;
                        assert(scholar_ids[k] == s);
                    }
                }
            }
        },
        _ => {},
    }
}

/// The guard holds over any sequence of calls: no scholar is paid twice in a
/// cycle (no two payments share scholar and cycle), no pair whose guard was
/// already set is paid, and afterwards a guard is set exactly when it was set
/// before or the scholar was paid in that cycle. From a fresh contract,
/// `is_disbursed(s, c)` therefore tells whether `s` was paid in cycle `c`.
pub proof fn law_at_most_one_payment_per_scholar_and_cycle(m: ContractModel, calls: Seq<Call>)
    ensures
        ({
            let (m1, ps) = run(m, calls);
            &&& forall|i: int, j: int| 0 <= i < j < ps.len() ==> !(#[trigger] ps[i].scholar_id
                == #[trigger] ps[j].scholar_id && ps[i].cycle_id == ps[j].cycle_id)
            &&& forall|i: int| 0 <= i < ps.len() ==> !m.is_paid(#[trigger] ps[i].scholar_id, ps[i].cycle_id)
            &&& forall|s: u32, c: u32| #[trigger]
                m1.is_paid(s, c) <==> (m.is_paid(s, c) || pays_pair(ps, s, c))
        }),
    decreases calls.len(),
{
    if calls.len() > 0 {
        law_at_most_one_payment_per_scholar_and_cycle(m, calls.drop_last());
        let (mid, ps) = run(m, calls.drop_last());
        lemma_after_guards(mid, calls.last());
        let (m1, qs) = after(mid, calls.last());
        let all = ps + qs;
        assert forall|i: int| 0 <= i < all.len() implies !m.is_paid(#[trigger] all[i].scholar_id, all[i].cycle_id) by {
            if i >= ps.len() {
                assert(all[i] == qs[i - ps.len()]);
            } else {
                assert(all[i] == ps[i]);
            }
        }
        assert forall|i: int, j: int| 0 <= i < j < all.len() implies !(#[trigger] all[i].scholar_id
            == #[trigger] all[j].scholar_id && all[i].cycle_id == all[j].cycle_id) by {
            if j < ps.len() {
                assert(all[i] == ps[i] && all[j] == ps[j]);
            } else if i >= ps.len() {
                assert(all[i] == qs[i - ps.len()] && all[j] == qs[j - ps.len()]);
            } else {
                assert(all[i] == ps[i] && all[j] == qs[j - ps.len()]);
                assert(pays_pair(ps, ps[i].scholar_id, ps[i].cycle_id));
                assert(mid.is_paid(ps[i].scholar_id, ps[i].cycle_id));
                assert(!mid.is_paid(qs[j - ps.len()].scholar_id, qs[j - ps.len()].cycle_id));
            }
        }
        assert forall|s: u32, c: u32| #[trigger]
            m1.is_paid(s, c) <==> (m.is_paid(s, c) || pays_pair(all, s, c)) by {
            if pays_pair(ps, s, c) {
                let k = choose|k: int| 0 <= k < ps.len() && #[trigger] ps[k].scholar_id == s && ps[k].cycle_id == c;
                assert(all[k] == ps[k]);
            }
            if pays_pair(qs, s, c) {
                let k = choose|k: int| 0 <= k < qs.len() && #[trigger] qs[k].scholar_id == s && qs[k].cycle_id == c;
                assert(all[k + ps.len()] == qs[k]);
            }
            if pays_pair(all, s, c) {
                let k = choose|k: int| 0 <= k < all.len() && #[trigger] all[k].scholar_id == s && all[k].cycle_id == c;
                if k < ps.len() {
                    assert(all[k] == ps[k]);
                } else {
                    assert(all[k] == qs[k - ps.len()]);
                }
            }
        }
    }
}

/// On a fresh contract, after any sequence of calls, a scholar reads as paid
/// in a cycle exactly when some call paid them in that cycle, and that
/// happened once.
pub proof fn law_is_disbursed_tells_whether_paid(calls: Seq<Call>, s: u32, c: u32)
    ensures
        run(ContractModel::empty(), calls).0.is_paid(s, c) == pays_pair(run(ContractModel::empty(), calls).1, s, c),
{
    law_at_most_one_payment_per_scholar_and_cycle(ContractModel::empty(), calls);
}

proof fn lemma_after_keeps_well_formed(m: ContractModel, call: Call)
    requires
        m.well_formed(),
    ensures
        after(m, call).0.well_formed(),
{
    let a = vstd::pervasive::arbitrary::<Address>();
    let n = vstd::pervasive::arbitrary::<String>();
    match call {
        Call::Initialize { admin, usdc_token } => {
            law_operations_keep_well_formed(m, admin, usdc_token, a, n, n, 0, EnrollmentStatus::Active, 0, 0, Seq::empty());
        },
        Call::Register { caller, wallet, name, school } => {
            law_operations_keep_well_formed(m, caller, a, wallet, name, school, 0, EnrollmentStatus::Active, 0, 0, Seq::empty());
        },
        Call::Activate { caller, scholar_id } => {
            law_operations_keep_well_formed(m, caller, a, a, n, n, scholar_id, EnrollmentStatus::Active, 0, 0, Seq::empty());
        },
        Call::Suspend { caller, scholar_id } => {
            law_operations_keep_well_formed(m, caller, a, a, n, n, scholar_id, EnrollmentStatus::Suspended, 0, 0, Seq::empty());
        },
        Call::Disburse { caller, scholar_id, amount, cycle_id } => {
            law_operations_keep_well_formed(m, caller, a, a, n, n, scholar_id, EnrollmentStatus::Active, amount, cycle_id, Seq::empty());
        },
        Call::BatchDisburse { caller, scholar_ids, amount_each, cycle_id } => {
            law_operations_keep_well_formed(m, caller, a, a, n, n, 0, EnrollmentStatus::Active, amount_each, cycle_id, scholar_ids);
        },
    }
}

proof fn lemma_after_totals(mid: ContractModel, call: Call, s: u32)
    requires
        mid.well_formed(),
    ensures
        ({
            let (m1, qs) = after(mid, call);
            &&& mid.scholars.contains_key(s) ==> m1.scholars.contains_key(s)
            &&& mid.scholars.contains_key(s) ==> m1.scholars[s].total_received
                == mid.scholars[s].total_received + paid_to(qs, s)
            &&& !mid.scholars.contains_key(s) && m1.scholars.contains_key(s) ==> m1.scholars[s].total_received == 0
                && paid_to(qs, s) == 0
            &&& !m1.scholars.contains_key(s) ==> paid_to(qs, s) == 0
        }),
{
    let (m1, qs) = after(mid, call);
    assert(paid_to(Seq::<Payment>::empty(), s) == 0);
    match call {
        Call::Disburse { caller, scholar_id, amount, cycle_id } => {
            if mid.disburse(caller, scholar_id, amount, cycle_id) is Ok {
                lemma_pay_facts(mid, caller, scholar_id, amount, cycle_id, ContractError::ScholarNotActive);
                assert(qs.drop_last() =~= Seq::<Payment>::empty());
            }
        },
        Call::BatchDisburse { caller, scholar_ids, amount_each, cycle_id } => {
            if mid.batch_disburse(caller, scholar_ids, amount_each, cycle_id) is Ok {
                lemma_pay_each_facts(mid, caller, scholar_ids, amount_each, cycle_id);
                lemma_pay_each_totals(mid, caller, scholar_ids, amount_each, cycle_id, s);
            }
        },
        Call::Register { caller, wallet, name, school } => {
            if mid.register_scholar(caller, wallet, name, school) is Ok {
                let id = (mid.scholar_count + 1) as u32;
                if mid.scholars.contains_key(id) {
                    assert(mid.scholars[id].id == id);
                }
            }
        },
        _ => {},
    }
}

/// A cumulative total is what the scholar was paid: after any sequence of
/// calls on a well-formed state, each scholar's total is their total before
/// (0 for a scholar registered meanwhile) plus the sum of the payments made
/// to them; a scholar without a record was paid nothing, and no record is
/// ever removed.
pub proof fn law_total_is_sum_of_payments(m: ContractModel, calls: Seq<Call>, s: u32)
    requires
        m.well_formed(),
    ensures
        ({
            let (m1, ps) = run(m, calls);
            &&& m1.well_formed()
            &&& m.scholars.contains_key(s) ==> m1.scholars.contains_key(s)
            &&& m1.scholars.contains_key(s) ==> m1.scholars[s].total_received == (if m.scholars.contains_key(s) {
                m.scholars[s].total_received as int
            } else {
                0
            }) + paid_to(ps, s)
            &&& !m1.scholars.contains_key(s) ==> paid_to(ps, s) == 0
        }),
    decreases calls.len(),
{
    if calls.len() > 0 {
        law_total_is_sum_of_payments(m, calls.drop_last(), s);
        let (mid, ps) = run(m, calls.drop_last());
        lemma_after_keeps_well_formed(mid, calls.last());
        lemma_after_totals(mid, calls.last(), s);
        let (m1, qs) = after(mid, calls.last());
        lemma_paid_to_concat(ps, qs, s);
    }
}

/// The scholar count counts registrations: after any sequence of calls on a
/// well-formed state it grew by exactly the number of registrations, and if
/// the ids in use were exactly `1..=count` they still are.
pub proof fn law_scholar_count_counts_registrations(m: ContractModel, calls: Seq<Call>)
    requires
        m.well_formed(),
    ensures
        ({
            let m1 = run(m, calls).0;
            &&& m1.well_formed()
            &&& m1.scholar_count == m.scholar_count + registrations(m, calls)
            &&& (forall|k: u32| #[trigger] m.scholars.contains_key(k) <==> 1 <= k <= m.scholar_count)
                ==> (forall|k: u32| #[trigger] m1.scholars.contains_key(k) <==> 1 <= k <= m1.scholar_count)
        }),
    decreases calls.len(),
{
    if calls.len() > 0 {
        law_scholar_count_counts_registrations(m, calls.drop_last());
        let mid = run(m, calls.drop_last()).0;
        lemma_after_keeps_well_formed(mid, calls.last());
        let m1 = after(mid, calls.last()).0;
        match calls.last() {
            Call::Disburse { caller, scholar_id, amount, cycle_id } => {
                if mid.disburse(caller, scholar_id, amount, cycle_id) is Ok {
                    lemma_pay_facts(mid, caller, scholar_id, amount, cycle_id, ContractError::ScholarNotActive);
                }
            },
            Call::BatchDisburse { caller, scholar_ids, amount_each, cycle_id } => {
                if mid.batch_disburse(caller, scholar_ids, amount_each, cycle_id) is Ok {
                    lemma_pay_each_facts(mid, caller, scholar_ids, amount_each, cycle_id);
                }
            },
            _ => {},
        }
        if forall|k: u32| #[trigger] m.scholars.contains_key(k) <==> 1 <= k <= m.scholar_count {
            assert forall|k: u32| #[trigger] m1.scholars.contains_key(k) <==> 1 <= k <= m1.scholar_count by {
                assert(mid.scholars.contains_key(k) <==> 1 <= k <= mid.scholar_count);
            }
        }
    }
}

/// On a fresh contract, after any sequence of calls, the scholars are
/// numbered `1..=count` and the count is the number of registrations.
pub proof fn law_fresh_contract_numbers_scholars_in_order(calls: Seq<Call>)
    ensures
        ({
            let m1 = run(ContractModel::empty(), calls).0;
            &&& m1.scholar_count == registrations(ContractModel::empty(), calls)
            &&& forall|k: u32| #[trigger] m1.scholars.contains_key(k) <==> 1 <= k <= m1.scholar_count
        }),
{
    law_scholar_count_counts_registrations(ContractModel::empty(), calls);
}

/// Once initialized, the admin and the token never change.
pub proof fn law_admin_and_token_never_change(m: ContractModel, calls: Seq<Call>)
    requires
        m.admin is Some,
    ensures
        run(m, calls).0.admin == m.admin,
        run(m, calls).0.usdc_token == m.usdc_token,
    decreases calls.len(),
{
    if calls.len() > 0 {
        law_admin_and_token_never_change(m, calls.drop_last());
        let mid = run(m, calls.drop_last()).0;
        match calls.last() {
            Call::Disburse { caller, scholar_id, amount, cycle_id } => {
                if mid.disburse(caller, scholar_id, amount, cycle_id) is Ok {
                    lemma_pay_facts(mid, caller, scholar_id, amount, cycle_id, ContractError::ScholarNotActive);
                }
            },
            Call::BatchDisburse { caller, scholar_ids, amount_each, cycle_id } => {
                if mid.batch_disburse(caller, scholar_ids, amount_each, cycle_id) is Ok {
                    lemma_pay_each_facts(mid, caller, scholar_ids, amount_each, cycle_id);
                }
            },
            _ => {},
        }
    }
}

/// A scholar who is not Active (Pending, Suspended, or not yet registered)
/// is paid nothing, by single or batch disbursement, and stays not Active,
/// until an activation of them succeeds: refused activations, and every
/// other call, leave them unpaid.
pub proof fn law_no_payment_without_activation(m: ContractModel, calls: Seq<Call>, s: u32)
    requires
        !(m.scholars.contains_key(s) && m.scholars[s].status == EnrollmentStatus::Active),
        forall|i: int| 0 <= i < calls.len() ==> !#[trigger] activated_at(m, calls, i, s),
    ensures
        ({
            let (m1, ps) = run(m, calls);
            &&& forall|i: int| 0 <= i < ps.len() ==> #[trigger] ps[i].scholar_id != s
            &&& !(m1.scholars.contains_key(s) && m1.scholars[s].status == EnrollmentStatus::Active)
        }),
    decreases calls.len(),
{
    if calls.len() > 0 {
        let front = calls.drop_last();
        assert forall|i: int| 0 <= i < front.len() implies !#[trigger] activated_at(m, front, i, s) by {
            assert(front[i] == calls[i]);
            assert(front.take(i) =~= calls.take(i));
            assert(!activated_at(m, calls, i, s));
        }
        law_no_payment_without_activation(m, front, s);
        let (mid, ps) = run(m, front);
        let (m1, qs) = after(mid, calls.last());
        assert(calls.take(calls.len() - 1) =~= front);
        assert(!activated_at(m, calls, calls.len() - 1, s));
        match calls.last() {
            Call::Disburse { caller, scholar_id, amount, cycle_id } => {
                if mid.disburse(caller, scholar_id, amount, cycle_id) is Ok {
                    lemma_pay_facts(mid, caller, scholar_id, amount, cycle_id, ContractError::ScholarNotActive);
                }
            },
            Call::BatchDisburse { caller, scholar_ids, amount_each, cycle_id } => {
                if mid.batch_disburse(caller, scholar_ids, amount_each, cycle_id) is Ok {
                    lemma_pay_each_facts(mid, caller, scholar_ids, amount_each, cycle_id);
                    assert forall|i: int| 0 <= i < qs.len() implies #[trigger] qs[i].scholar_id != s by {
                        assert(qs[i].scholar_id == scholar_ids[i]);
                    }
                }
            },
            _ => {},
        }
        let all = ps + qs;
        assert forall|i: int| 0 <= i < all.len() implies #[trigger] all[i].scholar_id != s by {
            if i < ps.len() {
                assert(all[i] == ps[i]);
            } else {
                assert(all[i] == qs[i - ps.len()]);
            }
        }
    }
}

/// After a suspension, until an activation of the scholar succeeds, every
/// disbursement to them, single or in a batch, is refused: no call of any
/// such sequence pays them, and a further single disbursement to them is
/// refused as "scholar is not active".
pub proof fn law_suspension_holds_until_reactivation(
    m: ContractModel,
    admin: Address,
    s: u32,
    calls: Seq<Call>,
    amount: i128,
    cycle_id: u32,
)
    requires
        m.well_formed(),
        m.set_status(admin, s, EnrollmentStatus::Suspended) is Ok,
        forall|i: int| 0 <= i < calls.len() ==> !#[trigger] activated_at(
            m.set_status(admin, s, EnrollmentStatus::Suspended)->Ok_0,
            calls,
            i,
            s,
        ),
        amount > 0,
    ensures
        ({
            let m0 = m.set_status(admin, s, EnrollmentStatus::Suspended)->Ok_0;
            let (m1, ps) = run(m0, calls);
            &&& forall|i: int| 0 <= i < ps.len() ==> #[trigger] ps[i].scholar_id != s
            &&& m1.admin_refusal(admin) is None ==> m1.disburse(admin, s, amount, cycle_id) == Err::<
                (ContractModel, Transfer),
                ContractError,
            >(ContractError::ScholarNotActive)
        }),
{
    let m0 = m.set_status(admin, s, EnrollmentStatus::Suspended)->Ok_0;
    let a = vstd::pervasive::arbitrary::<Address>();
    let n = vstd::pervasive::arbitrary::<String>();
    law_operations_keep_well_formed(m, admin, a, a, n, n, s, EnrollmentStatus::Suspended, 0, 0, Seq::empty());
    law_no_payment_without_activation(m0, calls, s);
    law_total_is_sum_of_payments(m0, calls, s);
}

/// A batch that names a scholar who is not Active (or has no record) is
/// refused as a whole.
pub proof fn law_batch_refuses_an_inactive_scholar(
    m: ContractModel,
    caller: Address,
    scholar_ids: Seq<u32>,
    amount_each: i128,
    cycle_id: u32,
    i: int,
)
    requires
        0 <= i < scholar_ids.len(),
        !(m.scholars.contains_key(scholar_ids[i]) && m.scholars[scholar_ids[i]].status
            == EnrollmentStatus::Active),
    ensures
        m.batch_disburse(caller, scholar_ids, amount_each, cycle_id) is Err,
{
    if m.batch_disburse(caller, scholar_ids, amount_each, cycle_id) is Ok {
        lemma_pay_each_facts(m, caller, scholar_ids, amount_each, cycle_id);
        assert(m.scholars.contains_key(scholar_ids[i]));
    }
}

// ── What each operation does for the inputs it accepts ──

/// The admin of a state: the caller it accepts.
pub open spec fn is_admin(m: ContractModel, caller: Address) -> bool {
    m.admin is Some && m.admin->Some_0@ == caller@
}

/// A contract without an admin accepts any initialization, and stores the
/// given admin and token with a count of 0.
pub proof fn law_initialize_succeeds_once(m: ContractModel, admin: Address, usdc_token: Address)
    requires
        m.admin is None,
    ensures
        m.initialize(admin, usdc_token) is Ok,
        ({
            let m1 = m.initialize(admin, usdc_token)->Ok_0;
            &&& m1.admin == Some(admin)
            &&& m1.usdc_token == Some(usdc_token)
            &&& m1.scholar_count == 0
            &&& m1.scholars == m.scholars
            &&& m1.disbursed == m.disbursed
        }),
{
}

/// The admin can always register a scholar while the count is below
/// `u32::MAX`, whatever the wallet, name and school: the scholar is stored
/// under the next id with exactly the given wallet, name and school,
/// Pending, with nothing received, and nothing else changes.
pub proof fn law_registration_succeeds(
    m: ContractModel,
    caller: Address,
    wallet: Address,
    name: String,
    school: String,
)
    requires
        is_admin(m, caller),
        m.scholar_count < u32::MAX,
    ensures
        m.register_scholar(caller, wallet, name, school) is Ok,
        ({
            let (m1, id) = m.register_scholar(caller, wallet, name, school)->Ok_0;
            &&& id == m.scholar_count + 1
            &&& m1.scholar_count == id
            &&& m1.scholars.contains_key(id)
            &&& m1.scholars[id].id == id
            &&& m1.scholars[id].wallet == wallet
            &&& m1.scholars[id].name == name
            &&& m1.scholars[id].school == school
            &&& m1.scholars[id].status == EnrollmentStatus::Pending
            &&& m1.scholars[id].total_received == 0
            &&& forall|k: u32| k != id ==> (#[trigger] m1.scholars.contains_key(k)
                == m.scholars.contains_key(k))
            &&& forall|k: u32| k != id && #[trigger] m.scholars.contains_key(k) ==> m1.scholars[k]
                == m.scholars[k]
            &&& m1.disbursed == m.disbursed
            &&& m1.admin == m.admin
            &&& m1.usdc_token == m.usdc_token
        }),
{
}

/// The admin can set any status of any registered scholar, whatever its
/// current status (a Pending scholar can be suspended, a Suspended one
/// re-activated): only that scholar's status changes.
pub proof fn law_status_change_succeeds(
    m: ContractModel,
    caller: Address,
    scholar_id: u32,
    status: EnrollmentStatus,
)
    requires
        is_admin(m, caller),
        m.scholars.contains_key(scholar_id),
    ensures
        m.set_status(caller, scholar_id, status) is Ok,
        ({
            let m1 = m.set_status(caller, scholar_id, status)->Ok_0;
            &&& m1.scholars.contains_key(scholar_id)
            &&& m1.scholars[scholar_id].status == status
            &&& m1.scholars[scholar_id].id == m.scholars[scholar_id].id
            &&& m1.scholars[scholar_id].wallet == m.scholars[scholar_id].wallet
            &&& m1.scholars[scholar_id].name == m.scholars[scholar_id].name
            &&& m1.scholars[scholar_id].school == m.scholars[scholar_id].school
            &&& m1.scholars[scholar_id].total_received == m.scholars[scholar_id].total_received
            &&& forall|k: u32| k != scholar_id ==> (#[trigger] m1.scholars.contains_key(k)
                == m.scholars.contains_key(k))
            &&& forall|k: u32| k != scholar_id && #[trigger] m.scholars.contains_key(k) ==> m1.scholars[k]
                == m.scholars[k]
            &&& m1.disbursed == m.disbursed
            &&& m1.scholar_count == m.scholar_count
            &&& m1.admin == m.admin
        }),
{
}

/// The admin can pay a positive amount to a registered Active scholar in
/// any cycle whose guard for that scholar is unset, provided the cumulative
/// total stays within `i128`; the guards of the scholar's other cycles and
/// of other scholars do not matter. The payment sends the amount of the
/// stored token from the caller to the scholar's wallet, adds it to the
/// scholar's total and sets the guard of that scholar and cycle.
pub proof fn law_payment_succeeds(
    m: ContractModel,
    caller: Address,
    scholar_id: u32,
    amount: i128,
    cycle_id: u32,
)
    requires
        is_admin(m, caller),
        m.usdc_token is Some,
        amount > 0,
        m.scholars.contains_key(scholar_id),
        m.scholars[scholar_id].status == EnrollmentStatus::Active,
        !m.disbursed.contains_key(guard_slot(scholar_id, cycle_id)),
        m.scholars[scholar_id].total_received + amount <= i128::MAX,
    ensures
        m.disburse(caller, scholar_id, amount, cycle_id) is Ok,
        ({
            let (m1, t) = m.disburse(caller, scholar_id, amount, cycle_id)->Ok_0;
            &&& t.token == m.usdc_token->Some_0
            &&& t.from == caller
            &&& t.to == m.scholars[scholar_id].wallet
            &&& t.amount == amount
            &&& m1.scholars[scholar_id].total_received == m.scholars[scholar_id].total_received + amount
            &&& m1.scholars[scholar_id].status == EnrollmentStatus::Active
            &&& m1.disbursed.contains_key(guard_slot(scholar_id, cycle_id))
            &&& forall|k: u64| k != guard_slot(scholar_id, cycle_id) ==> (#[trigger] m1.disbursed.contains_key(k)
                == m.disbursed.contains_key(k))
            &&& forall|k: u32| k != scholar_id && #[trigger] m.scholars.contains_key(k) ==> m1.scholars[k]
                == m.scholars[k]
            &&& m1.scholars.dom() == m.scholars.dom()
            &&& m1.scholar_count == m.scholar_count
            &&& m1.admin == m.admin
            &&& m1.usdc_token == m.usdc_token
        }),
{
    lemma_pay_facts(m, caller, scholar_id, amount, cycle_id, ContractError::ScholarNotActive);
}

proof fn lemma_pay_each_succeeds(m: ContractModel, from: Address, ids: Seq<u32>, amount: i128, c: u32)
    requires
        m.usdc_token is Some,
        amount > 0,
        forall|i: int, j: int| 0 <= i < j < ids.len() ==> #[trigger] ids[i] != #[trigger] ids[j],
        forall|i: int| 0 <= i < ids.len() ==> {
            &&& m.scholars.contains_key(#[trigger] ids[i])
            &&& m.scholars[ids[i]].status == EnrollmentStatus::Active
            &&& !m.disbursed.contains_key(guard_slot(ids[i], c))
            &&& m.scholars[ids[i]].total_received + amount <= i128::MAX
        },
    ensures
        m.pay_each(from, ids, amount, c) is Ok,
        ({
            let (m1, ts) = m.pay_each(from, ids, amount, c)->Ok_0;
            &&& ts.len() == ids.len()
            &&& m1.usdc_token == m.usdc_token
            &&& forall|i: int| 0 <= i < ids.len() ==> #[trigger] ts[i] == Transfer {
                token: m.usdc_token->Some_0,
                from,
                to: m.scholars[ids[i]].wallet,
                amount,
            }
            &&& forall|i: int| 0 <= i < ids.len() ==> m1.scholars[#[trigger] ids[i]] == ScholarRecord {
                total_received: (m.scholars[ids[i]].total_received + amount) as i128,
                ..m.scholars[ids[i]]
            }
            &&& forall|k: u32| !ids.contains(k) && #[trigger] m.scholars.contains_key(k) ==> m1.scholars[k]
                == m.scholars[k]
            &&& m1.scholars.dom() == m.scholars.dom()
            &&& forall|i: int| 0 <= i < ids.len() ==> m1.disbursed.contains_key(guard_slot(#[trigger] ids[i], c))
        }),
    decreases ids.len(),
{
    if ids.len() > 0 {
        let front = ids.drop_last();
        let last = ids.last();
        assert forall|i: int, j: int| 0 <= i < j < front.len() implies #[trigger] front[i] != #[trigger] front[j] by {
            assert(front[i] == ids[i] && front[j] == ids[j]);
        }
        assert forall|i: int| 0 <= i < front.len() implies {
            &&& m.scholars.contains_key(#[trigger] front[i])
            &&& m.scholars[front[i]].status == EnrollmentStatus::Active
            &&& !m.disbursed.contains_key(guard_slot(front[i], c))
            &&& m.scholars[front[i]].total_received + amount <= i128::MAX
        } by {
            assert(front[i] == ids[i]);
        }
        lemma_pay_each_succeeds(m, from, front, amount, c);
        let (mid, ts) = m.pay_each(from, front, amount, c)->Ok_0;
        assert(ids[ids.len() - 1] == last);
        assert(!front.contains(last)) by {
            if front.contains(last) {
                let k = choose|k: int| 0 <= k < front.len() && front[k] == last;
                assert(ids[k] == front[k]);
            }
        }
        assert(mid.scholars[last] == m.scholars[last]);
        assert(!mid.disbursed.contains_key(guard_slot(last, c))) by {
            lemma_pay_each_facts(m, from, front, amount, c);
            assert(!mid.is_paid(last, c));
        }
        lemma_pay_facts(mid, from, last, amount, c, ContractError::BatchScholarNotActive);
        let (m1, all) = m.pay_each(from, ids, amount, c)->Ok_0;
        assert forall|i: int| 0 <= i < ids.len() implies #[trigger] all[i] == Transfer {
            token: m.usdc_token->Some_0,
            from,
            to: m.scholars[ids[i]].wallet,
            amount,
        } by {
            if i < front.len() {
                assert(front[i] == ids[i]);
            }
        }
        assert forall|i: int| 0 <= i < ids.len() implies m1.scholars[#[trigger] ids[i]] == ScholarRecord {
            total_received: (m.scholars[ids[i]].total_received + amount) as i128,
            ..m.scholars[ids[i]]
        } by {
            if i < front.len() {
                assert(front[i] == ids[i]);
                assert(front.contains(ids[i]));
            }
        }
        assert forall|k: u32| !ids.contains(k) && #[trigger] m.scholars.contains_key(k) implies m1.scholars[k]
            == m.scholars[k] by {
            if front.contains(k) {
                let j = choose|j: int| 0 <= j < front.len() && front[j] == k;
                assert(ids[j] == k);
            }
        }
        assert forall|i: int| 0 <= i < ids.len() implies m1.disbursed.contains_key(guard_slot(#[trigger] ids[i], c)) by {
            if i < front.len() {
                assert(front[i] == ids[i]);
                assert(mid.is_paid(ids[i], c));
            }
        }
    }
}

/// The admin can pay a positive amount to each of a list of distinct
/// registered Active scholars whose guards for the cycle are unset, provided
/// every cumulative total stays within `i128`: the batch succeeds with one
/// transfer per listed scholar, in list order, each scholar's total grows by
/// the amount, their guards for the cycle are set, and other records stay.
pub proof fn law_batch_payment_succeeds(
    m: ContractModel,
    caller: Address,
    scholar_ids: Seq<u32>,
    amount_each: i128,
    cycle_id: u32,
)
    requires
        is_admin(m, caller),
        m.usdc_token is Some,
        amount_each > 0,
        forall|i: int, j: int| 0 <= i < j < scholar_ids.len() ==> #[trigger] scholar_ids[i]
            != #[trigger] scholar_ids[j],
        forall|i: int| 0 <= i < scholar_ids.len() ==> {
            &&& m.scholars.contains_key(#[trigger] scholar_ids[i])
            &&& m.scholars[scholar_ids[i]].status == EnrollmentStatus::Active
            &&& !m.disbursed.contains_key(guard_slot(scholar_ids[i], cycle_id))
            &&& m.scholars[scholar_ids[i]].total_received + amount_each <= i128::MAX
        },
    ensures
        m.batch_disburse(caller, scholar_ids, amount_each, cycle_id) is Ok,
        ({
            let (m1, ts) = m.batch_disburse(caller, scholar_ids, amount_each, cycle_id)->Ok_0;
            &&& ts.len() == scholar_ids.len()
            &&& forall|i: int| 0 <= i < scholar_ids.len() ==> (#[trigger] ts[i]).to
                == m.scholars[scholar_ids[i]].wallet && ts[i].amount == amount_each && ts[i].from
                == caller && ts[i].token == m.usdc_token->Some_0
            &&& forall|i: int| 0 <= i < scholar_ids.len() ==> m1.scholars[#[trigger] scholar_ids[i]].total_received
                == m.scholars[scholar_ids[i]].total_received + amount_each
            &&& forall|i: int| 0 <= i < scholar_ids.len() ==> m1.disbursed.contains_key(
                guard_slot(#[trigger] scholar_ids[i], cycle_id),
            )
            &&& forall|k: u32| !scholar_ids.contains(k) && #[trigger] m.scholars.contains_key(k)
                ==> m1.scholars[k] == m.scholars[k]
            &&& forall|s2: u32, c2: u32| !(c2 == cycle_id && scholar_ids.contains(s2)) ==> (
            #[trigger] m1.disbursed.contains_key(guard_slot(s2, c2)) == m.disbursed.contains_key(
                guard_slot(s2, c2),
            ))
            &&& m1.scholars.dom() == m.scholars.dom()
            &&& m1.scholar_count == m.scholar_count
            &&& m1.admin == m.admin
            &&& m1.usdc_token == m.usdc_token
        }),
{
    lemma_pay_each_succeeds(m, caller, scholar_ids, amount_each, cycle_id);
    lemma_pay_each_facts(m, caller, scholar_ids, amount_each, cycle_id);
    let m1 = m.batch_disburse(caller, scholar_ids, amount_each, cycle_id)->Ok_0.0;
    assert forall|s2: u32, c2: u32| !(c2 == cycle_id && scholar_ids.contains(s2)) implies (
    #[trigger] m1.disbursed.contains_key(guard_slot(s2, c2)) == m.disbursed.contains_key(
        guard_slot(s2, c2),
    )) by {
        assert(m1.is_paid(s2, c2) == m.is_paid(s2, c2));
    }
}

/// Why an operation by the admin is refused: registration only when the
/// count is exhausted; a status change or a payment to an unregistered
/// scholar as not found; a payment of a non-positive amount as such; a
/// payment to a registered scholar who is not Active as not active; and a
/// payment to an Active scholar whose guard for the cycle is set as already
/// disbursed.
pub proof fn law_refusals_by_the_admin(
    m: ContractModel,
    caller: Address,
    wallet: Address,
    name: String,
    school: String,
    scholar_id: u32,
    status: EnrollmentStatus,
    amount: i128,
    cycle_id: u32,
    scholar_ids: Seq<u32>,
)
    requires
        is_admin(m, caller),
    ensures
        m.scholar_count == u32::MAX ==> m.register_scholar(caller, wallet, name, school) == Err::<
            (ContractModel, u32),
            ContractError,
        >(ContractError::Overflow),
        !m.scholars.contains_key(scholar_id) ==> m.set_status(caller, scholar_id, status) == Err::<
            ContractModel,
            ContractError,
        >(ContractError::ScholarNotFound),
        amount <= 0 ==> m.disburse(caller, scholar_id, amount, cycle_id) == Err::<
            (ContractModel, Transfer),
            ContractError,
        >(ContractError::AmountNotPositive),
        amount <= 0 ==> m.batch_disburse(caller, scholar_ids, amount, cycle_id) == Err::<
            (ContractModel, Seq<Transfer>),
            ContractError,
        >(ContractError::AmountNotPositive),
        amount > 0 && !m.scholars.contains_key(scholar_id) ==> m.disburse(
            caller,
            scholar_id,
            amount,
            cycle_id,
        ) == Err::<(ContractModel, Transfer), ContractError>(ContractError::ScholarNotFound),
        amount > 0 && m.scholars.contains_key(scholar_id) && m.scholars[scholar_id].status
            != EnrollmentStatus::Active ==> m.disburse(caller, scholar_id, amount, cycle_id) == Err::<
            (ContractModel, Transfer),
            ContractError,
        >(ContractError::ScholarNotActive),
        amount > 0 && m.scholars.contains_key(scholar_id) && m.scholars[scholar_id].status
            == EnrollmentStatus::Active && m.disbursed.contains_key(guard_slot(scholar_id, cycle_id))
            ==> m.disburse(caller, scholar_id, amount, cycle_id) == Err::<
            (ContractModel, Transfer),
            ContractError,
        >(ContractError::AlreadyDisbursed),
{
}

/// A scholar's record reads back as stored, every field of it: the query
/// neither hides nor alters anything (in particular the cumulative total).
/// An id without a record reads as not found.
pub proof fn law_get_scholar_reads_the_record(m: ContractModel, scholar_id: u32)
    ensures
        m.scholars.contains_key(scholar_id) ==> m.get_scholar(scholar_id) == Ok::<
            ScholarRecord,
            ContractError,
        >(m.scholars[scholar_id]),
        !m.scholars.contains_key(scholar_id) ==> m.get_scholar(scholar_id) == Err::<
            ScholarRecord,
            ContractError,
        >(ContractError::ScholarNotFound),
{
}

/// After any sequence of calls on a well-formed state, a scholar's record
/// reads back with the total they were paid: their total before (0 if
/// registered meanwhile) plus the sum of the payments to them.
pub proof fn law_get_scholar_reports_the_payments(m: ContractModel, calls: Seq<Call>, s: u32)
    requires
        m.well_formed(),
    ensures
        ({
            let (m1, ps) = run(m, calls);
            m1.get_scholar(s) is Ok ==> m1.get_scholar(s)->Ok_0.total_received == (if m.scholars.contains_key(s) {
                m.scholars[s].total_received as int
            } else {
                0
            }) + paid_to(ps, s)
        }),
{
    law_total_is_sum_of_payments(m, calls, s);
    law_get_scholar_reads_the_record(run(m, calls).0, s);
}

/// The guard query reads the guard of exactly that scholar and cycle.
pub proof fn law_is_disbursed_reads_the_guard(m: ContractModel, scholar_id: u32, cycle_id: u32)
    ensures
        m.is_paid(scholar_id, cycle_id) == m.disbursed.contains_key(guard_slot(scholar_id, cycle_id)),
{
}

/// The admin query reads the stored admin; after an initialization with
/// admin `a`, and any further calls, it reads `a`.
pub proof fn law_get_admin_reads_the_admin(
    m: ContractModel,
    admin: Address,
    usdc_token: Address,
    calls: Seq<Call>,
)
    ensures
        m.admin is Some ==> m.get_admin() == Ok::<Address, ContractError>(m.admin->Some_0),
        m.admin is None ==> m.get_admin() == Err::<Address, ContractError>(ContractError::NotInitialized),
        m.initialize(admin, usdc_token) is Ok ==> run(m.initialize(admin, usdc_token)->Ok_0, calls).0.get_admin()
            == Ok::<Address, ContractError>(admin),
{
    if m.initialize(admin, usdc_token) is Ok {
        law_admin_and_token_never_change(m.initialize(admin, usdc_token)->Ok_0, calls);
    }
}

} // verus!
