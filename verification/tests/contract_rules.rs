use tulong_scholar::{
    guard_slot_of, Address, ContractError, DataKey, EnrollmentStatus, TulongScholarContract,
};

fn addr(s: &str) -> Address {
    Address::new(s.to_string())
}

fn setup() -> (TulongScholarContract, Address) {
    let mut c = TulongScholarContract::new();
    assert_eq!(c.initialize(addr("GADMIN"), addr("CUSDC")), Ok(()));
    (c, addr("GADMIN"))
}

fn active_scholar(c: &mut TulongScholarContract, admin: &Address, wallet: &str) -> u32 {
    let id = c.register_scholar(admin, addr(wallet), "Name".to_string(), "School".to_string()).unwrap();
    c.activate_scholar(admin, id).unwrap();
    id
}

#[test]
fn new_contract_is_empty() {
    let c = TulongScholarContract::new();
    assert_eq!(c.scholar_count(), 0);
    assert_eq!(c.get_admin(), Err(ContractError::NotInitialized));
    assert_eq!(c.get_scholar(1), Err(ContractError::ScholarNotFound));
    assert_eq!(c.is_disbursed(1, 1), false);
}

#[test]
fn initialize_only_once() {
    let (mut c, admin) = setup();
    assert_eq!(c.get_admin(), Ok(admin.clone()));
    assert_eq!(c.initialize(addr("GOTHER"), addr("COTHER")), Err(ContractError::AlreadyInitialized));
    assert_eq!(c.get_admin(), Ok(admin));
    assert_eq!(c.usdc_token, Some(addr("CUSDC")));
}

#[test]
fn calls_before_initialization_are_refused() {
    let mut c = TulongScholarContract::new();
    let a = addr("GADMIN");
    assert_eq!(
        c.register_scholar(&a, addr("GW"), "n".to_string(), "s".to_string()),
        Err(ContractError::NotInitialized)
    );
    assert_eq!(c.activate_scholar(&a, 1), Err(ContractError::NotInitialized));
    assert_eq!(c.disburse(&a, 1, 10, 1), Err(ContractError::NotInitialized));
    assert_eq!(c.batch_disburse(&a, &vec![1], 10, 1), Err(ContractError::NotInitialized));
    assert_eq!(c.scholar_count(), 0);
}

#[test]
fn registration_assigns_the_next_id() {
    let (mut c, admin) = setup();
    let id1 = c.register_scholar(&admin, addr("GW1"), "Ana".to_string(), "UP".to_string()).unwrap();
    let id2 = c.register_scholar(&admin, addr("GW2"), "Ben".to_string(), "FEU".to_string()).unwrap();
    assert_eq!((id1, id2), (1, 2));
    assert_eq!(c.scholar_count(), 2);
    let r = c.get_scholar(1).unwrap();
    assert_eq!(r.id, 1);
    assert_eq!(r.wallet, addr("GW1"));
    assert_eq!(r.name, "Ana");
    assert_eq!(r.school, "UP");
    assert_eq!(r.status, EnrollmentStatus::Pending);
    assert_eq!(r.total_received, 0);
    assert_eq!(c.get_scholar(2).unwrap().name, "Ben");
}

#[test]
fn only_the_admin_changes_storage() {
    let (mut c, admin) = setup();
    let id = active_scholar(&mut c, &admin, "GW");
    let x = addr("GINTRUDER");
    assert_eq!(
        c.register_scholar(&x, addr("GW2"), "n".to_string(), "s".to_string()),
        Err(ContractError::Unauthorized)
    );
    assert_eq!(c.suspend_scholar(&x, id), Err(ContractError::Unauthorized));
    assert_eq!(c.activate_scholar(&x, id), Err(ContractError::Unauthorized));
    assert_eq!(c.disburse(&x, id, 10, 1), Err(ContractError::Unauthorized));
    assert_eq!(c.batch_disburse(&x, &vec![id], 10, 1), Err(ContractError::Unauthorized));
    assert_eq!(c.scholar_count(), 1);
    assert_eq!(c.get_scholar(id).unwrap().status, EnrollmentStatus::Active);
    assert_eq!(c.is_disbursed(id, 1), false);
}

#[test]
fn status_changes() {
    let (mut c, admin) = setup();
    let id = c.register_scholar(&admin, addr("GW"), "n".to_string(), "s".to_string()).unwrap();
    assert_eq!(c.activate_scholar(&admin, 7), Err(ContractError::ScholarNotFound));
    assert_eq!(c.suspend_scholar(&admin, 7), Err(ContractError::ScholarNotFound));
    c.activate_scholar(&admin, id).unwrap();
    assert_eq!(c.get_scholar(id).unwrap().status, EnrollmentStatus::Active);
    c.suspend_scholar(&admin, id).unwrap();
    let r = c.get_scholar(id).unwrap();
    assert_eq!(r.status, EnrollmentStatus::Suspended);
    assert_eq!(r.name, "n");
    assert_eq!(r.wallet, addr("GW"));
}

#[test]
fn disburse_refusals() {
    let (mut c, admin) = setup();
    let id = active_scholar(&mut c, &admin, "GW");
    assert_eq!(c.disburse(&admin, id, 0, 1), Err(ContractError::AmountNotPositive));
    assert_eq!(c.disburse(&admin, id, -5, 1), Err(ContractError::AmountNotPositive));
    assert_eq!(c.disburse(&admin, 99, 5, 1), Err(ContractError::ScholarNotFound));
    // The largest cycle id is an ordinary cycle.
    assert!(c.disburse(&admin, id, 5, u32::MAX).is_ok());
    assert_eq!(c.is_disbursed(id, u32::MAX), true);
    assert_eq!(c.get_scholar(id).unwrap().total_received, 5);
}

#[test]
fn payment_accumulates_and_touches_only_its_scholar() {
    let (mut c, admin) = setup();
    let a = active_scholar(&mut c, &admin, "GA");
    let b = active_scholar(&mut c, &admin, "GB");
    let t1 = c.disburse(&admin, a, 300, 1).unwrap();
    let t2 = c.disburse(&admin, a, 200, 2).unwrap();
    assert_eq!((t1.to, t1.amount), (addr("GA"), 300));
    assert_eq!((t2.to.clone(), t2.amount, t2.token.clone()), (addr("GA"), 200, addr("CUSDC")));
    assert_eq!(c.get_scholar(a).unwrap().total_received, 500);
    assert_eq!(c.get_scholar(b).unwrap().total_received, 0);
    assert_eq!(c.is_disbursed(a, 1), true);
    assert_eq!(c.is_disbursed(a, 2), true);
    assert_eq!(c.is_disbursed(b, 1), false);
}

#[test]
fn cumulative_total_overflow_is_refused() {
    let (mut c, admin) = setup();
    let id = active_scholar(&mut c, &admin, "GW");
    c.disburse(&admin, id, i128::MAX, 1).unwrap();
    assert_eq!(c.disburse(&admin, id, 1, 2), Err(ContractError::Overflow));
    assert_eq!(c.is_disbursed(id, 2), false);
    assert_eq!(c.get_scholar(id).unwrap().total_received, i128::MAX);
}

#[test]
fn no_second_payment_in_a_cycle() {
    let (mut c, admin) = setup();
    let id = active_scholar(&mut c, &admin, "GW");
    c.disburse(&admin, id, 100, 3).unwrap();
    assert_eq!(c.disburse(&admin, id, 999, 3), Err(ContractError::AlreadyDisbursed));
    assert_eq!(c.batch_disburse(&admin, &vec![id], 1, 3), Err(ContractError::AlreadyDisbursed));
    assert_eq!(c.get_scholar(id).unwrap().total_received, 100);
}

#[test]
fn suspension_blocks_payment() {
    let (mut c, admin) = setup();
    let id = active_scholar(&mut c, &admin, "GW");
    c.suspend_scholar(&admin, id).unwrap();
    assert_eq!(c.disburse(&admin, id, 10, 1), Err(ContractError::ScholarNotActive));
    assert_eq!(c.batch_disburse(&admin, &vec![id], 10, 1), Err(ContractError::BatchScholarNotActive));
    c.activate_scholar(&admin, id).unwrap();
    assert!(c.disburse(&admin, id, 10, 1).is_ok());
}

#[test]
fn batch_pays_each_in_order() {
    let (mut c, admin) = setup();
    let a = active_scholar(&mut c, &admin, "GA");
    let b = active_scholar(&mut c, &admin, "GB");
    let ts = c.batch_disburse(&admin, &vec![b, a], 50, 4).unwrap();
    assert_eq!(ts.len(), 2);
    assert_eq!((ts[0].to.clone(), ts[0].amount), (addr("GB"), 50));
    assert_eq!((ts[1].to.clone(), ts[1].amount), (addr("GA"), 50));
    assert_eq!(c.get_scholar(a).unwrap().total_received, 50);
    assert_eq!(c.get_scholar(b).unwrap().total_received, 50);
    assert_eq!(c.is_disbursed(a, 4), true);
    assert_eq!(c.is_disbursed(b, 4), true);
}

#[test]
fn batch_equals_separate_disbursements() {
    let (mut c1, admin) = setup();
    let a = active_scholar(&mut c1, &admin, "GA");
    let b = active_scholar(&mut c1, &admin, "GB");
    let mut c2 = setup().0;
    active_scholar(&mut c2, &admin, "GA");
    active_scholar(&mut c2, &admin, "GB");
    let ts = c1.batch_disburse(&admin, &vec![a, b], 70, 9).unwrap();
    let t1 = c2.disburse(&admin, a, 70, 9).unwrap();
    let t2 = c2.disburse(&admin, b, 70, 9).unwrap();
    assert_eq!(ts, vec![t1, t2]);
    assert_eq!(c1.scholars, c2.scholars);
    assert_eq!(c1.disbursed, c2.disbursed);
}

#[test]
fn batch_is_all_or_nothing() {
    let (mut c, admin) = setup();
    let a = active_scholar(&mut c, &admin, "GA");
    let p = c.register_scholar(&admin, addr("GP"), "n".to_string(), "s".to_string()).unwrap();
    // The second scholar is still Pending: nothing of the batch happens.
    assert_eq!(c.batch_disburse(&admin, &vec![a, p], 10, 1), Err(ContractError::BatchScholarNotActive));
    assert_eq!(c.get_scholar(a).unwrap().total_received, 0);
    assert_eq!(c.is_disbursed(a, 1), false);
    // A repeated id meets its own guard.
    assert_eq!(c.batch_disburse(&admin, &vec![a, a], 10, 1), Err(ContractError::AlreadyDisbursed));
    assert_eq!(c.get_scholar(a).unwrap().total_received, 0);
    assert_eq!(c.batch_disburse(&admin, &vec![a, 42], 10, 1), Err(ContractError::ScholarNotFound));
    assert_eq!(c.batch_disburse(&admin, &vec![a], 0, 1), Err(ContractError::AmountNotPositive));
    assert_eq!(c.is_disbursed(a, 1), false);
    // An empty batch changes nothing and pays nobody.
    assert_eq!(c.batch_disburse(&admin, &vec![], 10, 1), Ok(vec![]));
}

#[test]
fn guard_slot_formula() {
    assert_eq!(guard_slot_of(3, 7), 3 * 4_294_967_296 + 7);
    assert_eq!(guard_slot_of(0, 0), 0);
    assert_eq!(guard_slot_of(u32::MAX, u32::MAX), u64::MAX);
    assert_eq!(guard_slot_of(1, 0), 4_294_967_296);
    assert_ne!(guard_slot_of(1, 1_000_001), guard_slot_of(2, 1));
    assert_eq!(DataKey::Disbursed(12, 5), DataKey::Disbursed(12, 5));
    assert_ne!(DataKey::Disbursed(1, 1_000_001), DataKey::Disbursed(2, 1));
}

#[test]
fn guards_are_per_scholar_and_cycle() {
    let (mut c, admin) = setup();
    let a = active_scholar(&mut c, &admin, "GA");
    let b = active_scholar(&mut c, &admin, "GB");
    assert_eq!((a, b), (1, 2));
    c.disburse(&admin, a, 100, 1_000_001).unwrap();
    assert_eq!(c.is_disbursed(a, 1_000_001), true);
    assert_eq!(c.is_disbursed(b, 1), false);
    assert_eq!(c.is_disbursed(a, 1), false);
    let t = c.disburse(&admin, b, 100, 1).unwrap();
    assert_eq!((t.to, t.amount), (addr("GB"), 100));
    assert_eq!(c.get_scholar(b).unwrap().total_received, 100);
    assert_eq!(c.is_disbursed(b, 1), true);
    // Suspend and re-activate: the record is kept and unpaid cycles are payable.
    c.suspend_scholar(&admin, b).unwrap();
    c.activate_scholar(&admin, b).unwrap();
    assert_eq!(c.get_scholar(b).unwrap().total_received, 100);
    assert!(c.disburse(&admin, b, 100, 2).is_ok());
    assert_eq!(c.disburse(&admin, b, 100, 1), Err(ContractError::AlreadyDisbursed));
}

#[test]
fn large_ids_are_paid() {
    let (mut c, admin) = setup();
    let mut last = 0;
    for _ in 0..4295 {
        last = c.register_scholar(&admin, addr("GW"), "n".to_string(), "s".to_string()).unwrap();
    }
    assert_eq!(last, 4295);
    assert_eq!(c.scholar_count(), 4295);
    c.activate_scholar(&admin, last).unwrap();
    assert_eq!(c.is_disbursed(last, 1), false);
    assert!(c.disburse(&admin, last, 10, 1).is_ok());
    assert_eq!(c.is_disbursed(last, 1), true);
    assert_eq!(c.batch_disburse(&admin, &vec![last], 10, 2).map(|ts| ts.len()), Ok(1));
    assert_eq!(c.is_disbursed(4294, 1), false);
}

#[test]
fn unregistered_scholar_reads_as_unpaid() {
    let c = TulongScholarContract::new();
    assert_eq!(c.is_disbursed(5000, 0), false);
    assert_eq!(c.is_disbursed(u32::MAX, u32::MAX), false);
}

#[test]
fn refusal_texts() {
    assert_eq!(ContractError::AlreadyInitialized.message(), "already initialized");
    assert_eq!(ContractError::Unauthorized.message(), "unauthorized: caller is not admin");
    assert_eq!(ContractError::ScholarNotFound.message(), "scholar not found");
    assert_eq!(ContractError::AmountNotPositive.message(), "amount must be positive");
    assert_eq!(ContractError::ScholarNotActive.message(), "scholar is not active");
    assert_eq!(ContractError::BatchScholarNotActive.message(), "scholar not active");
    assert_eq!(ContractError::AlreadyDisbursed.message(), "already disbursed this cycle");
    assert!(ContractError::NotInitialized.message().contains("None"));
    assert!(ContractError::Overflow.message().contains("overflow"));
}

#[test]
fn address_comparison() {
    assert!(addr("GA").same_as(&addr("GA")));
    assert!(!addr("GA").same_as(&addr("GB")));
}
