use tulong_scholar::{Address, ContractError, EnrollmentStatus, TulongScholarContract, Transfer};

// ── Helpers ─────────────────────────────────────────────────────────────

fn addr(s: &str) -> Address {
    Address::new(s.to_string())
}

/// Unwraps a call's result, refusing it with the contract's own text.
fn ok<T>(r: Result<T, ContractError>) -> T {
    match r {
        Ok(v) => v,
        Err(e) => panic!("{}", e.message()),
    }
}

const ADMIN: &str = "GADMINFOUNDATIONBURSARACCOUNT0000000000000000000000000000";
const USDC: &str = "CUSDCTOKENCONTRACT000000000000000000000000000000000000000";

/// A contract initialized with an admin and the token: (contract, admin, usdc).
fn setup() -> (TulongScholarContract, Address, Address) {
    let mut client = TulongScholarContract::new();
    ok(client.initialize(addr(ADMIN), addr(USDC)));
    (client, addr(ADMIN), addr(USDC))
}

fn register(client: &mut TulongScholarContract, admin: &Address, wallet: &str, name: &str, school: &str) -> u32 {
    ok(client.register_scholar(admin, addr(wallet), name.to_string(), school.to_string()))
}

/// What a list of transfers pays into `wallet`.
fn received(transfers: &[Transfer], wallet: &Address) -> i128 {
    transfers.iter().filter(|t| &t.to == wallet).map(|t| t.amount).sum()
}

// ── Tests of the original ───────────────────────────────────────────────

#[test]
fn test_happy_path_disburse() {
    let (mut client, admin, usdc) = setup();

    let scholar_wallet = addr("GMARIASANTOSWALLET");
    let scholar_id = register(
        &mut client,
        &admin,
        "GMARIASANTOSWALLET",
        "Maria Santos",
        "Polytechnic University of the Philippines",
    );
    ok(client.activate_scholar(&admin, scholar_id));

    let record_before = ok(client.get_scholar(scholar_id));
    assert_eq!(record_before.status, EnrollmentStatus::Active);
    assert_eq!(record_before.total_received, 0);

    let stipend: i128 = 5_000_000_000;
    let cycle: u32 = 1;
    let transfer = ok(client.disburse(&admin, scholar_id, stipend, cycle));

    let record_after = ok(client.get_scholar(scholar_id));
    assert_eq!(record_after.total_received, stipend);

    // The scholar's wallet receives the stipend in the stored token, from the admin.
    assert_eq!(transfer.token, usdc);
    assert_eq!(transfer.from, admin);
    assert_eq!(received(&[transfer], &scholar_wallet), stipend);
}

#[test]
#[should_panic(expected = "already disbursed this cycle")]
fn test_duplicate_disburse_same_cycle_rejected() {
    let (mut client, admin, _usdc) = setup();
    let id = register(&mut client, &admin, "GJUANWALLET", "Juan dela Cruz", "De La Salle University");
    ok(client.activate_scholar(&admin, id));

    let amount: i128 = 2_000_000_000;
    let cycle: u32 = 2;
    ok(client.disburse(&admin, id, amount, cycle));
    ok(client.disburse(&admin, id, amount, cycle));
}

#[test]
fn test_state_verification_after_registration() {
    let (mut client, admin, _usdc) = setup();

    let id1 = register(&mut client, &admin, "GW1", "Ana Reyes", "UP Diliman");
    let id2 = register(&mut client, &admin, "GW2", "Ben Cruz", "Ateneo de Manila");
    let id3 = register(&mut client, &admin, "GW3", "Carla Lim", "FEU Manila");

    ok(client.activate_scholar(&admin, id1));
    ok(client.activate_scholar(&admin, id2));

    assert_eq!(client.scholar_count(), 3);

    assert_eq!(ok(client.get_scholar(id1)).status, EnrollmentStatus::Active);
    assert_eq!(ok(client.get_scholar(id2)).status, EnrollmentStatus::Active);
    assert_eq!(ok(client.get_scholar(id3)).status, EnrollmentStatus::Pending);

    assert!(!client.is_disbursed(id1, 1u32));
    assert!(!client.is_disbursed(id2, 1u32));

    ok(client.disburse(&admin, id1, 1_000_000_000_i128, 1u32));
    assert!(client.is_disbursed(id1, 1u32));
    assert!(!client.is_disbursed(id2, 1u32));

    // The Pending scholar cannot receive a disbursement.
    assert_eq!(client.disburse(&admin, id3, 1_000_000_000_i128, 1u32), Err(ContractError::ScholarNotActive));
}

#[test]
#[should_panic(expected = "unauthorized: caller is not admin")]
fn test_non_admin_cannot_disburse() {
    let (mut client, admin, _usdc) = setup();
    let id = register(&mut client, &admin, "GDIEGOWALLET", "Diego Bautista", "Mapua University");
    ok(client.activate_scholar(&admin, id));

    let impersonator = addr("GIMPERSONATOR");
    ok(client.disburse(&impersonator, id, 500_000_000_i128, 1u32));
}

#[test]
#[should_panic(expected = "scholar is not active")]
fn test_suspended_scholar_cannot_receive_funds() {
    let (mut client, admin, _usdc) = setup();
    let id = register(&mut client, &admin, "GELENAWALLET", "Elena Torres", "UST Manila");
    ok(client.activate_scholar(&admin, id));
    ok(client.suspend_scholar(&admin, id));
    ok(client.disburse(&admin, id, 3_000_000_000_i128, 1u32));
}
