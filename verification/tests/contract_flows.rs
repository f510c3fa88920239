use credential_chain::contract::CredentialChainContract;
use credential_chain::types::{Address, ContractError, CredentialStatus};

const WORKER: &str = "GWORKERAAAAAAAAAAAAAAAAAAAAAAAAAAAAAAAAAAAAAAAAAAAAAAAAA";
const EMPLOYER: &str = "GEMPLOYERAAAAAAAAAAAAAAAAAAAAAAAAAAAAAAAAAAAAAAAAAAAAAAA";
const EMPLOYER2: &str = "GEMPLOYERBBBBBBBBBBBBBBBBBBBBBBBBBBBBBBBBBBBBBBBBBBBBBBB";

/// The ledger time of a fresh test environment.
const NOW: u64 = 0;

/// A text as the registry keeps it: its bytes.
fn s(text: &str) -> Vec<u8> {
    text.as_bytes().to_vec()
}

#[test]
fn lib_test_create_credential_happy_path() {
    let mut contract = CredentialChainContract::new();
    let worker = Address::new(WORKER);

    contract.initialize().unwrap();

    let credential_id = contract.create_credential(
        worker.clone(),
        s("Welding Level 2"),
        s("MIG welding ISO 6947 certified"),
        NOW,
    );

    assert_eq!(credential_id, 1);

    let credential = contract.get_credential(credential_id).unwrap();
    assert_eq!(credential.worker, worker);
    assert_eq!(credential.status, CredentialStatus::Pending);
    assert_eq!(credential.verified, false);
}

#[test]
fn test_test_create_credential_happy_path() {
    let mut contract = CredentialChainContract::new();
    let worker = Address::new(WORKER);

    contract.initialize().unwrap();

    let credential_id = contract.create_credential(
        worker.clone(),
        s("Welding Level 2"),
        s("MIG welding ISO 6947 certified"),
        NOW,
    );

    assert_eq!(credential_id, 1);

    let credential = contract.get_credential(credential_id).unwrap();
    assert_eq!(credential.worker, worker);
    assert_eq!(credential.status, CredentialStatus::Pending);
    assert_eq!(credential.verified, false);
}

#[test]
fn lib_test_employer_verify_credential() {
    let mut contract = CredentialChainContract::new();
    let worker = Address::new(WORKER);
    let employer = Address::new(EMPLOYER);

    contract.initialize().unwrap();

    let credential_id = contract.create_credential(
        worker.clone(),
        s("English Construction"),
        s("English proficiency for construction sites"),
        NOW,
    );

    let (result, lock) = contract
        .employer_verify_credential(
            employer.clone(),
            credential_id,
            s("Acme Construction"),
            500_0000000,
        )
        .unwrap();

    assert_eq!(result, true);
    assert_eq!(lock.from, employer);
    assert_eq!(lock.amount, 500_0000000);

    let credential = contract.get_credential(credential_id).unwrap();
    assert_eq!(credential.verified, true);
    assert_eq!(credential.status, CredentialStatus::Verified);
    assert_eq!(credential.issuer, employer);
}

#[test]
fn test_test_employer_verify_credential() {
    let mut contract = CredentialChainContract::new();
    let worker = Address::new(WORKER);
    let employer = Address::new(EMPLOYER);

    contract.initialize().unwrap();

    let credential_id = contract.create_credential(
        worker.clone(),
        s("English Construction"),
        s("English proficiency for construction sites"),
        NOW,
    );

    let (result, lock) = contract
        .employer_verify_credential(
            employer.clone(),
            credential_id,
            s("Acme Construction"),
            500_0000000,
        )
        .unwrap();

    assert_eq!(result, true);
    assert_eq!(lock.from, employer);
    assert_eq!(lock.amount, 500_0000000);

    let credential = contract.get_credential(credential_id).unwrap();
    assert_eq!(credential.verified, true);
    assert_eq!(credential.status, CredentialStatus::Verified);
    assert_eq!(credential.issuer, employer);
}

#[test]
#[should_panic(expected = "Minimum stake is 500 USDC")]
fn lib_test_employer_verify_insufficient_stake() {
    let mut contract = CredentialChainContract::new();
    let worker = Address::new(WORKER);
    let employer = Address::new(EMPLOYER);

    contract.initialize().unwrap();

    let credential_id = contract.create_credential(
        worker.clone(),
        s("Safety Certification"),
        s("Basic safety training"),
        NOW,
    );

    if let Err(e) = contract.employer_verify_credential(
        employer,
        credential_id,
        s("Bad Employer"),
        100_0000000,
    ) {
        panic!("{}", e.message());
    }
}

#[test]
#[should_panic]
fn test_test_employer_verify_insufficient_stake() {
    let mut contract = CredentialChainContract::new();
    let worker = Address::new(WORKER);
    let employer = Address::new(EMPLOYER);

    contract.initialize().unwrap();

    let credential_id = contract.create_credential(
        worker.clone(),
        s("Safety Certification"),
        s("Basic safety training"),
        NOW,
    );

    if let Err(e) = contract.employer_verify_credential(
        employer,
        credential_id,
        s("Bad Employer"),
        100_0000000,
    ) {
        panic!("{}", e.message());
    }
}

#[test]
fn lib_test_worker_portfolio_and_rating() {
    let mut contract = CredentialChainContract::new();
    let worker = Address::new(WORKER);
    let employer = Address::new(EMPLOYER);

    contract.initialize().unwrap();

    let credential_id = contract.create_credential(
        worker.clone(),
        s("Equipment Operation"),
        s("Operates heavy machinery safely"),
        NOW,
    );

    contract
        .employer_verify_credential(employer.clone(), credential_id, s("Builders Inc"), 500_0000000)
        .unwrap();

    contract.add_to_portfolio(worker.clone(), credential_id).unwrap();

    let portfolio = contract.get_worker_portfolio(worker.clone());
    assert_eq!(portfolio.total_verified, 1);

    let new_reputation = contract
        .worker_rate_employer(worker.clone(), employer.clone(), 900)
        .unwrap();

    assert!(new_reputation > 0);

    let employer_record = contract.get_employer(employer).unwrap();
    assert!(employer_record.reputation_score > 0);
}

#[test]
fn test_test_worker_portfolio_and_rating() {
    let mut contract = CredentialChainContract::new();
    let worker = Address::new(WORKER);
    let employer = Address::new(EMPLOYER);

    contract.initialize().unwrap();

    let credential_id = contract.create_credential(
        worker.clone(),
        s("Equipment Operation"),
        s("Operates heavy machinery safely"),
        NOW,
    );

    contract
        .employer_verify_credential(employer.clone(), credential_id, s("Builders Inc"), 500_0000000)
        .unwrap();

    contract.add_to_portfolio(worker.clone(), credential_id).unwrap();

    let portfolio = contract.get_worker_portfolio(worker.clone());
    assert_eq!(portfolio.total_verified, 1);

    let new_reputation = contract
        .worker_rate_employer(worker.clone(), employer.clone(), 900)
        .unwrap();

    assert!(new_reputation > 0);

    let employer_record = contract.get_employer(employer).unwrap();
    assert!(employer_record.reputation_score > 0);
}

#[test]
fn lib_test_full_workflow_end_to_end() {
    let mut contract = CredentialChainContract::new();
    let worker = Address::new(WORKER);
    let employer1 = Address::new(EMPLOYER);
    let employer2 = Address::new(EMPLOYER2);

    contract.initialize().unwrap();

    let cred1 = contract.create_credential(
        worker.clone(),
        s("Welding L2"),
        s("ISO 6947 certified"),
        NOW,
    );

    let cred2 = contract.create_credential(
        worker.clone(),
        s("English Advanced"),
        s("Fluent English for work"),
        NOW,
    );

    assert_eq!(cred1, 1);
    assert_eq!(cred2, 2);

    contract
        .employer_verify_credential(employer1.clone(), cred1, s("Acme Construction"), 500_0000000)
        .unwrap();

    contract
        .employer_verify_credential(employer2.clone(), cred2, s("Elite Staffing"), 500_0000000)
        .unwrap();

    contract.add_to_portfolio(worker.clone(), cred1).unwrap();
    contract.add_to_portfolio(worker.clone(), cred2).unwrap();

    let portfolio = contract.get_worker_portfolio(worker.clone());
    assert_eq!(portfolio.total_verified, 2);

    contract
        .worker_rate_employer(worker.clone(), employer1.clone(), 850)
        .unwrap();

    contract
        .worker_rate_employer(worker.clone(), employer2.clone(), 920)
        .unwrap();

    let updated_portfolio = contract.view_portfolio(worker.clone()).unwrap();
    assert_eq!(updated_portfolio.portfolio_views, 1);
    assert!(updated_portfolio.earnings_from_views > 0);

    let counter = contract.get_credential_counter();
    assert_eq!(counter, 2);
}

#[test]
fn test_test_full_workflow_end_to_end() {
    let mut contract = CredentialChainContract::new();
    let worker = Address::new(WORKER);
    let employer1 = Address::new(EMPLOYER);
    let employer2 = Address::new(EMPLOYER2);

    contract.initialize().unwrap();

    let cred1 = contract.create_credential(
        worker.clone(),
        s("Welding L2"),
        s("ISO 6947 certified"),
        NOW,
    );

    let cred2 = contract.create_credential(
        worker.clone(),
        s("English Advanced"),
        s("Fluent English for work"),
        NOW,
    );

    assert_eq!(cred1, 1);
    assert_eq!(cred2, 2);

    contract
        .employer_verify_credential(employer1.clone(), cred1, s("Acme Construction"), 500_0000000)
        .unwrap();

    contract
        .employer_verify_credential(employer2.clone(), cred2, s("Elite Staffing"), 500_0000000)
        .unwrap();

    contract.add_to_portfolio(worker.clone(), cred1).unwrap();
    contract.add_to_portfolio(worker.clone(), cred2).unwrap();

    let portfolio = contract.get_worker_portfolio(worker.clone());
    assert_eq!(portfolio.total_verified, 2);

    contract
        .worker_rate_employer(worker.clone(), employer1.clone(), 850)
        .unwrap();

    contract
        .worker_rate_employer(worker.clone(), employer2.clone(), 920)
        .unwrap();

    let updated_portfolio = contract.view_portfolio(worker.clone()).unwrap();
    assert_eq!(updated_portfolio.portfolio_views, 1);
    assert!(updated_portfolio.earnings_from_views > 0);

    let counter = contract.get_credential_counter();
    assert_eq!(counter, 2);
}
