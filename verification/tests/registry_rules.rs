use credential_chain::contract::CredentialChainContract;
use credential_chain::records::{
    add_refusal_of, add_step, contains_id, create_step, fresh_portfolio_for, initialize_step,
    rate_refusal_of, rate_step, verify_refusal_of, verify_step, view_step,
};
use credential_chain::types::{
    Address, ContractError, CredentialStatus, Employer, StakeTransfer, MIN_STAKE, VIEW_REWARD,
};

const WORKER: &str = "GWORKERAAAAAAAAAAAAAAAAAAAAAAAAAAAAAAAAAAAAAAAAAAAAAAAAA";
const OTHER_WORKER: &str = "GWORKERBBBBBBBBBBBBBBBBBBBBBBBBBBBBBBBBBBBBBBBBBBBBBBBBB";
const EMPLOYER: &str = "GEMPLOYERAAAAAAAAAAAAAAAAAAAAAAAAAAAAAAAAAAAAAAAAAAAAAAA";
const EMPLOYER2: &str = "GEMPLOYERBBBBBBBBBBBBBBBBBBBBBBBBBBBBBBBBBBBBBBBBBBBBBBB";

/// A text as the registry keeps it: its bytes.
fn s(text: &str) -> Vec<u8> {
    text.as_bytes().to_vec()
}

/// A contract with one credential of WORKER, verified by EMPLOYER.
fn with_verified_credential() -> CredentialChainContract {
    let mut c = CredentialChainContract::new();
    c.initialize().unwrap();
    let id = c.create_credential(Address::new(WORKER), s("Welding"), s("MIG"), 42);
    c.employer_verify_credential(Address::new(EMPLOYER), id, s("Acme"), MIN_STAKE).unwrap();
    c
}

#[test]
fn initialize_twice_is_refused_and_keeps_counter() {
    let mut c = CredentialChainContract::new();
    assert_eq!(c.initialize(), Ok(()));
    c.create_credential(Address::new(WORKER), s("a"), s("b"), 1);
    assert_eq!(c.initialize(), Err(ContractError::AlreadyInitialized));
    assert_eq!(c.get_credential_counter(), 1);
}

#[test]
fn create_without_initialize_starts_at_one() {
    let mut c = CredentialChainContract::new();
    assert_eq!(c.get_credential_counter(), 0);
    assert_eq!(c.create_credential(Address::new(WORKER), s("a"), s("b"), 7), 1);
    assert_eq!(c.create_credential(Address::new(WORKER), s("c"), s("d"), 8), 2);
    assert_eq!(c.initialize(), Err(ContractError::AlreadyInitialized));
}

#[test]
fn created_credential_reads_back_pending() {
    let mut c = CredentialChainContract::new();
    let id = c.create_credential(Address::new(WORKER), s("Welding"), s("MIG"), 1234);
    let cred = c.get_credential(id).unwrap();
    assert_eq!(cred.id, 1);
    assert_eq!(cred.worker, Address::new(WORKER));
    assert_eq!(cred.issuer, Address::new(WORKER));
    assert_eq!(cred.credential_type, s("Welding"));
    assert_eq!(cred.skill_description, s("MIG"));
    assert_eq!(cred.issued_at, 1234);
    assert_eq!(cred.issuer_name, s("Unverified"));
    assert_eq!(cred.status, CredentialStatus::Pending);
    assert!(!cred.verified);
    assert_eq!(cred.staked_amount, 0);
}

#[test]
fn unknown_credential_is_not_found() {
    let c = CredentialChainContract::new();
    assert_eq!(c.get_credential(1).unwrap_err(), ContractError::CredentialNotFound);
    assert_eq!(c.get_credential(0).unwrap_err(), ContractError::CredentialNotFound);
}

#[test]
fn verification_reads_back_and_opens_employer_record() {
    let c = with_verified_credential();
    let cred = c.get_credential(1).unwrap();
    assert!(cred.verified);
    assert_eq!(cred.status, CredentialStatus::Verified);
    assert_eq!(cred.issuer, Address::new(EMPLOYER));
    assert_eq!(cred.issuer_name, s("Acme"));
    assert_eq!(cred.staked_amount, MIN_STAKE);
    assert_eq!(cred.worker, Address::new(WORKER));
    let e = c.get_employer(Address::new(EMPLOYER)).unwrap();
    assert_eq!(e.address, Address::new(EMPLOYER));
    assert_eq!(e.name, s("Unknown"));
    assert_eq!(e.staked_amount, MIN_STAKE);
    assert_eq!(e.credentials_issued, 1);
    assert_eq!(e.reputation_score, 750);
    assert!(!e.banned);
}

#[test]
fn stake_just_below_minimum_is_refused() {
    let mut c = CredentialChainContract::new();
    let id = c.create_credential(Address::new(WORKER), s("a"), s("b"), 0);
    assert_eq!(
        c.employer_verify_credential(Address::new(EMPLOYER), id, s("E"), MIN_STAKE - 1),
        Err(ContractError::MinimumStakeNotMet)
    );
    assert!(!c.get_credential(id).unwrap().verified);
    assert_eq!(c.get_employer(Address::new(EMPLOYER)).unwrap_err(), ContractError::EmployerNotFound);
}

#[test]
fn stake_is_checked_before_the_credential() {
    let mut c = CredentialChainContract::new();
    assert_eq!(
        c.employer_verify_credential(Address::new(EMPLOYER), 9, s("E"), 0),
        Err(ContractError::MinimumStakeNotMet)
    );
    assert_eq!(
        c.employer_verify_credential(Address::new(EMPLOYER), 9, s("E"), MIN_STAKE),
        Err(ContractError::CredentialNotFound)
    );
}

#[test]
fn second_verification_is_refused_and_changes_nothing() {
    let mut c = with_verified_credential();
    assert_eq!(
        c.employer_verify_credential(Address::new(EMPLOYER2), 1, s("Other"), 2 * MIN_STAKE),
        Err(ContractError::CredentialAlreadyVerified)
    );
    let cred = c.get_credential(1).unwrap();
    assert_eq!(cred.issuer, Address::new(EMPLOYER));
    assert_eq!(cred.staked_amount, MIN_STAKE);
    assert_eq!(c.get_employer(Address::new(EMPLOYER2)).unwrap_err(), ContractError::EmployerNotFound);
    assert_eq!(c.get_employer(Address::new(EMPLOYER)).unwrap().credentials_issued, 1);
}

#[test]
fn employer_record_sums_stakes_and_counts_credentials() {
    let mut c = CredentialChainContract::new();
    let a = c.create_credential(Address::new(WORKER), s("a"), s("b"), 0);
    let b = c.create_credential(Address::new(OTHER_WORKER), s("c"), s("d"), 0);
    c.employer_verify_credential(Address::new(EMPLOYER), a, s("E"), MIN_STAKE).unwrap();
    c.employer_verify_credential(Address::new(EMPLOYER), b, s("E"), MIN_STAKE + 5).unwrap();
    let e = c.get_employer(Address::new(EMPLOYER)).unwrap();
    assert_eq!(e.credentials_issued, 2);
    assert_eq!(e.staked_amount, 2 * MIN_STAKE + 5);
}

#[test]
fn rating_is_the_running_average() {
    let mut c = with_verified_credential();
    // (750 * 1 + 900) / 2
    assert_eq!(c.worker_rate_employer(Address::new(WORKER), Address::new(EMPLOYER), 900), Ok(825));
    // (825 * 1 + 1000) / 2, rounded down
    assert_eq!(c.worker_rate_employer(Address::new(WORKER), Address::new(EMPLOYER), 1000), Ok(912));
    // (912 * 1 + 0) / 2
    assert_eq!(c.worker_rate_employer(Address::new(WORKER), Address::new(EMPLOYER), 0), Ok(456));
    assert_eq!(c.get_employer(Address::new(EMPLOYER)).unwrap().reputation_score, 456);
    assert_eq!(c.get_employer(Address::new(EMPLOYER)).unwrap().credentials_issued, 1);
}

#[test]
fn rating_out_of_range_or_of_unknown_employer_is_refused() {
    let mut c = with_verified_credential();
    assert_eq!(
        c.worker_rate_employer(Address::new(WORKER), Address::new(EMPLOYER), 1001),
        Err(ContractError::RatingOutOfRange)
    );
    assert_eq!(
        c.worker_rate_employer(Address::new(WORKER), Address::new(EMPLOYER2), 500),
        Err(ContractError::EmployerNotFound)
    );
    assert_eq!(
        c.worker_rate_employer(Address::new(WORKER), Address::new(EMPLOYER2), 2000),
        Err(ContractError::RatingOutOfRange)
    );
    assert_eq!(c.get_employer(Address::new(EMPLOYER)).unwrap().reputation_score, 750);
    assert_eq!(
        c.worker_rate_employer(Address::new(WORKER), Address::new(EMPLOYER), 1000),
        Ok(875)
    );
}

#[test]
fn fresh_portfolio_is_stored_and_stable() {
    let mut c = CredentialChainContract::new();
    assert_eq!(c.view_portfolio(Address::new(WORKER)).unwrap_err(), ContractError::PortfolioNotFound);
    let p = c.get_worker_portfolio(Address::new(WORKER));
    assert_eq!(p.worker, Address::new(WORKER));
    assert!(p.credentials.is_empty());
    assert_eq!(p.total_verified, 0);
    assert_eq!(p.average_employer_rating, 750);
    assert_eq!(p.portfolio_views, 0);
    assert_eq!(p.earnings_from_views, 0);
    assert_eq!(c.get_worker_portfolio(Address::new(WORKER)), p);
    assert_eq!(c.view_portfolio(Address::new(WORKER)).unwrap().portfolio_views, 1);
}

#[test]
fn adding_twice_is_adding_once() {
    let mut c = with_verified_credential();
    assert_eq!(c.add_to_portfolio(Address::new(WORKER), 1), Ok(()));
    assert_eq!(c.add_to_portfolio(Address::new(WORKER), 1), Ok(()));
    let p = c.get_worker_portfolio(Address::new(WORKER));
    assert_eq!(p.credentials, vec![1]);
    assert_eq!(p.total_verified, 1);
}

#[test]
fn adding_is_refused_for_missing_foreign_or_unverified_credentials() {
    let mut c = with_verified_credential();
    let pending = c.create_credential(Address::new(WORKER), s("x"), s("y"), 0);
    assert_eq!(
        c.add_to_portfolio(Address::new(WORKER), 99),
        Err(ContractError::CredentialNotFound)
    );
    assert_eq!(
        c.add_to_portfolio(Address::new(OTHER_WORKER), 1),
        Err(ContractError::CredentialNotOwned)
    );
    assert_eq!(
        c.add_to_portfolio(Address::new(WORKER), pending),
        Err(ContractError::CredentialNotVerified)
    );
    assert_eq!(c.view_portfolio(Address::new(WORKER)).unwrap_err(), ContractError::PortfolioNotFound);
    assert_eq!(
        c.view_portfolio(Address::new(OTHER_WORKER)).unwrap_err(),
        ContractError::PortfolioNotFound
    );
}

#[test]
fn each_view_counts_once_and_pays_the_reward() {
    let mut c = with_verified_credential();
    c.add_to_portfolio(Address::new(WORKER), 1).unwrap();
    let first = c.view_portfolio(Address::new(WORKER)).unwrap();
    assert_eq!(first.portfolio_views, 1);
    assert_eq!(first.earnings_from_views, VIEW_REWARD);
    let second = c.view_portfolio(Address::new(WORKER)).unwrap();
    assert_eq!(second.portfolio_views, 2);
    assert_eq!(second.earnings_from_views, 800_000);
    assert_eq!(second.credentials, vec![1]);
    assert_eq!(c.get_worker_portfolio(Address::new(WORKER)), second);
}

#[test]
fn verified_credential_stays_final_through_other_requests() {
    let mut c = with_verified_credential();
    let before = c.get_credential(1).unwrap();
    c.create_credential(Address::new(WORKER), s("x"), s("y"), 5);
    c.add_to_portfolio(Address::new(WORKER), 1).unwrap();
    c.worker_rate_employer(Address::new(WORKER), Address::new(EMPLOYER), 10).unwrap();
    c.view_portfolio(Address::new(WORKER)).unwrap();
    let _ = c.employer_verify_credential(Address::new(EMPLOYER2), 1, s("Z"), MIN_STAKE);
    assert_eq!(c.get_credential(1).unwrap(), before);
}

#[test]
fn error_messages_match_the_contract_aborts() {
    assert_eq!(ContractError::AlreadyInitialized.message(), "Already initialized");
    assert_eq!(ContractError::MinimumStakeNotMet.message(), "Minimum stake is 500 USDC");
    assert_eq!(ContractError::CredentialNotFound.message(), "Credential not found");
    assert_eq!(ContractError::CredentialAlreadyVerified.message(), "Credential already verified");
    assert_eq!(ContractError::RatingOutOfRange.message(), "Rating must be between 0 and 1000");
    assert_eq!(ContractError::EmployerNotFound.message(), "Employer not found");
    assert_eq!(
        ContractError::CredentialNotOwned.message(),
        "Credential does not belong to this worker"
    );
    assert_eq!(ContractError::CredentialNotVerified.message(), "Credential is not yet verified");
    assert_eq!(ContractError::PortfolioNotFound.message(), "Portfolio not found");
}

#[test]
fn steps_on_records() {
    assert_eq!(initialize_step(None), Ok(0));
    assert_eq!(initialize_step(Some(3)), Err(ContractError::AlreadyInitialized));

    let worker = Address::new(WORKER);
    let (id, cred) = create_step(Some(4), &worker, s("t"), s("k"), 9);
    assert_eq!(id, 5);
    assert_eq!(cred.id, 5);
    assert_eq!(cred.issued_at, 9);

    let employer = Address::new(EMPLOYER);
    let existing = Employer {
        address: employer.clone(),
        name: s("Acme"),
        staked_amount: 7,
        credentials_issued: 3,
        reputation_score: 600,
        banned: false,
    };
    let (vc, ve, lock) =
        verify_step(Some(cred.clone()), Some(existing.clone()), &employer, s("Acme"), MIN_STAKE)
            .unwrap();
    assert!(vc.verified);
    assert_eq!(lock, StakeTransfer { from: employer.clone(), amount: MIN_STAKE });
    assert_eq!(ve.staked_amount, 7 + MIN_STAKE);
    assert_eq!(ve.credentials_issued, 4);
    assert_eq!(ve.name, s("Acme"));
    assert_eq!(
        verify_step(Some(vc.clone()), None, &employer, s("Acme"), MIN_STAKE).unwrap_err(),
        ContractError::CredentialAlreadyVerified
    );

    // (600 * 3 + 1000) / 4
    assert_eq!(rate_step(Some(existing), 1000).unwrap().reputation_score, 700);
    assert_eq!(rate_step(None, 5).unwrap_err(), ContractError::EmployerNotFound);

    let p = add_step(Some(vc.clone()), None, &worker, 5).unwrap();
    assert_eq!(p.credentials, vec![5]);
    assert_eq!(p.total_verified, 1);
    assert_eq!(
        add_step(Some(cred), None, &worker, 5).unwrap_err(),
        ContractError::CredentialNotVerified
    );
    let viewed = view_step(Some(p)).unwrap();
    assert_eq!(viewed.portfolio_views, 1);
    assert_eq!(view_step(None).unwrap_err(), ContractError::PortfolioNotFound);
    assert_eq!(fresh_portfolio_for(&worker).average_employer_rating, 750);
    assert!(contains_id(&vec![3, 5, 8], 5));
    assert!(!contains_id(&vec![3, 5, 8], 4));
}

#[test]
fn refusal_checks_follow_the_order_of_the_rules() {
    let worker = Address::new(WORKER);
    let (_, pending) = create_step(None, &worker, s("t"), s("k"), 0);
    assert_eq!(verify_refusal_of(&None, 0), Some(ContractError::MinimumStakeNotMet));
    assert_eq!(verify_refusal_of(&None, MIN_STAKE), Some(ContractError::CredentialNotFound));
    assert_eq!(verify_refusal_of(&Some(pending.clone()), MIN_STAKE), None);
    let mut verified = pending.clone();
    verified.verified = true;
    assert_eq!(
        verify_refusal_of(&Some(verified.clone()), MIN_STAKE),
        Some(ContractError::CredentialAlreadyVerified)
    );
    assert_eq!(rate_refusal_of(&None, 1001), Some(ContractError::RatingOutOfRange));
    assert_eq!(rate_refusal_of(&None, 1000), Some(ContractError::EmployerNotFound));
    assert_eq!(add_refusal_of(&None, &worker), Some(ContractError::CredentialNotFound));
    assert_eq!(
        add_refusal_of(&Some(verified.clone()), &Address::new(OTHER_WORKER)),
        Some(ContractError::CredentialNotOwned)
    );
    assert_eq!(add_refusal_of(&Some(pending), &worker), Some(ContractError::CredentialNotVerified));
    assert_eq!(add_refusal_of(&Some(verified), &worker), None);
}

#[test]
fn ids_stay_consecutive_across_other_requests() {
    let mut c = CredentialChainContract::new();
    c.initialize().unwrap();
    let first = c.create_credential(Address::new(WORKER), s("a"), s("b"), 0);
    c.employer_verify_credential(Address::new(EMPLOYER), first, s("E"), MIN_STAKE).unwrap();
    c.add_to_portfolio(Address::new(WORKER), first).unwrap();
    c.worker_rate_employer(Address::new(WORKER), Address::new(EMPLOYER), 300).unwrap();
    c.view_portfolio(Address::new(WORKER)).unwrap();
    let _ = c.initialize();
    let second = c.create_credential(Address::new(OTHER_WORKER), s("c"), s("d"), 1);
    assert_eq!(second, first + 1);
}

#[test]
fn pending_credential_reads_back_as_created_until_verified() {
    let mut c = CredentialChainContract::new();
    let id = c.create_credential(Address::new(WORKER), s("Welding"), s("MIG"), 77);
    let created = c.get_credential(id).unwrap();
    c.create_credential(Address::new(WORKER), s("x"), s("y"), 78);
    let _ = c.employer_verify_credential(Address::new(EMPLOYER), id, s("Low"), MIN_STAKE - 1);
    let _ = c.add_to_portfolio(Address::new(WORKER), id);
    c.get_worker_portfolio(Address::new(WORKER));
    assert_eq!(c.get_credential(id).unwrap(), created);
    c.employer_verify_credential(Address::new(EMPLOYER), id, s("Acme"), MIN_STAKE).unwrap();
    assert!(c.get_credential(id).unwrap().verified);
}

#[test]
fn five_views_count_five_rewards() {
    let mut c = CredentialChainContract::new();
    let p = c.get_worker_portfolio(Address::new(WORKER));
    let mut last = p.clone();
    for _ in 0..5 {
        last = c.view_portfolio(Address::new(WORKER)).unwrap();
    }
    assert_eq!(last.portfolio_views, p.portfolio_views + 5);
    assert_eq!(last.earnings_from_views, p.earnings_from_views + 5 * VIEW_REWARD);
    assert_eq!(last.credentials, p.credentials);
    assert_eq!(last.total_verified, p.total_verified);
}

#[test]
fn higher_rating_never_lowers_reputation() {
    let mut low = with_verified_credential();
    let mut high = with_verified_credential();
    let a = low.worker_rate_employer(Address::new(WORKER), Address::new(EMPLOYER), 400).unwrap();
    let b = high.worker_rate_employer(Address::new(WORKER), Address::new(EMPLOYER), 401).unwrap();
    assert!(a <= b);
    assert_eq!((a, b), (575, 575));
}

#[test]
fn verification_locks_exactly_the_stake_from_the_employer() {
    let mut c = CredentialChainContract::new();
    let id = c.create_credential(Address::new(WORKER), s("a"), s("b"), 0);
    let stake = MIN_STAKE + 123;
    let (ok, lock) = c
        .employer_verify_credential(Address::new(EMPLOYER), id, s("E"), stake)
        .unwrap();
    assert!(ok);
    assert_eq!(lock, StakeTransfer { from: Address::new(EMPLOYER), amount: stake });
    assert_eq!(c.get_credential(id).unwrap().staked_amount, stake);
    assert_eq!(c.get_employer(Address::new(EMPLOYER)).unwrap().staked_amount, stake);
    assert!(c
        .employer_verify_credential(Address::new(EMPLOYER), id, s("E"), stake)
        .is_err());
}
