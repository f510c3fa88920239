//! The rules of the registry, one step per request: each takes the records
//! that the request reads and gives the records that it writes, or the error
//! with which it is refused.
use vstd::prelude::*;
use crate::types::{
    StakeTransfer, StakeTransferView,
    unknown_label, unknown_label_bytes, unverified_label, unverified_label_bytes,
    Address, ContractError, Credential, CredentialStatus, CredentialView, Employer, EmployerView,
    PortfolioView, WorkerPortfolio, INITIAL_AVERAGE_RATING, INITIAL_REPUTATION, MAX_RATING,
    MIN_STAKE, VIEW_REWARD,
};

verus! {

// ----- the rules, as mathematics -----

/// The id that the next credential gets: one more than the counter, which
/// reads as zero before it is first written.
pub open spec fn next_id(counter: Option<u64>) -> int {
    match counter {
        Some(c) => c + 1,
        None => 1,
    }
}

/// A credential as a worker creates it: pending, unverified, self-issued.
pub open spec fn created_credential(
    id: u64,
    worker: Seq<char>,
    credential_type: Seq<u8>,
    skill_description: Seq<u8>,
    issued_at: u64,
) -> CredentialView {
    CredentialView {
        id,
        worker,
        credential_type,
        issued_at,
        issuer: worker,
        issuer_name: unverified_label(),
        skill_description,
        status: CredentialStatus::Pending,
        verified: false,
        staked_amount: 0,
    }
}

/// Why a verification is refused, if it is: the stake is checked first,
/// then that the credential exists, then that it is not yet verified.
pub open spec fn verify_refusal(credential: Option<CredentialView>, stake: i128) -> Option<ContractError> {
    if stake < MIN_STAKE {
        Some(ContractError::MinimumStakeNotMet)
    } else {
        match credential {
            None => Some(ContractError::CredentialNotFound),
            Some(c) => if c.verified {
                Some(ContractError::CredentialAlreadyVerified)
            } else {
                None
            },
        }
    }
}

/// A credential once an employer has verified it with a stake.
pub open spec fn verified_credential(
    c: CredentialView,
    employer: Seq<char>,
    issuer_name: Seq<u8>,
    stake: i128,
) -> CredentialView {
    CredentialView {
        id: c.id,
        worker: c.worker,
        credential_type: c.credential_type,
        issued_at: c.issued_at,
        issuer: employer,
        issuer_name,
        skill_description: c.skill_description,
        status: CredentialStatus::Verified,
        verified: true,
        staked_amount: stake,
    }
}

/// The stake that a verification locks: the whole stake, from the employer
/// to the registry contract.
pub open spec fn stake_lock(employer: Seq<char>, stake: i128) -> StakeTransferView {
    StakeTransferView { from: employer, amount: stake }
}

/// The record of an employer that has none yet.
pub open spec fn fresh_employer(address: Seq<char>) -> EmployerView {
    EmployerView {
        address,
        name: unknown_label(),
        staked_amount: 0,
        credentials_issued: 0,
        reputation_score: INITIAL_REPUTATION,
        banned: false,
    }
}

/// The employer's record, or a fresh one where there is none.
pub open spec fn employer_or_fresh(existing: Option<EmployerView>, address: Seq<char>) -> EmployerView {
    match existing {
        Some(e) => e,
        None => fresh_employer(address),
    }
}

/// An employer record after one more verification with the given stake.
pub open spec fn credited_employer(e: EmployerView, stake: i128) -> EmployerView {
    EmployerView {
        address: e.address,
        name: e.name,
        staked_amount: (e.staked_amount + stake) as i128,
        credentials_issued: (e.credentials_issued + 1) as u32,
        reputation_score: e.reputation_score,
        banned: e.banned,
    }
}

/// Whether crediting the employer with the stake stays within the integer widths.
pub open spec fn credit_fits(e: EmployerView, stake: i128) -> bool {
    &&& e.staked_amount + stake <= i128::MAX
    &&& e.staked_amount + stake >= i128::MIN
    &&& e.credentials_issued + 1 <= u32::MAX
}

/// The reputation after a rating: the running average that counts the
/// current score once per credential the employer has issued, and the new
/// rating once, rounded down.
pub open spec fn rated_reputation(score: u32, issued: u32, rating: u32) -> int {
    (score * issued + rating) / (issued + 1)
}

/// Whether rating the employer stays within the integer widths.
pub open spec fn rating_fits(e: EmployerView, rating: u32) -> bool {
    &&& e.reputation_score * e.credentials_issued + rating <= u32::MAX
    &&& e.credentials_issued + 1 <= u32::MAX
}

/// Why a rating is refused, if it is.
pub open spec fn rate_refusal(existing: Option<EmployerView>, rating: u32) -> Option<ContractError> {
    if rating > MAX_RATING {
        Some(ContractError::RatingOutOfRange)
    } else if existing is None {
        Some(ContractError::EmployerNotFound)
    } else {
        None
    }
}

/// An employer record after a rating.
pub open spec fn rated_employer(e: EmployerView, rating: u32) -> EmployerView {
    EmployerView {
        address: e.address,
        name: e.name,
        staked_amount: e.staked_amount,
        credentials_issued: e.credentials_issued,
        reputation_score: rated_reputation(e.reputation_score, e.credentials_issued, rating) as u32,
        banned: e.banned,
    }
}

/// The portfolio of a worker that has none yet.
pub open spec fn fresh_portfolio(worker: Seq<char>) -> PortfolioView {
    PortfolioView {
        worker,
        credentials: Seq::empty(),
        total_verified: 0,
        average_employer_rating: INITIAL_AVERAGE_RATING,
        portfolio_views: 0,
        earnings_from_views: 0,
    }
}

/// The worker's portfolio, or a fresh one where there is none.
pub open spec fn portfolio_or_fresh(existing: Option<PortfolioView>, worker: Seq<char>) -> PortfolioView {
    match existing {
        Some(p) => p,
        None => fresh_portfolio(worker),
    }
}

/// Why adding a credential to a portfolio is refused, if it is: the
/// credential must exist, belong to the worker, and be verified.
pub open spec fn add_refusal(credential: Option<CredentialView>, worker: Seq<char>) -> Option<ContractError> {
    match credential {
        None => Some(ContractError::CredentialNotFound),
        Some(c) => if c.worker != worker {
            Some(ContractError::CredentialNotOwned)
        } else if !c.verified {
            Some(ContractError::CredentialNotVerified)
        } else {
            None
        },
    }
}

/// A portfolio with the credential added, unless it is already there.
pub open spec fn portfolio_with(p: PortfolioView, id: u64) -> PortfolioView {
    if p.credentials.contains(id) {
        p
    } else {
        PortfolioView {
            worker: p.worker,
            credentials: p.credentials.push(id),
            total_verified: (p.total_verified + 1) as u32,
            average_employer_rating: p.average_employer_rating,
            portfolio_views: p.portfolio_views,
            earnings_from_views: p.earnings_from_views,
        }
    }
}

/// Whether adding the credential to the portfolio stays within the integer widths.
pub open spec fn add_fits(p: PortfolioView, id: u64) -> bool {
    !p.credentials.contains(id) ==> p.total_verified + 1 <= u32::MAX
}

/// A portfolio after one more view.
pub open spec fn viewed_portfolio(p: PortfolioView) -> PortfolioView {
    PortfolioView {
        worker: p.worker,
        credentials: p.credentials,
        total_verified: p.total_verified,
        average_employer_rating: p.average_employer_rating,
        portfolio_views: (p.portfolio_views + 1) as u32,
        earnings_from_views: (p.earnings_from_views + VIEW_REWARD) as i128,
    }
}

/// Whether recording a view stays within the integer widths.
pub open spec fn view_fits(p: PortfolioView) -> bool {
    &&& p.portfolio_views + 1 <= u32::MAX
    &&& p.earnings_from_views + VIEW_REWARD <= i128::MAX
}

/// The view of an optional value.
pub open spec fn opt_view<T: View>(o: Option<T>) -> Option<T::V> {
    match o {
        Some(t) => Some(t@),
        None => None,
    }
}

// ----- the rules, as code -----

/// The value that initializing writes into a counter that reads `existing`:
/// zero, or `AlreadyInitialized` when the counter was written before.
pub fn initialize_step(existing: Option<u64>) -> (r: Result<u64, ContractError>)
    ensures
        existing is Some ==> r == Err::<u64, ContractError>(ContractError::AlreadyInitialized),
        existing is None ==> r == Ok::<u64, ContractError>(0),
{
    match existing {
        Some(_) => Err(ContractError::AlreadyInitialized),
        None => Ok(0),
    }
}

/// Creating a credential: the new counter value, which is also the new
/// credential's id, and the credential itself.
pub fn create_step(
    counter: Option<u64>,
    worker: &Address,
    credential_type: Vec<u8>,
    skill_description: Vec<u8>,
    issued_at: u64,
) -> (r: (u64, Credential))
    requires
        next_id(counter) <= u64::MAX,
    ensures
        r.0 == next_id(counter),
        r.1@ == created_credential(r.0, worker@, credential_type@, skill_description@, issued_at),
{
    let id: u64 = match counter {
        Some(c) => c + 1,
        None => 1,
    };
    let credential = Credential {
        id,
        worker: worker.copy(),
        credential_type,
        issued_at,
        issuer: worker.copy(),
        issuer_name: unverified_label_bytes(),
        skill_description,
        status: CredentialStatus::Pending,
        verified: false,
        staked_amount: 0,
    };
    (id, credential)
}

/// Why verifying the credential with the stake is refused, if it is.
pub fn verify_refusal_of(credential: &Option<Credential>, stake: i128) -> (r: Option<ContractError>)
    ensures
        r == verify_refusal(opt_view(*credential), stake),
{
    if stake < MIN_STAKE {
        Some(ContractError::MinimumStakeNotMet)
    } else {
        match credential {
            None => Some(ContractError::CredentialNotFound),
            Some(c) => if c.verified {
                Some(ContractError::CredentialAlreadyVerified)
            } else {
                None
            },
        }
    }
}

/// Why rating the employer whose record reads `existing` is refused, if it is.
pub fn rate_refusal_of(existing: &Option<Employer>, rating: u32) -> (r: Option<ContractError>)
    ensures
        r == rate_refusal(opt_view(*existing), rating),
{
    if rating > MAX_RATING {
        Some(ContractError::RatingOutOfRange)
    } else if existing.is_none() {
        Some(ContractError::EmployerNotFound)
    } else {
        None
    }
}

/// Why adding the credential to the worker's portfolio is refused, if it is.
pub fn add_refusal_of(credential: &Option<Credential>, worker: &Address) -> (r: Option<ContractError>)
    ensures
        r == add_refusal(opt_view(*credential), worker@),
{
    match credential {
        None => Some(ContractError::CredentialNotFound),
        Some(c) => if !c.worker.same(worker) {
            Some(ContractError::CredentialNotOwned)
        } else if !c.verified {
            Some(ContractError::CredentialNotVerified)
        } else {
            None
        },
    }
}

/// Verifying a credential: the credential and the employer record as they
/// are written back and the stake transfer that locks the stake with the
/// registry, or the reason for refusal.
pub fn verify_step(
    credential: Option<Credential>,
    existing_employer: Option<Employer>,
    employer: &Address,
    issuer_name: Vec<u8>,
    stake: i128,
) -> (r: Result<(Credential, Employer, StakeTransfer), ContractError>)
    requires
        verify_refusal(opt_view(credential), stake) is None ==> credit_fits(
            employer_or_fresh(opt_view(existing_employer), employer@),
            stake,
        ),
    ensures
        verify_refusal(opt_view(credential), stake) matches Some(e) ==> r == Err::<
            (Credential, Employer, StakeTransfer),
            ContractError,
        >(e),
        verify_refusal(opt_view(credential), stake) is None ==> (r matches Ok((c, e, t)) && c@
            == verified_credential(credential->0@, employer@, issuer_name@, stake) && e@
            == credited_employer(
            employer_or_fresh(opt_view(existing_employer), employer@),
            stake,
        ) && t@ == stake_lock(employer@, stake)),
{
    if let Some(refused) = verify_refusal_of(&credential, stake) {
        return Err(refused);
    }
    let mut c = credential.unwrap();
    c.issuer = employer.copy();
    c.issuer_name = issuer_name;
    c.status = CredentialStatus::Verified;
    c.verified = true;
    c.staked_amount = stake;
    let mut e = match existing_employer {
        Some(e) => e,
        None => Employer {
            address: employer.copy(),
            name: unknown_label_bytes(),
            staked_amount: 0,
            credentials_issued: 0,
            reputation_score: INITIAL_REPUTATION,
            banned: false,
        },
    };
    e.staked_amount = e.staked_amount + stake;
    e.credentials_issued = e.credentials_issued + 1;
    let lock = StakeTransfer { from: employer.copy(), amount: stake };
    Ok((c, e, lock))
}

/// Rating an employer: the employer record as it is written back, whose
/// reputation score is the call's result, or the reason for refusal.
pub fn rate_step(existing: Option<Employer>, rating: u32) -> (r: Result<Employer, ContractError>)
    requires
        rate_refusal(opt_view(existing), rating) is None ==> rating_fits(existing->0@, rating),
    ensures
        rate_refusal(opt_view(existing), rating) matches Some(e) ==> r == Err::<
            Employer,
            ContractError,
        >(e),
        rate_refusal(opt_view(existing), rating) is None ==> (r matches Ok(e) && e@
            == rated_employer(existing->0@, rating)),
{
    if let Some(refused) = rate_refusal_of(&existing, rating) {
        return Err(refused);
    }
    let mut e = existing.unwrap();
    let prev_total: u32 = e.reputation_score * e.credentials_issued;
    let new_total: u32 = prev_total + rating;
    let new_count: u32 = e.credentials_issued + 1;
    e.reputation_score = new_total / new_count;
    Ok(e)
}

/// The fresh portfolio of a worker.
pub fn fresh_portfolio_for(worker: &Address) -> (p: WorkerPortfolio)
    ensures
        p@ == fresh_portfolio(worker@),
{
    WorkerPortfolio {
        worker: worker.copy(),
        credentials: Vec::new(),
        total_verified: 0,
        average_employer_rating: INITIAL_AVERAGE_RATING,
        portfolio_views: 0,
        earnings_from_views: 0,
    }
}

/// Adding a credential to a worker's portfolio: the portfolio as it is
/// written back, or the reason for refusal.
pub fn add_step(
    credential: Option<Credential>,
    existing: Option<WorkerPortfolio>,
    worker: &Address,
    credential_id: u64,
) -> (r: Result<WorkerPortfolio, ContractError>)
    requires
        add_refusal(opt_view(credential), worker@) is None ==> add_fits(
            portfolio_or_fresh(opt_view(existing), worker@),
            credential_id,
        ),
    ensures
        add_refusal(opt_view(credential), worker@) matches Some(e) ==> r == Err::<
            WorkerPortfolio,
            ContractError,
        >(e),
        add_refusal(opt_view(credential), worker@) is None ==> (r matches Ok(p) && p@
            == portfolio_with(portfolio_or_fresh(opt_view(existing), worker@), credential_id)),
{
    if let Some(refused) = add_refusal_of(&credential, worker) {
        return Err(refused);
    }
    let mut p = match existing {
        Some(p) => p,
        None => fresh_portfolio_for(worker),
    };
    let found = contains_id(&p.credentials, credential_id);
    if !found {
        p.credentials.push(credential_id);
        p.total_verified = p.total_verified + 1;
    }
    Ok(p)
}

/// Whether the list holds the id.
pub fn contains_id(ids: &Vec<u64>, id: u64) -> (b: bool)
    ensures
        b == ids@.contains(id),
{
    let mut i: usize = 0;
    while i < ids.len()
        invariant
            i <= ids@.len(),
            forall|j: int| 0 <= j < i ==> ids@[j] != id,
        decreases ids@.len() - i,
    {
        if ids[i] == id {
            assert(ids@[i as int] == id);
            return true;
        }
        i = i + 1;
    }
    false
}

/// Recording a view of a portfolio: the portfolio as it is written back
/// and returned, or `PortfolioNotFound`.
pub fn view_step(existing: Option<WorkerPortfolio>) -> (r: Result<WorkerPortfolio, ContractError>)
    requires
        existing matches Some(p) ==> view_fits(p@),
    ensures
        existing is None ==> r == Err::<WorkerPortfolio, ContractError>(
            ContractError::PortfolioNotFound,
        ),
        existing is Some ==> (r matches Ok(p) && p@ == viewed_portfolio(existing->0@)),
{
    let mut p = match existing {
        Some(p) => p,
        None => {
            return Err(ContractError::PortfolioNotFound);
        },
    };
    p.portfolio_views = p.portfolio_views + 1;
    p.earnings_from_views = p.earnings_from_views + VIEW_REWARD;
    Ok(p)
}

} // verus!
