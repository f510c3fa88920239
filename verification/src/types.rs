//! The records that the credential registry keeps, their mathematical views,
//! and the errors with which it refuses a request.
use vstd::prelude::*;

verus! {

/// The smallest stake, in the asset's smallest unit (7 decimals), that an
/// employer must lock to verify a credential: 500 USDC.
pub const MIN_STAKE: i128 = 5_000_000_000;

/// The reputation score that a new employer record starts with.
pub const INITIAL_REPUTATION: u32 = 750;

/// The average employer rating that a new portfolio starts with.
pub const INITIAL_AVERAGE_RATING: u32 = 750;

/// The highest rating a worker may give an employer.
pub const MAX_RATING: u32 = 1000;

/// What a worker earns each time their portfolio is viewed.
pub const VIEW_REWARD: i128 = 400_000;

/// A copy of a text, which the registry keeps as the bytes it was given.
pub fn copy_text(t: &Vec<u8>) -> (r: Vec<u8>)
    ensures
        r@ == t@,
{
    let mut r: Vec<u8> = Vec::new();
    let mut i: usize = 0;
    while i < t.len()
        invariant
            i <= t@.len(),
            r@ == t@.subrange(0, i as int),
        decreases t@.len() - i,
    {
        r.push(t[i]);
        i = i + 1;
    }
    assert(t@.subrange(0, i as int) =~= t@);
    r
}

/// The issuer name of a credential that no employer has verified yet:
/// the bytes of "Unverified".
pub open spec fn unverified_label() -> Seq<u8> {
    seq![85u8, 110, 118, 101, 114, 105, 102, 105, 101, 100]
}

/// The name of an employer record opened by a first verification: the
/// bytes of "Unknown".
pub open spec fn unknown_label() -> Seq<u8> {
    seq![85u8, 110, 107, 110, 111, 119, 110]
}

/// The bytes of [`unverified_label`].
pub fn unverified_label_bytes() -> (v: Vec<u8>)
    ensures
        v@ == unverified_label(),
{
    let v: Vec<u8> = vec![85u8, 110, 118, 101, 114, 105, 102, 105, 101, 100];
    assert(v@ =~= unverified_label());
    v
}

/// The bytes of [`unknown_label`].
pub fn unknown_label_bytes() -> (v: Vec<u8>)
    ensures
        v@ == unknown_label(),
{
    let v: Vec<u8> = vec![85u8, 110, 107, 110, 111, 119, 110];
    assert(v@ =~= unknown_label());
    v
}

/// An account on the ledger, identified by its strkey text
/// (`G...` for an account, `C...` for a contract).
#[derive(Clone, Debug, PartialEq, Eq)]
pub struct Address {
    pub strkey: String,
}

impl View for Address {
    type V = Seq<char>;

    open spec fn view(&self) -> Seq<char> {
        self.strkey@
    }
}

impl Address {
    /// The address with the given strkey.
    pub fn new(strkey: &str) -> (a: Address)
        ensures
            a@ == strkey@,
    {
        Address { strkey: strkey.to_owned() }
    }

    /// Whether two addresses name the same account.
    pub fn same(&self, other: &Address) -> (b: bool)
        ensures
            b == (self@ == other@),
    {
        self.strkey == other.strkey
    }

    /// A copy of this address.
    pub fn copy(&self) -> (a: Address)
        ensures
            a@ == self@,
    {
        Address { strkey: self.strkey.clone() }
    }
}

/// Where a credential stands in its life.
#[derive(Clone, Copy, Debug, PartialEq, Eq, Structural)]
pub enum CredentialStatus {
    Pending,
    Verified,
    Active,
    Expired,
    Revoked,
}

/// A micro-credential that a worker created, possibly verified by an employer.
#[derive(Clone, Debug, PartialEq, Eq)]
pub struct Credential {
    pub id: u64,
    pub worker: Address,
    pub credential_type: Vec<u8>,
    pub issued_at: u64,
    pub issuer: Address,
    pub issuer_name: Vec<u8>,
    pub skill_description: Vec<u8>,
    pub status: CredentialStatus,
    pub verified: bool,
    pub staked_amount: i128,
}

/// The mathematical value of a [`Credential`].
pub struct CredentialView {
    pub id: u64,
    pub worker: Seq<char>,
    pub credential_type: Seq<u8>,
    pub issued_at: u64,
    pub issuer: Seq<char>,
    pub issuer_name: Seq<u8>,
    pub skill_description: Seq<u8>,
    pub status: CredentialStatus,
    pub verified: bool,
    pub staked_amount: i128,
}

impl View for Credential {
    type V = CredentialView;

    open spec fn view(&self) -> CredentialView {
        CredentialView {
            id: self.id,
            worker: self.worker@,
            credential_type: self.credential_type@,
            issued_at: self.issued_at,
            issuer: self.issuer@,
            issuer_name: self.issuer_name@,
            skill_description: self.skill_description@,
            status: self.status,
            verified: self.verified,
            staked_amount: self.staked_amount,
        }
    }
}

impl Credential {
    /// A copy of this credential.
    pub fn copy(&self) -> (c: Credential)
        ensures
            c@ == self@,
    {
        Credential {
            id: self.id,
            worker: self.worker.copy(),
            credential_type: copy_text(&self.credential_type),
            issued_at: self.issued_at,
            issuer: self.issuer.copy(),
            issuer_name: copy_text(&self.issuer_name),
            skill_description: copy_text(&self.skill_description),
            status: self.status,
            verified: self.verified,
            staked_amount: self.staked_amount,
        }
    }
}

/// What the registry knows of an employer that has verified credentials.
#[derive(Clone, Debug, PartialEq, Eq)]
pub struct Employer {
    pub address: Address,
    pub name: Vec<u8>,
    pub staked_amount: i128,
    pub credentials_issued: u32,
    pub reputation_score: u32,
    pub banned: bool,
}

/// The mathematical value of an [`Employer`].
pub struct EmployerView {
    pub address: Seq<char>,
    pub name: Seq<u8>,
    pub staked_amount: i128,
    pub credentials_issued: u32,
    pub reputation_score: u32,
    pub banned: bool,
}

impl View for Employer {
    type V = EmployerView;

    open spec fn view(&self) -> EmployerView {
        EmployerView {
            address: self.address@,
            name: self.name@,
            staked_amount: self.staked_amount,
            credentials_issued: self.credentials_issued,
            reputation_score: self.reputation_score,
            banned: self.banned,
        }
    }
}

impl Employer {
    /// A copy of this employer record.
    pub fn copy(&self) -> (e: Employer)
        ensures
            e@ == self@,
    {
        Employer {
            address: self.address.copy(),
            name: copy_text(&self.name),
            staked_amount: self.staked_amount,
            credentials_issued: self.credentials_issued,
            reputation_score: self.reputation_score,
            banned: self.banned,
        }
    }
}

/// A worker's portfolio of verified credentials.
#[derive(Clone, Debug, PartialEq, Eq)]
pub struct WorkerPortfolio {
    pub worker: Address,
    pub credentials: Vec<u64>,
    pub total_verified: u32,
    pub average_employer_rating: u32,
    pub portfolio_views: u32,
    pub earnings_from_views: i128,
}

/// The mathematical value of a [`WorkerPortfolio`].
pub struct PortfolioView {
    pub worker: Seq<char>,
    pub credentials: Seq<u64>,
    pub total_verified: u32,
    pub average_employer_rating: u32,
    pub portfolio_views: u32,
    pub earnings_from_views: i128,
}

impl View for WorkerPortfolio {
    type V = PortfolioView;

    open spec fn view(&self) -> PortfolioView {
        PortfolioView {
            worker: self.worker@,
            credentials: self.credentials@,
            total_verified: self.total_verified,
            average_employer_rating: self.average_employer_rating,
            portfolio_views: self.portfolio_views,
            earnings_from_views: self.earnings_from_views,
        }
    }
}

impl WorkerPortfolio {
    /// A copy of this portfolio.
    pub fn copy(&self) -> (p: WorkerPortfolio)
        ensures
            p@ == self@,
    {
        let mut ids: Vec<u64> = Vec::new();
        let mut i: usize = 0;
        while i < self.credentials.len()
            invariant
                i <= self.credentials@.len(),
                ids@ == self.credentials@.subrange(0, i as int),
            decreases self.credentials@.len() - i,
        {
            ids.push(self.credentials[i]);
            i = i + 1;
        }
        assert(self.credentials@.subrange(0, i as int) =~= self.credentials@);
        WorkerPortfolio {
            worker: self.worker.copy(),
            credentials: ids,
            total_verified: self.total_verified,
            average_employer_rating: self.average_employer_rating,
            portfolio_views: self.portfolio_views,
            earnings_from_views: self.earnings_from_views,
        }
    }
}

/// The stake that a verification locks: `amount` moves from the verifying
/// employer `from` to the registry contract, which holds it.
#[derive(Clone, Debug, PartialEq, Eq)]
pub struct StakeTransfer {
    pub from: Address,
    pub amount: i128,
}

/// The mathematical value of a [`StakeTransfer`].
pub struct StakeTransferView {
    pub from: Seq<char>,
    pub amount: i128,
}

impl View for StakeTransfer {
    type V = StakeTransferView;

    open spec fn view(&self) -> StakeTransferView {
        StakeTransferView { from: self.from@, amount: self.amount }
    }
}

/// Why the registry refused a request. A refused request changes nothing.
#[derive(Clone, Copy, Debug, PartialEq, Eq, Structural)]
pub enum ContractError {
    AlreadyInitialized,
    MinimumStakeNotMet,
    CredentialNotFound,
    CredentialAlreadyVerified,
    RatingOutOfRange,
    EmployerNotFound,
    CredentialNotOwned,
    CredentialNotVerified,
    PortfolioNotFound,
}

impl ContractError {
    /// The message with which the contract aborts on this error.
    pub fn message(&self) -> (m: &'static str)
        ensures
            m@ == self.spec_message(),
    {
        match self {
            ContractError::AlreadyInitialized => "Already initialized",
            ContractError::MinimumStakeNotMet => "Minimum stake is 500 USDC",
            ContractError::CredentialNotFound => "Credential not found",
            ContractError::CredentialAlreadyVerified => "Credential already verified",
            ContractError::RatingOutOfRange => "Rating must be between 0 and 1000",
            ContractError::EmployerNotFound => "Employer not found",
            ContractError::CredentialNotOwned => "Credential does not belong to this worker",
            ContractError::CredentialNotVerified => "Credential is not yet verified",
            ContractError::PortfolioNotFound => "Portfolio not found",
        }
    }

    /// The message of each error, as text.
    pub open spec fn spec_message(&self) -> Seq<char> {
        match self {
            ContractError::AlreadyInitialized => "Already initialized"@,
            ContractError::MinimumStakeNotMet => "Minimum stake is 500 USDC"@,
            ContractError::CredentialNotFound => "Credential not found"@,
            ContractError::CredentialAlreadyVerified => "Credential already verified"@,
            ContractError::RatingOutOfRange => "Rating must be between 0 and 1000"@,
            ContractError::EmployerNotFound => "Employer not found"@,
            ContractError::CredentialNotOwned => "Credential does not belong to this worker"@,
            ContractError::CredentialNotVerified => "Credential is not yet verified"@,
            ContractError::PortfolioNotFound => "Portfolio not found"@,
        }
    }
}

} // verus!
