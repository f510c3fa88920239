//! What holds of the registry across requests: the rules every request
//! keeps, what a read gives back after a write, and what never changes.
use vstd::prelude::*;
use crate::types::{
    StakeTransferView,
    ContractError, CredentialStatus, MAX_RATING, MIN_STAKE,
};
use crate::records::{
    created_credential, credited_employer, stake_lock, employer_or_fresh, next_id, portfolio_or_fresh,
    rated_reputation,
};
use crate::ledger::{
    issued_by, staked_by, lemma_add_keeps_rules, lemma_create_keeps_rules,
    lemma_ensure_portfolio_keeps_rules, lemma_initialize_keeps_rules, lemma_rate_keeps_rules,
    lemma_rated_reputation_between, lemma_verify_keeps_rules, lemma_view_keeps_rules, LedgerView,
};

verus! {

/// A request that changes the registry's storage, with its arguments as
/// mathematical values (addresses by their characters, texts by their bytes).
pub enum Request {
    Initialize,
    CreateCredential {
        worker: Seq<char>,
        credential_type: Seq<u8>,
        skill_description: Seq<u8>,
        issued_at: u64,
    },
    VerifyCredential {
        employer: Seq<char>,
        credential_id: u64,
        issuer_name: Seq<u8>,
        stake: i128,
    },
    RateEmployer { employer: Seq<char>, rating: u32 },
    GetWorkerPortfolio { worker: Seq<char> },
    AddToPortfolio { worker: Seq<char>, credential_id: u64 },
    ViewPortfolio { worker: Seq<char> },
}

/// The error with which the request is refused in the storage, if it is.
pub open spec fn refusal(s: LedgerView, r: Request) -> Option<ContractError> {
    match r {
        Request::Initialize => if s.counter is Some {
            Some(ContractError::AlreadyInitialized)
        } else {
            None
        },
        Request::CreateCredential { .. } => None,
        Request::VerifyCredential { credential_id, stake, .. } => s.verify_refusal(
            credential_id,
            stake,
        ),
        Request::RateEmployer { employer, rating } => s.rate_refusal(employer, rating),
        Request::GetWorkerPortfolio { .. } => None,
        Request::AddToPortfolio { worker, credential_id } => s.add_refusal(worker, credential_id),
        Request::ViewPortfolio { worker } => if s.portfolios.contains_key(worker) {
            None
        } else {
            Some(ContractError::PortfolioNotFound)
        },
    }
}

/// Whether the request's arithmetic stays within the integer widths (the
/// contract aborts where it would not).
pub open spec fn fits(s: LedgerView, r: Request) -> bool {
    match r {
        Request::CreateCredential { .. } => next_id(s.counter) <= u64::MAX,
        Request::VerifyCredential { employer, credential_id, stake, .. } => s.verify_fits(
            employer,
            credential_id,
            stake,
        ),
        Request::RateEmployer { employer, rating } => s.rate_fits(employer, rating),
        Request::AddToPortfolio { worker, credential_id } => s.add_fits(worker, credential_id),
        Request::ViewPortfolio { worker } => s.view_fits(worker),
        _ => true,
    }
}

/// The storage after the request: unchanged where it is refused.
pub open spec fn after(s: LedgerView, r: Request) -> LedgerView {
    if refusal(s, r) is Some {
        s
    } else {
        match r {
            Request::Initialize => s.initialized(),
            Request::CreateCredential { worker, credential_type, skill_description, issued_at } =>
                s.with_credential_created(worker, credential_type, skill_description, issued_at),
            Request::VerifyCredential { employer, credential_id, issuer_name, stake } =>
                s.with_credential_verified(employer, credential_id, issuer_name, stake),
            Request::RateEmployer { employer, rating } => s.with_employer_rated(employer, rating),
            Request::GetWorkerPortfolio { worker } => s.with_portfolio_ensured(worker),
            Request::AddToPortfolio { worker, credential_id } => s.with_credential_added(
                worker,
                credential_id,
            ),
            Request::ViewPortfolio { worker } => s.with_portfolio_viewed(worker),
        }
    }
}

/// Every request keeps the registry's rules: ids run from 1 to the counter,
/// every credential is either pending as created or verified with at least
/// the minimum stake, employer reputations stay within 0..=1000 and each
/// employer's record counts exactly the credentials it verified and holds
/// exactly their stakes (at least the minimum each), and every portfolio
/// lists, once each and counted, only verified credentials of its own worker.
pub proof fn law_every_request_keeps_rules(s: LedgerView, r: Request)
    requires
        s.keeps_rules(),
        fits(s, r),
    ensures
        after(s, r).keeps_rules(),
{
    if refusal(s, r) is None {
        match r {
            Request::Initialize => lemma_initialize_keeps_rules(s),
            Request::CreateCredential { worker, credential_type, skill_description, issued_at } =>
                lemma_create_keeps_rules(s, worker, credential_type, skill_description, issued_at),
            Request::VerifyCredential { employer, credential_id, issuer_name, stake } =>
                lemma_verify_keeps_rules(s, employer, credential_id, issuer_name, stake),
            Request::RateEmployer { employer, rating } => lemma_rate_keeps_rules(s, employer, rating),
            Request::GetWorkerPortfolio { worker } => lemma_ensure_portfolio_keeps_rules(s, worker),
            Request::AddToPortfolio { worker, credential_id } => lemma_add_keeps_rules(
                s,
                worker,
                credential_id,
            ),
            Request::ViewPortfolio { worker } => lemma_view_keeps_rules(s, worker),
        }
    }
}

/// A verified credential is final: no request changes it.
pub proof fn law_verified_credential_is_final(s: LedgerView, r: Request, id: u64)
    requires
        s.keeps_rules(),
        s.credentials.contains_key(id),
        s.credentials[id].verified,
        fits(s, r),
    ensures
        after(s, r).credentials.contains_key(id),
        after(s, r).credentials[id] == s.credentials[id],
{
    match r {
        Request::CreateCredential { .. } => {
            assert(id != next_id(s.counter) as u64);
        },
        _ => {},
    }
}

/// No request removes a credential, lowers the counter, or changes who a
/// credential belongs to, what it certifies, or when it was issued.
pub proof fn law_credentials_persist(s: LedgerView, r: Request, id: u64)
    requires
        s.keeps_rules(),
        s.credentials.contains_key(id),
        fits(s, r),
    ensures
        after(s, r).count() >= s.count(),
        after(s, r).credentials.contains_key(id),
        after(s, r).credentials[id].id == s.credentials[id].id,
        after(s, r).credentials[id].worker == s.credentials[id].worker,
        after(s, r).credentials[id].credential_type == s.credentials[id].credential_type,
        after(s, r).credentials[id].skill_description == s.credentials[id].skill_description,
        after(s, r).credentials[id].issued_at == s.credentials[id].issued_at,
{
    match r {
        Request::CreateCredential { .. } => {
            assert(id != next_id(s.counter) as u64);
        },
        _ => {},
    }
}

/// A refused request changes nothing.
pub proof fn law_refused_request_changes_nothing(s: LedgerView, r: Request)
    requires
        refusal(s, r) is Some,
    ensures
        after(s, r) == s,
{
}

/// Creating a credential gives it the next id, one past the previous count,
/// and reading that id gives back the credential, pending and unverified.
pub proof fn law_created_credential_reads_back(
    s: LedgerView,
    worker: Seq<char>,
    credential_type: Seq<u8>,
    skill_description: Seq<u8>,
    issued_at: u64,
)
    requires
        s.keeps_rules(),
        next_id(s.counter) <= u64::MAX,
    ensures
        ({
            let t = s.with_credential_created(worker, credential_type, skill_description, issued_at);
            let id = (s.count() + 1) as u64;
            &&& t.count() == id
            &&& t.credential(id) == Some(
                created_credential(id, worker, credential_type, skill_description, issued_at),
            )
            &&& t.credentials[id].worker == worker
            &&& t.credentials[id].status == CredentialStatus::Pending
            &&& !t.credentials[id].verified
            &&& forall|k: u64| k != id ==> #[trigger] t.credential(k) == s.credential(k)
        }),
{
}

/// Verifying a credential makes it read back verified, issued by the
/// employer with the stake, and a second verification is refused.
pub proof fn law_verified_credential_reads_back(
    s: LedgerView,
    employer: Seq<char>,
    credential_id: u64,
    issuer_name: Seq<u8>,
    stake: i128,
    second_employer: Seq<char>,
    second_stake: i128,
)
    requires
        s.verify_refusal(credential_id, stake) is None,
        second_stake >= MIN_STAKE,
    ensures
        ({
            let t = s.with_credential_verified(employer, credential_id, issuer_name, stake);
            &&& t.credentials[credential_id].verified
            &&& t.credentials[credential_id].status == CredentialStatus::Verified
            &&& t.credentials[credential_id].issuer == employer
            &&& t.credentials[credential_id].issuer_name == issuer_name
            &&& t.credentials[credential_id].staked_amount == stake
            &&& t.credentials[credential_id].worker == s.credentials[credential_id].worker
            &&& t.employer(employer) == Some(
                credited_employer(employer_or_fresh(s.employer(employer), employer), stake),
            )
            &&& t.verify_refusal(credential_id, second_stake) == Some(
                ContractError::CredentialAlreadyVerified,
            )
        }),
{
}

/// An employer's first verification starts its record at a reputation of
/// 750 with the stake and one credential issued.
pub proof fn law_first_verification_opens_employer_record(
    s: LedgerView,
    employer: Seq<char>,
    credential_id: u64,
    issuer_name: Seq<u8>,
    stake: i128,
)
    requires
        s.verify_refusal(credential_id, stake) is None,
        !s.employers.contains_key(employer),
        stake <= i128::MAX,
    ensures
        ({
            let e = s.with_credential_verified(employer, credential_id, issuer_name, stake).employers[employer];
            &&& e.address == employer
            &&& e.staked_amount == stake
            &&& e.credentials_issued == 1
            &&& e.reputation_score == 750
            &&& !e.banned
        }),
{
}

/// A rating moves the employer's reputation to somewhere between its old
/// value and the rating, and so keeps it within 0..=1000.
pub proof fn law_rating_moves_reputation_toward_rating(s: LedgerView, employer: Seq<char>, rating: u32)
    requires
        s.keeps_rules(),
        s.rate_refusal(employer, rating) is None,
    ensures
        ({
            let old_score = s.employers[employer].reputation_score;
            let new_score = s.with_employer_rated(employer, rating).employers[employer].reputation_score;
            &&& old_score <= rating ==> old_score <= new_score <= rating
            &&& rating <= old_score ==> rating <= new_score <= old_score
            &&& new_score <= MAX_RATING
        }),
{
    let e = s.employers[employer];
    lemma_rated_reputation_between(e.reputation_score, e.credentials_issued, rating);
    assert(s.employers_consistent());
}

/// Adding a credential a second time changes nothing more.
pub proof fn law_adding_twice_is_adding_once(s: LedgerView, worker: Seq<char>, credential_id: u64)
    requires
        s.add_refusal(worker, credential_id) is None,
    ensures
        ({
            let t = s.with_credential_added(worker, credential_id);
            &&& t.add_refusal(worker, credential_id) is None
            &&& t.with_credential_added(worker, credential_id) == t
            &&& t.portfolios[worker].credentials.contains(credential_id)
        }),
{
    let t = s.with_credential_added(worker, credential_id);
    let p = portfolio_or_fresh(s.portfolio(worker), worker);
    if !p.credentials.contains(credential_id) {
        assert(p.credentials.push(credential_id)[p.credentials.len() as int] == credential_id);
    }
    assert(t.portfolios[worker].credentials.contains(credential_id));
    assert(t.with_credential_added(worker, credential_id).portfolios =~= t.portfolios);
}

/// Reading a worker's portfolio a second time changes nothing more, and
/// both reads give the same portfolio.
pub proof fn law_portfolio_read_is_stable(s: LedgerView, worker: Seq<char>)
    ensures
        ({
            let t = s.with_portfolio_ensured(worker);
            &&& t.with_portfolio_ensured(worker) == t
            &&& portfolio_or_fresh(t.portfolio(worker), worker) == portfolio_or_fresh(
                s.portfolio(worker),
                worker,
            )
        }),
{
    let t = s.with_portfolio_ensured(worker);
    assert(t.with_portfolio_ensured(worker).portfolios =~= t.portfolios);
}

/// Viewing a portfolio counts exactly one view and one reward, and leaves
/// its credentials as they were.
pub proof fn law_view_counts_once(s: LedgerView, worker: Seq<char>)
    requires
        s.portfolios.contains_key(worker),
        s.view_fits(worker),
    ensures
        ({
            let p = s.portfolios[worker];
            let q = s.with_portfolio_viewed(worker).portfolios[worker];
            &&& q.portfolio_views == p.portfolio_views + 1
            &&& q.earnings_from_views == p.earnings_from_views + 400_000
            &&& q.credentials == p.credentials
            &&& q.total_verified == p.total_verified
        }),
{
}

/// An employer's record counts exactly the credentials it has verified and
/// holds exactly the sum of their stakes; an address with no record has
/// verified no credential.
pub proof fn law_employer_record_accounts_for_its_verifications(s: LedgerView, a: Seq<char>)
    requires
        s.keeps_rules(),
    ensures
        s.employers.contains_key(a) ==> s.employers[a].credentials_issued == issued_by(
            s.credentials,
            a,
            s.count() as nat,
        ) && s.employers[a].staked_amount == staked_by(s.credentials, a, s.count() as nat),
        !s.employers.contains_key(a) ==> issued_by(s.credentials, a, s.count() as nat) == 0,
{
    assert(s.accounted_at(a));
}

/// A portfolio lists only credentials that exist, belong to its worker and
/// are verified, each once, and its count of verified credentials is their
/// number.
pub proof fn law_portfolio_lists_own_verified_credentials(s: LedgerView, worker: Seq<char>, k: int)
    requires
        s.keeps_rules(),
        s.portfolios.contains_key(worker),
        0 <= k < s.portfolios[worker].credentials.len(),
    ensures
        s.credentials.contains_key(s.portfolios[worker].credentials[k]),
        s.credentials[s.portfolios[worker].credentials[k]].worker == worker,
        s.credentials[s.portfolios[worker].credentials[k]].verified,
        s.portfolios[worker].credentials.no_duplicates(),
        s.portfolios[worker].total_verified == s.portfolios[worker].credentials.len(),
{
    assert(s.portfolio_consistent(worker, s.portfolios[worker]));
}

// ----- across sequences of requests -----

/// The storage after the requests, one after another.
pub open spec fn after_all(s: LedgerView, rs: Seq<Request>) -> LedgerView
    decreases rs.len(),
{
    if rs.len() == 0 {
        s
    } else {
        after_all(after(s, rs[0]), rs.drop_first())
    }
}

/// Whether each request of the sequence stays within the integer widths in
/// the storage that the requests before it leave.
pub open spec fn all_fit(s: LedgerView, rs: Seq<Request>) -> bool
    decreases rs.len(),
{
    rs.len() == 0 || (fits(s, rs[0]) && all_fit(after(s, rs[0]), rs.drop_first()))
}

/// Whether the request is a verification of credential `id` that is not refused.
pub open spec fn verifies(s: LedgerView, r: Request, id: u64) -> bool {
    &&& r matches Request::VerifyCredential { credential_id, .. } && credential_id == id
    &&& refusal(s, r) is None
}

/// Whether no request of the sequence verifies credential `id`.
pub open spec fn leaves_unverified(s: LedgerView, rs: Seq<Request>, id: u64) -> bool
    decreases rs.len(),
{
    rs.len() == 0 || (!verifies(s, rs[0], id) && leaves_unverified(
        after(s, rs[0]),
        rs.drop_first(),
        id,
    ))
}

/// Whether the sequence creates no credential.
pub open spec fn creates_none(rs: Seq<Request>) -> bool {
    forall|i: int| 0 <= i < rs.len() ==> !(#[trigger] rs[i] is CreateCredential)
}

/// `n` views of the worker's portfolio in a row.
pub open spec fn repeated_views(worker: Seq<char>, n: nat) -> Seq<Request> {
    Seq::new(n, |i: int| Request::ViewPortfolio { worker })
}

/// Every sequence of requests keeps the registry's rules.
pub proof fn law_every_sequence_keeps_rules(s: LedgerView, rs: Seq<Request>)
    requires
        s.keeps_rules(),
        all_fit(s, rs),
    ensures
        after_all(s, rs).keeps_rules(),
    decreases rs.len(),
{
    if rs.len() > 0 {
        law_every_request_keeps_rules(s, rs[0]);
        law_every_sequence_keeps_rules(after(s, rs[0]), rs.drop_first());
    }
}

/// Once the counter is written, only creating a credential moves it.
pub proof fn law_counter_moves_only_by_creation(s: LedgerView, rs: Seq<Request>)
    requires
        s.counter is Some,
        creates_none(rs),
    ensures
        after_all(s, rs).counter == s.counter,
    decreases rs.len(),
{
    if rs.len() > 0 {
        let t = after(s, rs[0]);
        assert(!(rs[0] is CreateCredential));
        assert(t.counter == s.counter);
        assert forall|i: int| 0 <= i < rs.drop_first().len() implies !(
        #[trigger] rs.drop_first()[i] is CreateCredential) by {
            assert(rs.drop_first()[i] == rs[i + 1]);
        }
        law_counter_moves_only_by_creation(t, rs.drop_first());
    }
}

/// Credential ids are consecutive: whatever requests other than creations
/// come between two creations, by whatever workers, the second gets the id
/// right after the first, and ids are never reused.
pub proof fn law_ids_are_consecutive(
    s: LedgerView,
    first: Request,
    rs: Seq<Request>,
    second: Request,
)
    requires
        first is CreateCredential,
        second is CreateCredential,
        fits(s, first),
        creates_none(rs),
        fits(after_all(after(s, first), rs), second),
    ensures
        ({
            let s1 = after(s, first);
            let s2 = after_all(s1, rs);
            let id1 = next_id(s.counter);
            let id2 = next_id(s2.counter);
            &&& s1.count() == id1
            &&& id2 == id1 + 1
            &&& after(s2, second).count() == id2
        }),
{
    let s1 = after(s, first);
    law_counter_moves_only_by_creation(s1, rs);
}

/// A credential changes only when a request verifies it.
pub proof fn law_credential_changes_only_by_its_verification(s: LedgerView, r: Request, id: u64)
    requires
        s.ids_dense(),
        creation_fits(s, r),
        s.credentials.contains_key(id),
        !verifies(s, r, id),
    ensures
        after(s, r).credentials.contains_key(id),
        after(s, r).credentials[id] == s.credentials[id],
{
    match r {
        Request::CreateCredential { .. } => {
            assert(id != next_id(s.counter) as u64);
        },
        _ => {},
    }
}

/// A request that creates a credential has an id left to give; other
/// requests need nothing here.
pub open spec fn creation_fits(s: LedgerView, r: Request) -> bool {
    r is CreateCredential ==> next_id(s.counter) <= u64::MAX
}

/// Whether every creation of the sequence has an id left to give.
pub open spec fn creations_fit(s: LedgerView, rs: Seq<Request>) -> bool
    decreases rs.len(),
{
    rs.len() == 0 || (creation_fits(s, rs[0]) && creations_fit(after(s, rs[0]), rs.drop_first()))
}

/// Every request keeps the ids running from 1 to the counter, each
/// credential carrying its own id, whatever its other arithmetic.
pub proof fn law_ids_stay_dense(s: LedgerView, r: Request)
    requires
        s.ids_dense(),
        creation_fits(s, r),
    ensures
        after(s, r).ids_dense(),
{
}

/// A credential reads back unchanged through any requests that do not
/// verify it; of the requests, only creations need an id left to give.
pub proof fn law_credential_unchanged_until_verified(s: LedgerView, rs: Seq<Request>, id: u64)
    requires
        s.ids_dense(),
        creations_fit(s, rs),
        s.credentials.contains_key(id),
        leaves_unverified(s, rs, id),
    ensures
        after_all(s, rs).credential(id) == s.credential(id),
    decreases rs.len(),
{
    if rs.len() > 0 {
        law_credential_changes_only_by_its_verification(s, rs[0], id);
        law_ids_stay_dense(s, rs[0]);
        law_credential_unchanged_until_verified(after(s, rs[0]), rs.drop_first(), id);
    }
}

/// A created credential reads back exactly as created, pending, self-issued,
/// "Unverified" and without stake, until a request verifies it.
pub proof fn law_pending_credential_reads_back_until_verified(
    s: LedgerView,
    worker: Seq<char>,
    credential_type: Seq<u8>,
    skill_description: Seq<u8>,
    issued_at: u64,
    rs: Seq<Request>,
)
    requires
        s.ids_dense(),
        next_id(s.counter) <= u64::MAX,
        creations_fit(
            s.with_credential_created(worker, credential_type, skill_description, issued_at),
            rs,
        ),
        leaves_unverified(
            s.with_credential_created(worker, credential_type, skill_description, issued_at),
            rs,
            next_id(s.counter) as u64,
        ),
    ensures
        ({
            let id = next_id(s.counter) as u64;
            let s1 = s.with_credential_created(worker, credential_type, skill_description, issued_at);
            after_all(s1, rs).credential(id) == Some(
                created_credential(id, worker, credential_type, skill_description, issued_at),
            )
        }),
{
    let id = next_id(s.counter) as u64;
    let s1 = s.with_credential_created(worker, credential_type, skill_description, issued_at);
    law_ids_stay_dense(
        s,
        Request::CreateCredential { worker, credential_type, skill_description, issued_at },
    );
    law_credential_unchanged_until_verified(s1, rs, id);
}

/// A verified credential reads back unchanged through any requests.
pub proof fn law_verified_credential_stays_final(s: LedgerView, rs: Seq<Request>, id: u64)
    requires
        s.keeps_rules(),
        all_fit(s, rs),
        s.credentials.contains_key(id),
        s.credentials[id].verified,
    ensures
        after_all(s, rs).credential(id) == s.credential(id),
    decreases rs.len(),
{
    if rs.len() > 0 {
        law_verified_credential_is_final(s, rs[0], id);
        law_every_request_keeps_rules(s, rs[0]);
        law_verified_credential_stays_final(after(s, rs[0]), rs.drop_first(), id);
    }
}

/// `n` views of a portfolio in a row count `n` views and `n` rewards, and
/// leave its credentials as they were; each of them stays within the
/// integer widths where the totals do.
pub proof fn law_views_accumulate(s: LedgerView, worker: Seq<char>, n: nat)
    requires
        s.portfolios.contains_key(worker),
        s.portfolios[worker].portfolio_views + n <= u32::MAX,
        s.portfolios[worker].earnings_from_views + 400_000 * n <= i128::MAX,
    ensures
        all_fit(s, repeated_views(worker, n)),
        ({
            let p = s.portfolios[worker];
            let t = after_all(s, repeated_views(worker, n));
            &&& t.portfolios.contains_key(worker)
            &&& t.portfolios[worker].portfolio_views == p.portfolio_views + n
            &&& t.portfolios[worker].earnings_from_views == p.earnings_from_views + 400_000 * n
            &&& t.portfolios[worker].credentials == p.credentials
            &&& t.portfolios[worker].total_verified == p.total_verified
            &&& t.credentials == s.credentials
            &&& t.counter == s.counter
        }),
    decreases n,
{
    let rs = repeated_views(worker, n);
    if n > 0 {
        assert(rs[0] == Request::ViewPortfolio { worker });
        assert(rs.drop_first() =~= repeated_views(worker, (n - 1) as nat));
        let t = after(s, rs[0]);
        assert(t == s.with_portfolio_viewed(worker));
        law_views_accumulate(t, worker, (n - 1) as nat);
    }
}

/// A higher rating never gives a lower reputation.
pub proof fn law_higher_rating_never_lowers_reputation(
    s: LedgerView,
    employer: Seq<char>,
    low: u32,
    high: u32,
)
    requires
        s.rate_refusal(employer, high) is None,
        low <= high,
    ensures
        s.rate_refusal(employer, low) is None,
        s.with_employer_rated(employer, low).employers[employer].reputation_score
            <= s.with_employer_rated(employer, high).employers[employer].reputation_score,
{
    let e = s.employers[employer];
    let score = e.reputation_score;
    let n = e.credentials_issued;
    lemma_rated_reputation_between(score, n, low);
    lemma_rated_reputation_between(score, n, high);
    let a: int = score * n + low;
    let b: int = score * n + high;
    let d: int = n + 1;
    assert(a / d <= b / d) by (nonlinear_arith)
        requires
            a <= b,
            d > 0,
    ;
    assert(rated_reputation(score, n, low) == a / d);
    assert(rated_reputation(score, n, high) == b / d);
}

// ----- locking the stake -----

/// The balances of the stake token after the transfer is carried out to
/// `holder`: the amount leaves the sender and reaches the holder.
pub open spec fn settled(
    balances: Map<Seq<char>, int>,
    t: StakeTransferView,
    holder: Seq<char>,
) -> Map<Seq<char>, int> {
    balances.insert(t.from, balances[t.from] - t.amount).insert(holder, balances[holder] + t.amount)
}

/// A verification locks exactly the stake: it asks for the whole stake to
/// move from the verifying employer to the registry, so that, carried out,
/// the employer's balance falls by the stake, the registry's rises by it and
/// no other balance changes; and it records that same amount on the
/// credential and adds it to the employer's record.
pub proof fn law_verification_locks_the_stake(
    s: LedgerView,
    employer: Seq<char>,
    credential_id: u64,
    issuer_name: Seq<u8>,
    stake: i128,
    balances: Map<Seq<char>, int>,
    registry: Seq<char>,
)
    requires
        s.verify_refusal(credential_id, stake) is None,
        s.verify_fits(employer, credential_id, stake),
        employer != registry,
    ensures
        ({
            let t = stake_lock(employer, stake);
            let after_transfer = settled(balances, t, registry);
            let s2 = s.with_credential_verified(employer, credential_id, issuer_name, stake);
            &&& t.from == employer
            &&& t.amount == stake
            &&& after_transfer[employer] == balances[employer] - stake
            &&& after_transfer[registry] == balances[registry] + stake
            &&& forall|a: Seq<char>|
                a != employer && a != registry ==> #[trigger] after_transfer.get(a) == balances.get(a)
            &&& s2.credentials[credential_id].staked_amount == stake
            &&& s2.employers[employer].staked_amount == employer_or_fresh(
                s.employer(employer),
                employer,
            ).staked_amount + stake
        }),
{
}

// ----- rules that hold whatever the arithmetic -----

/// Every employer's reputation lies within 0..=1000.
pub open spec fn reputations_in_range(s: LedgerView) -> bool {
    forall|a: Seq<char>| #[trigger]
        s.employers.contains_key(a) ==> s.employers[a].reputation_score <= MAX_RATING
}

/// Every request keeps every credential either pending as created or
/// verified with at least the minimum stake, with no bound on the request.
pub proof fn law_credentials_stay_consistent(s: LedgerView, r: Request)
    requires
        s.credentials_consistent(),
    ensures
        after(s, r).credentials_consistent(),
{
}

/// Every request keeps every employer's reputation within 0..=1000, with no
/// bound on the request.
pub proof fn law_reputations_stay_in_range(s: LedgerView, r: Request)
    requires
        reputations_in_range(s),
    ensures
        reputations_in_range(after(s, r)),
{
    let t = after(s, r);
    match r {
        Request::RateEmployer { employer, rating } => {
            if refusal(s, r) is None {
                let e = s.employers[employer];
                lemma_rated_reputation_between(e.reputation_score, e.credentials_issued, rating);
                assert(s.employers.contains_key(employer));
                assert forall|a: Seq<char>| #[trigger] t.employers.contains_key(a) implies t.employers[
                    a
                ].reputation_score <= MAX_RATING by {
                    if a != employer {
                        assert(s.employers.contains_key(a));
                    }
                }
            }
        },
        Request::VerifyCredential { employer, .. } => {
            assert forall|a: Seq<char>| #[trigger] t.employers.contains_key(a) implies t.employers[
                a
            ].reputation_score <= MAX_RATING by {
                if refusal(s, r) is None && a == employer && s.employers.contains_key(a) {
                    assert(s.employers[a].reputation_score <= MAX_RATING);
                } else if a != employer || refusal(s, r) is Some {
                    assert(s.employers.contains_key(a));
                }
            }
        },
        _ => {
            assert forall|a: Seq<char>| #[trigger] t.employers.contains_key(a) implies t.employers[
                a
            ].reputation_score <= MAX_RATING by {
                assert(s.employers.contains_key(a));
            }
        },
    }
}

/// Any sequence of requests keeps the credentials consistent and the
/// reputations within 0..=1000, with no bound on the requests.
pub proof fn law_sequences_keep_credentials_and_reputations(s: LedgerView, rs: Seq<Request>)
    requires
        s.credentials_consistent(),
        reputations_in_range(s),
    ensures
        after_all(s, rs).credentials_consistent(),
        reputations_in_range(after_all(s, rs)),
    decreases rs.len(),
{
    if rs.len() > 0 {
        law_credentials_stay_consistent(s, rs[0]);
        law_reputations_stay_in_range(s, rs[0]);
        law_sequences_keep_credentials_and_reputations(after(s, rs[0]), rs.drop_first());
    }
}

} // verus!
