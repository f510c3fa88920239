//! What each request does to the storage, spelled out field by field in
//! terms of the request's arguments and the storage before it: when it is
//! refused, what each record it writes holds, and that nothing else changes.
use vstd::prelude::*;
use crate::types::{
    unknown_label, unverified_label, ContractError, CredentialStatus, INITIAL_AVERAGE_RATING,
    INITIAL_REPUTATION, MAX_RATING, MIN_STAKE, VIEW_REWARD,
};
use crate::ledger::{lemma_rated_reputation_between, LedgerView};
use crate::laws::{after, fits, refusal, Request};

verus! {

/// The bytes of a text written in ASCII.
pub open spec fn ascii_bytes(text: Seq<char>) -> Seq<u8> {
    text.map_values(|c: char| c as u8)
}

/// The two fixed texts of the registry are the bytes of "Unverified" and "Unknown".
pub proof fn law_labels_spell_their_words()
    ensures
        unverified_label() == ascii_bytes("Unverified"@),
        unknown_label() == ascii_bytes("Unknown"@),
{
    reveal_strlit("Unverified");
    reveal_strlit("Unknown");
    assert(unverified_label() =~= ascii_bytes("Unverified"@));
    assert(unknown_label() =~= ascii_bytes("Unknown"@));
}

/// The registry's numbers: the minimum stake is 500 USDC in units of 10^-7,
/// new employers and portfolios start at 750, ratings go up to 1000, and a
/// view earns 400 000 units.
pub proof fn law_registry_numbers()
    ensures
        MIN_STAKE == 500 * 10_000_000,
        INITIAL_REPUTATION == 750,
        INITIAL_AVERAGE_RATING == 750,
        MAX_RATING == 1000,
        VIEW_REWARD == 400_000,
{
}

/// Initializing is refused exactly when the counter exists; otherwise it
/// writes a zero counter and changes nothing else.
pub proof fn law_initialize_spelled_out(s: LedgerView)
    ensures
        s.counter is Some ==> refusal(s, Request::Initialize) == Some(
            ContractError::AlreadyInitialized,
        ),
        s.counter is None ==> refusal(s, Request::Initialize) is None,
        s.counter is None ==> after(s, Request::Initialize).counter == Some(0u64),
        after(s, Request::Initialize).credentials == s.credentials,
        after(s, Request::Initialize).employers == s.employers,
        after(s, Request::Initialize).portfolios == s.portfolios,
{
}

/// Creating a credential is never refused. It advances the counter by one
/// and stores under the new id a credential that holds exactly the worker,
/// type, description (all their bytes) and time it was given, issued by the
/// worker itself, named "Unverified", pending, unverified and without stake;
/// nothing else changes.
pub proof fn law_create_spelled_out(
    s: LedgerView,
    worker: Seq<char>,
    credential_type: Seq<u8>,
    skill_description: Seq<u8>,
    issued_at: u64,
)
    requires
        s.ids_dense(),
        s.count() < u64::MAX,
    ensures
        ({
            let r = Request::CreateCredential {
                worker,
                credential_type,
                skill_description,
                issued_at,
            };
            let t = after(s, r);
            let id = (s.count() + 1) as u64;
            &&& refusal(s, r) is None
            &&& fits(s, r)
            &&& t.count() == s.count() + 1
            &&& !s.credentials.contains_key(id)
            &&& t.credentials.contains_key(id)
            &&& t.credentials[id].id == id
            &&& t.credentials[id].worker == worker
            &&& t.credentials[id].credential_type == credential_type
            &&& t.credentials[id].skill_description == skill_description
            &&& t.credentials[id].issued_at == issued_at
            &&& t.credentials[id].issuer == worker
            &&& t.credentials[id].issuer_name == ascii_bytes("Unverified"@)
            &&& t.credentials[id].status == CredentialStatus::Pending
            &&& !t.credentials[id].verified
            &&& t.credentials[id].staked_amount == 0
            &&& forall|k: u64| k != id ==> #[trigger] t.credentials.get(k) == s.credentials.get(k)
            &&& t.employers == s.employers
            &&& t.portfolios == s.portfolios
        }),
{
    law_labels_spell_their_words();
}

/// A verification is accepted exactly when the stake is at least the
/// minimum and the credential exists and is not yet verified; a smaller
/// stake is refused first, then a missing credential, then a verified one.
pub proof fn law_verify_refusal_spelled_out(
    s: LedgerView,
    employer: Seq<char>,
    credential_id: u64,
    issuer_name: Seq<u8>,
    stake: i128,
)
    ensures
        ({
            let r = Request::VerifyCredential { employer, credential_id, issuer_name, stake };
            &&& refusal(s, r) is None <==> (stake >= MIN_STAKE && s.credentials.contains_key(
                credential_id,
            ) && !s.credentials[credential_id].verified)
            &&& stake < MIN_STAKE ==> refusal(s, r) == Some(ContractError::MinimumStakeNotMet)
            &&& stake >= MIN_STAKE && !s.credentials.contains_key(credential_id) ==> refusal(s, r)
                == Some(ContractError::CredentialNotFound)
            &&& stake >= MIN_STAKE && s.credentials.contains_key(credential_id)
                && s.credentials[credential_id].verified ==> refusal(s, r) == Some(
                ContractError::CredentialAlreadyVerified,
            )
        }),
{
}

/// An accepted verification keeps what the credential certifies and whose
/// it is, and makes the employer its issuer under the given name, verified,
/// with the stake on it. An employer that has a record keeps its address,
/// name, reputation and standing, and gains the stake and one more credential
/// issued; one that has none gets a record named "Unknown" with reputation
/// 750, the stake and one credential. Nothing else changes.
pub proof fn law_verify_spelled_out(
    s: LedgerView,
    employer: Seq<char>,
    credential_id: u64,
    issuer_name: Seq<u8>,
    stake: i128,
)
    requires
        stake >= MIN_STAKE,
        s.credentials.contains_key(credential_id),
        !s.credentials[credential_id].verified,
        fits(s, Request::VerifyCredential { employer, credential_id, issuer_name, stake }),
    ensures
        ({
            let r = Request::VerifyCredential { employer, credential_id, issuer_name, stake };
            let t = after(s, r);
            let c = s.credentials[credential_id];
            let v = t.credentials[credential_id];
            &&& refusal(s, r) is None
            &&& t.credentials.contains_key(credential_id)
            &&& v.id == c.id
            &&& v.worker == c.worker
            &&& v.credential_type == c.credential_type
            &&& v.skill_description == c.skill_description
            &&& v.issued_at == c.issued_at
            &&& v.issuer == employer
            &&& v.issuer_name == issuer_name
            &&& v.status == CredentialStatus::Verified
            &&& v.verified
            &&& v.staked_amount == stake
            &&& forall|k: u64| k != credential_id ==> #[trigger] t.credentials.get(k)
                == s.credentials.get(k)
            &&& t.employers.contains_key(employer)
            &&& s.employers.contains_key(employer) ==> {
                let e = s.employers[employer];
                let f = t.employers[employer];
                &&& f.address == e.address
                &&& f.name == e.name
                &&& f.reputation_score == e.reputation_score
                &&& f.banned == e.banned
                &&& f.staked_amount == e.staked_amount + stake
                &&& f.credentials_issued == e.credentials_issued + 1
            }
            &&& !s.employers.contains_key(employer) ==> {
                let f = t.employers[employer];
                &&& f.address == employer
                &&& f.name == ascii_bytes("Unknown"@)
                &&& f.reputation_score == 750
                &&& !f.banned
                &&& f.staked_amount == stake
                &&& f.credentials_issued == 1
            }
            &&& forall|a: Seq<char>| a != employer ==> #[trigger] t.employers.get(a)
                == s.employers.get(a)
            &&& t.counter == s.counter
            &&& t.portfolios == s.portfolios
        }),
{
    law_labels_spell_their_words();
}

/// A rating is refused when it is above 1000, and otherwise when the
/// employer has no record. An accepted rating sets the reputation to the
/// rounded-down average in which the old reputation counts once per
/// credential the employer has issued and the rating counts once: the new
/// score `q` is the whole number with `q * (n + 1) <= old * n + rating <
/// (q + 1) * (n + 1)`. The rest of the record and everything else stay.
pub proof fn law_rate_spelled_out(s: LedgerView, employer: Seq<char>, rating: u32)
    ensures
        ({
            let r = Request::RateEmployer { employer, rating };
            &&& rating > MAX_RATING ==> refusal(s, r) == Some(ContractError::RatingOutOfRange)
            &&& rating <= MAX_RATING && !s.employers.contains_key(employer) ==> refusal(s, r)
                == Some(ContractError::EmployerNotFound)
            &&& refusal(s, r) is None <==> (rating <= MAX_RATING && s.employers.contains_key(
                employer,
            ))
        }),
        rating <= MAX_RATING && s.employers.contains_key(employer) ==> ({
            let r = Request::RateEmployer { employer, rating };
            let t = after(s, r);
            let e = s.employers[employer];
            let f = t.employers[employer];
            let n = e.credentials_issued as int;
            let q = f.reputation_score as int;
            &&& t.employers.contains_key(employer)
            &&& q * (n + 1) <= e.reputation_score * n + rating
            &&& e.reputation_score * n + rating < (q + 1) * (n + 1)
            &&& f.address == e.address
            &&& f.name == e.name
            &&& f.staked_amount == e.staked_amount
            &&& f.credentials_issued == e.credentials_issued
            &&& f.banned == e.banned
            &&& forall|a: Seq<char>| a != employer ==> #[trigger] t.employers.get(a)
                == s.employers.get(a)
            &&& t.credentials == s.credentials
            &&& t.portfolios == s.portfolios
            &&& t.counter == s.counter
        }),
{
    if rating <= MAX_RATING && s.employers.contains_key(employer) {
        let e = s.employers[employer];
        let n = e.credentials_issued as int;
        let total: int = e.reputation_score * n + rating;
        lemma_rated_reputation_between(e.reputation_score, e.credentials_issued, rating);
        let q: int = total / (n + 1);
        assert(q * (n + 1) <= total && total < (q + 1) * (n + 1)) by (nonlinear_arith)
            requires
                q == total / (n + 1),
                n >= 0,
        ;
    }
}

/// Reading a worker's portfolio never is refused. Where the worker has a
/// portfolio nothing changes; otherwise it stores an empty one for the
/// worker, with average rating 750 and no views or earnings.
pub proof fn law_get_portfolio_spelled_out(s: LedgerView, worker: Seq<char>)
    ensures
        ({
            let r = Request::GetWorkerPortfolio { worker };
            let t = after(s, r);
            &&& refusal(s, r) is None
            &&& s.portfolios.contains_key(worker) ==> t == s
            &&& !s.portfolios.contains_key(worker) ==> {
                let p = t.portfolios[worker];
                &&& t.portfolios.contains_key(worker)
                &&& p.worker == worker
                &&& p.credentials.len() == 0
                &&& p.total_verified == 0
                &&& p.average_employer_rating == 750
                &&& p.portfolio_views == 0
                &&& p.earnings_from_views == 0
            }
            &&& forall|w: Seq<char>| w != worker ==> #[trigger] t.portfolios.get(w)
                == s.portfolios.get(w)
            &&& t.credentials == s.credentials
            &&& t.employers == s.employers
            &&& t.counter == s.counter
        }),
{
    let t = after(s, Request::GetWorkerPortfolio { worker });
    if s.portfolios.contains_key(worker) {
        assert(t.portfolios =~= s.portfolios);
    }
}

/// Adding to a portfolio is refused when the credential does not exist,
/// then when it belongs to another worker, then when it is not verified.
/// Accepted, a credential already listed changes nothing; a new one is
/// appended after every credential already listed and counted once more,
/// the rest of the portfolio staying; a worker without a portfolio gets one
/// that lists just that credential. Nothing else changes.
pub proof fn law_add_spelled_out(s: LedgerView, worker: Seq<char>, credential_id: u64)
    ensures
        ({
            let r = Request::AddToPortfolio { worker, credential_id };
            &&& !s.credentials.contains_key(credential_id) ==> refusal(s, r) == Some(
                ContractError::CredentialNotFound,
            )
            &&& s.credentials.contains_key(credential_id) && s.credentials[credential_id].worker
                != worker ==> refusal(s, r) == Some(ContractError::CredentialNotOwned)
            &&& s.credentials.contains_key(credential_id) && s.credentials[credential_id].worker
                == worker && !s.credentials[credential_id].verified ==> refusal(s, r) == Some(
                ContractError::CredentialNotVerified,
            )
            &&& refusal(s, r) is None <==> (s.credentials.contains_key(credential_id)
                && s.credentials[credential_id].worker == worker
                && s.credentials[credential_id].verified)
        }),
        refusal(s, Request::AddToPortfolio { worker, credential_id }) is None ==> ({
            let t = after(s, Request::AddToPortfolio { worker, credential_id });
            let f = t.portfolios[worker];
            &&& t.portfolios.contains_key(worker)
            &&& s.portfolios.contains_key(worker) && s.portfolios[worker].credentials.contains(
                credential_id,
            ) ==> f == s.portfolios[worker]
            &&& s.portfolios.contains_key(worker) && !s.portfolios[worker].credentials.contains(
                credential_id,
            ) ==> {
                let p = s.portfolios[worker];
                &&& f.credentials == p.credentials.push(credential_id)
                &&& f.credentials.len() == p.credentials.len() + 1
                &&& f.credentials[p.credentials.len() as int] == credential_id
                &&& forall|k: int|
                    0 <= k < p.credentials.len() ==> #[trigger] f.credentials[k] == p.credentials[k]
                &&& f.total_verified == (p.total_verified + 1) as u32
                &&& f.worker == p.worker
                &&& f.average_employer_rating == p.average_employer_rating
                &&& f.portfolio_views == p.portfolio_views
                &&& f.earnings_from_views == p.earnings_from_views
            }
            &&& !s.portfolios.contains_key(worker) ==> {
                &&& f.credentials == seq![credential_id]
                &&& f.total_verified == 1
                &&& f.worker == worker
                &&& f.average_employer_rating == 750
                &&& f.portfolio_views == 0
                &&& f.earnings_from_views == 0
            }
            &&& forall|w: Seq<char>| w != worker ==> #[trigger] t.portfolios.get(w)
                == s.portfolios.get(w)
            &&& t.credentials == s.credentials
            &&& t.employers == s.employers
            &&& t.counter == s.counter
        }),
{
    let r = Request::AddToPortfolio { worker, credential_id };
    if refusal(s, r) is None && !s.portfolios.contains_key(worker) {
        let f = after(s, r).portfolios[worker];
        assert(f.credentials =~= seq![credential_id]);
    }
}

/// Viewing a portfolio is refused exactly when the worker has none.
/// Accepted, it counts one more view and adds 400 000 to the earnings; the
/// portfolio's worker, credentials, count and average rating stay, and
/// nothing else changes.
pub proof fn law_view_spelled_out(s: LedgerView, worker: Seq<char>)
    ensures
        refusal(s, Request::ViewPortfolio { worker }) is None <==> s.portfolios.contains_key(
            worker,
        ),
        !s.portfolios.contains_key(worker) ==> refusal(s, Request::ViewPortfolio { worker })
            == Some(ContractError::PortfolioNotFound),
        s.portfolios.contains_key(worker) && fits(s, Request::ViewPortfolio { worker }) ==> ({
            let t = after(s, Request::ViewPortfolio { worker });
            let p = s.portfolios[worker];
            let f = t.portfolios[worker];
            &&& t.portfolios.contains_key(worker)
            &&& f.portfolio_views == p.portfolio_views + 1
            &&& f.earnings_from_views == p.earnings_from_views + 400_000
            &&& f.worker == p.worker
            &&& f.credentials == p.credentials
            &&& f.total_verified == p.total_verified
            &&& f.average_employer_rating == p.average_employer_rating
            &&& forall|w: Seq<char>| w != worker ==> #[trigger] t.portfolios.get(w)
                == s.portfolios.get(w)
            &&& t.credentials == s.credentials
            &&& t.employers == s.employers
            &&& t.counter == s.counter
        }),
{
}

} // verus!
