//! The registry's persistent storage as mathematics: what each request does
//! to it, and what every request keeps true of it.
use vstd::prelude::*;
use crate::types::{
    unverified_label,
    ContractError, CredentialStatus, CredentialView, EmployerView, PortfolioView, MAX_RATING,
    MIN_STAKE,
};
use crate::records::{
    add_fits, add_refusal, created_credential, credit_fits, credited_employer, employer_or_fresh,
    fresh_portfolio, next_id, portfolio_or_fresh, portfolio_with, rate_refusal, rated_employer,
    rated_reputation, rating_fits, verified_credential, verify_refusal, view_fits, viewed_portfolio,
};

verus! {

/// Everything the registry keeps: the credential counter (absent until it is
/// first written), the credentials by id, and the employer records and
/// portfolios by address.
pub struct LedgerView {
    pub counter: Option<u64>,
    pub credentials: Map<u64, CredentialView>,
    pub employers: Map<Seq<char>, EmployerView>,
    pub portfolios: Map<Seq<char>, PortfolioView>,
}

impl LedgerView {
    /// The storage of a contract that has never been called.
    pub open spec fn empty() -> LedgerView {
        LedgerView {
            counter: None,
            credentials: Map::empty(),
            employers: Map::empty(),
            portfolios: Map::empty(),
        }
    }

    /// The number of credentials created so far, as the counter reads.
    pub open spec fn count(self) -> u64 {
        match self.counter {
            Some(c) => c,
            None => 0,
        }
    }

    pub open spec fn credential(self, id: u64) -> Option<CredentialView> {
        self.credentials.get(id)
    }

    pub open spec fn employer(self, address: Seq<char>) -> Option<EmployerView> {
        self.employers.get(address)
    }

    pub open spec fn portfolio(self, worker: Seq<char>) -> Option<PortfolioView> {
        self.portfolios.get(worker)
    }

    // ----- what each request does -----

    /// Initializing writes a zero counter.
    pub open spec fn initialized(self) -> LedgerView {
        LedgerView { counter: Some(0), ..self }
    }

    /// Creating a credential stores it under the next id and advances the counter to it.
    pub open spec fn with_credential_created(
        self,
        worker: Seq<char>,
        credential_type: Seq<u8>,
        skill_description: Seq<u8>,
        issued_at: u64,
    ) -> LedgerView {
        let id = next_id(self.counter) as u64;
        LedgerView {
            counter: Some(id),
            credentials: self.credentials.insert(
                id,
                created_credential(id, worker, credential_type, skill_description, issued_at),
            ),
            ..self
        }
    }

    /// Why verifying is refused, if it is.
    pub open spec fn verify_refusal(self, credential_id: u64, stake: i128) -> Option<ContractError> {
        verify_refusal(self.credential(credential_id), stake)
    }

    /// Verifying marks the credential verified by the employer and credits
    /// the employer's record (a fresh one where there was none) with the stake.
    pub open spec fn with_credential_verified(
        self,
        employer: Seq<char>,
        credential_id: u64,
        issuer_name: Seq<u8>,
        stake: i128,
    ) -> LedgerView {
        LedgerView {
            credentials: self.credentials.insert(
                credential_id,
                verified_credential(self.credentials[credential_id], employer, issuer_name, stake),
            ),
            employers: self.employers.insert(
                employer,
                credited_employer(employer_or_fresh(self.employer(employer), employer), stake),
            ),
            ..self
        }
    }

    /// Whether verifying stays within the integer widths.
    pub open spec fn verify_fits(self, employer: Seq<char>, credential_id: u64, stake: i128) -> bool {
        self.verify_refusal(credential_id, stake) is None ==> credit_fits(
            employer_or_fresh(self.employer(employer), employer),
            stake,
        )
    }

    /// Why rating is refused, if it is.
    pub open spec fn rate_refusal(self, employer: Seq<char>, rating: u32) -> Option<ContractError> {
        rate_refusal(self.employer(employer), rating)
    }

    /// Rating replaces the employer's reputation by the new running average.
    pub open spec fn with_employer_rated(self, employer: Seq<char>, rating: u32) -> LedgerView {
        LedgerView {
            employers: self.employers.insert(employer, rated_employer(self.employers[employer], rating)),
            ..self
        }
    }

    /// Whether rating stays within the integer widths.
    pub open spec fn rate_fits(self, employer: Seq<char>, rating: u32) -> bool {
        self.rate_refusal(employer, rating) is None ==> rating_fits(self.employers[employer], rating)
    }

    /// Reading a worker's portfolio stores a fresh one where there was none.
    pub open spec fn with_portfolio_ensured(self, worker: Seq<char>) -> LedgerView {
        LedgerView {
            portfolios: if self.portfolios.contains_key(worker) {
                self.portfolios
            } else {
                self.portfolios.insert(worker, fresh_portfolio(worker))
            },
            ..self
        }
    }

    /// Why adding to a portfolio is refused, if it is.
    pub open spec fn add_refusal(self, worker: Seq<char>, credential_id: u64) -> Option<ContractError> {
        add_refusal(self.credential(credential_id), worker)
    }

    /// Adding writes the worker's portfolio (a fresh one where there was
    /// none) with the credential in it.
    pub open spec fn with_credential_added(self, worker: Seq<char>, credential_id: u64) -> LedgerView {
        LedgerView {
            portfolios: self.portfolios.insert(
                worker,
                portfolio_with(portfolio_or_fresh(self.portfolio(worker), worker), credential_id),
            ),
            ..self
        }
    }

    /// Whether adding stays within the integer widths.
    pub open spec fn add_fits(self, worker: Seq<char>, credential_id: u64) -> bool {
        self.add_refusal(worker, credential_id) is None ==> add_fits(
            portfolio_or_fresh(self.portfolio(worker), worker),
            credential_id,
        )
    }

    /// Viewing counts one more view of the portfolio and its reward.
    pub open spec fn with_portfolio_viewed(self, worker: Seq<char>) -> LedgerView {
        LedgerView {
            portfolios: self.portfolios.insert(worker, viewed_portfolio(self.portfolios[worker])),
            ..self
        }
    }

    /// Whether viewing stays within the integer widths.
    pub open spec fn view_fits(self, worker: Seq<char>) -> bool {
        self.portfolios.contains_key(worker) ==> view_fits(self.portfolios[worker])
    }

    // ----- what every request keeps -----

    /// The ids in use are exactly 1 up to the counter, and each credential
    /// carries its own id.
    pub open spec fn ids_dense(self) -> bool {
        &&& forall|id: u64| #[trigger]
            self.credentials.contains_key(id) <==> 1 <= id <= self.count()
        &&& forall|id: u64| #[trigger]
            self.credentials.contains_key(id) ==> self.credentials[id].id == id
    }

    /// Every credential is either pending as its worker created it, or
    /// verified with at least the minimum stake.
    pub open spec fn credentials_consistent(self) -> bool {
        forall|id: u64| #[trigger]
            self.credentials.contains_key(id) ==> credential_consistent(self.credentials[id])
    }

    /// Every employer record sits under its own address, has a reputation
    /// within the rating range, has never been banned, and holds at least the
    /// minimum stake for each credential it verified.
    pub open spec fn employers_consistent(self) -> bool {
        forall|a: Seq<char>| #[trigger]
            self.employers.contains_key(a) ==> employer_consistent(a, self.employers[a])
    }

    /// Every portfolio sits under its worker, lists each credential once,
    /// counts them, and lists only verified credentials of that worker.
    pub open spec fn portfolios_consistent(self) -> bool {
        forall|w: Seq<char>| #[trigger]
            self.portfolios.contains_key(w) ==> self.portfolio_consistent(w, self.portfolios[w])
    }

    pub open spec fn portfolio_consistent(self, w: Seq<char>, p: PortfolioView) -> bool {
        &&& p.worker == w
        &&& p.credentials.no_duplicates()
        &&& p.total_verified == p.credentials.len()
        &&& forall|k: int|
            0 <= k < p.credentials.len() ==> {
                let id = #[trigger] p.credentials[k];
                &&& self.credentials.contains_key(id)
                &&& self.credentials[id].worker == w
                &&& self.credentials[id].verified
            }
    }

    /// What every request keeps true of the storage.
    pub open spec fn keeps_rules(self) -> bool {
        &&& self.ids_dense()
        &&& self.credentials_consistent()
        &&& self.employers_consistent()
        &&& self.portfolios_consistent()
        &&& self.stakes_accounted()
    }

    /// Each employer record counts exactly the credentials that the employer
    /// verified and holds exactly their stakes; an address without a record
    /// has verified none.
    pub open spec fn stakes_accounted(self) -> bool {
        forall|a: Seq<char>| #[trigger] self.accounted_at(a)
    }

    /// The tally of what the address verified matches its record, or is
    /// empty where it has none.
    pub open spec fn accounted_at(self, a: Seq<char>) -> bool {
        let n = self.count() as nat;
        if self.employers.contains_key(a) {
            &&& self.employers[a].credentials_issued == issued_by(self.credentials, a, n)
            &&& self.employers[a].staked_amount == staked_by(self.credentials, a, n)
        } else {
            &&& issued_by(self.credentials, a, n) == 0
            &&& staked_by(self.credentials, a, n) == 0
        }
    }
}

/// Whether credential `id` is verified with `a` as its issuer.
pub open spec fn verified_by(m: Map<u64, CredentialView>, a: Seq<char>, id: u64) -> bool {
    m.contains_key(id) && m[id].verified && m[id].issuer == a
}

/// How many of the credentials with ids 1 to `n` the address verified.
pub open spec fn issued_by(m: Map<u64, CredentialView>, a: Seq<char>, n: nat) -> nat
    decreases n,
{
    if n == 0 {
        0
    } else {
        issued_by(m, a, (n - 1) as nat) + if verified_by(m, a, n as u64) {
            1nat
        } else {
            0nat
        }
    }
}

/// The total stake on the credentials with ids 1 to `n` that the address verified.
pub open spec fn staked_by(m: Map<u64, CredentialView>, a: Seq<char>, n: nat) -> int
    decreases n,
{
    if n == 0 {
        0
    } else {
        staked_by(m, a, (n - 1) as nat) + if verified_by(m, a, n as u64) {
            m[n as u64].staked_amount as int
        } else {
            0
        }
    }
}

/// Two credential maps that agree on ids 1 to `n` give the same tallies.
pub proof fn lemma_tally_agree(m1: Map<u64, CredentialView>, m2: Map<u64, CredentialView>, a: Seq<char>, n: nat)
    requires
        n <= u64::MAX,
        forall|id: u64| 1 <= id <= n ==> #[trigger] m1.get(id) == m2.get(id),
    ensures
        issued_by(m1, a, n) == issued_by(m2, a, n),
        staked_by(m1, a, n) == staked_by(m2, a, n),
    decreases n,
{
    if n > 0 {
        lemma_tally_agree(m1, m2, a, (n - 1) as nat);
        assert(m1.get(n as u64) == m2.get(n as u64));
    }
}

/// Changing the credential at one id `k` among 1 to `n` changes the tallies
/// by what that credential contributes before and after.
pub proof fn lemma_tally_point_change(
    m1: Map<u64, CredentialView>,
    m2: Map<u64, CredentialView>,
    a: Seq<char>,
    n: nat,
    k: u64,
)
    requires
        n <= u64::MAX,
        1 <= k <= n,
        forall|id: u64| 1 <= id <= n && id != k ==> #[trigger] m1.get(id) == m2.get(id),
    ensures
        issued_by(m2, a, n) + (if verified_by(m1, a, k) { 1int } else { 0int }) == issued_by(m1, a, n)
            + (if verified_by(m2, a, k) { 1int } else { 0int }),
        staked_by(m2, a, n) + (if verified_by(m1, a, k) { m1[k].staked_amount as int } else { 0int })
            == staked_by(m1, a, n) + (if verified_by(m2, a, k) { m2[k].staked_amount as int } else { 0int }),
    decreases n,
{
    if n == k as nat {
        lemma_tally_agree(m1, m2, a, (n - 1) as nat);
    } else {
        lemma_tally_point_change(m1, m2, a, (n - 1) as nat, k);
        assert(m1.get(n as u64) == m2.get(n as u64));
    }
}

/// A credential is pending as created, or verified with a sufficient stake.
pub open spec fn credential_consistent(c: CredentialView) -> bool {
    if c.verified {
        &&& c.status == CredentialStatus::Verified
        &&& c.staked_amount >= MIN_STAKE
    } else {
        &&& c.status == CredentialStatus::Pending
        &&& c.issuer == c.worker
        &&& c.issuer_name == unverified_label()
        &&& c.staked_amount == 0
    }
}

/// An employer record is keyed by its address, rated within range, not
/// banned, and backed by the minimum stake per verified credential.
pub open spec fn employer_consistent(a: Seq<char>, e: EmployerView) -> bool {
    &&& e.address == a
    &&& e.reputation_score <= MAX_RATING
    &&& !e.banned
    &&& e.staked_amount >= MIN_STAKE * e.credentials_issued
}

// ----- each request keeps the rules -----

/// The storage of a contract never called keeps the rules.
pub proof fn lemma_empty_keeps_rules()
    ensures
        LedgerView::empty().keeps_rules(),
{
}

/// Initializing keeps the rules.
pub proof fn lemma_initialize_keeps_rules(s: LedgerView)
    requires
        s.keeps_rules(),
        s.counter is None,
    ensures
        s.initialized().keeps_rules(),
{
    let t = s.initialized();
    assert forall|a: Seq<char>| #[trigger] t.accounted_at(a) by {
        assert(s.accounted_at(a));
    }
    assert forall|w: Seq<char>| #[trigger] t.portfolios.contains_key(w) implies t.portfolio_consistent(
        w,
        t.portfolios[w],
    ) by {
        assert(s.portfolio_consistent(w, s.portfolios[w]));
    }
}

/// Creating a credential keeps the rules.
pub proof fn lemma_create_keeps_rules(
    s: LedgerView,
    worker: Seq<char>,
    credential_type: Seq<u8>,
    skill_description: Seq<u8>,
    issued_at: u64,
)
    requires
        s.keeps_rules(),
        next_id(s.counter) <= u64::MAX,
    ensures
        s.with_credential_created(worker, credential_type, skill_description, issued_at).keeps_rules(),
{
    let t = s.with_credential_created(worker, credential_type, skill_description, issued_at);
    let id = next_id(s.counter) as u64;
    assert(!s.credentials.contains_key(id));
    assert forall|a: Seq<char>| #[trigger] t.accounted_at(a) by {
        assert(s.accounted_at(a));
        lemma_tally_agree(s.credentials, t.credentials, a, s.count() as nat);
        assert(!verified_by(t.credentials, a, id));
        assert(t.count() as nat == s.count() as nat + 1);
    }
    assert forall|w: Seq<char>| #[trigger] t.portfolios.contains_key(w) implies t.portfolio_consistent(
        w,
        t.portfolios[w],
    ) by {
        let p = s.portfolios[w];
        assert(s.portfolio_consistent(w, p));
        assert forall|k: int| 0 <= k < p.credentials.len() implies {
            let i = #[trigger] p.credentials[k];
            &&& t.credentials.contains_key(i)
            &&& t.credentials[i].worker == w
            &&& t.credentials[i].verified
        } by {
            let i = p.credentials[k];
            assert(s.credentials.contains_key(i));
            assert(i != id);
        }
    }
}

/// Verifying a credential keeps the rules.
pub proof fn lemma_verify_keeps_rules(
    s: LedgerView,
    employer: Seq<char>,
    credential_id: u64,
    issuer_name: Seq<u8>,
    stake: i128,
)
    requires
        s.keeps_rules(),
        s.verify_refusal(credential_id, stake) is None,
        s.verify_fits(employer, credential_id, stake),
    ensures
        s.with_credential_verified(employer, credential_id, issuer_name, stake).keeps_rules(),
{
    let t = s.with_credential_verified(employer, credential_id, issuer_name, stake);
    let old_c = s.credentials[credential_id];
    assert(!old_c.verified);
    let e = employer_or_fresh(s.employer(employer), employer);
    if s.employers.contains_key(employer) {
        assert(employer_consistent(employer, s.employers[employer]));
    }
    assert(employer_consistent(employer, e));
    assert(employer_consistent(employer, credited_employer(e, stake)));
    assert forall|a: Seq<char>| #[trigger] t.accounted_at(a) by {
        assert(s.accounted_at(a));
        lemma_tally_point_change(s.credentials, t.credentials, a, s.count() as nat, credential_id);
        assert(!verified_by(s.credentials, a, credential_id));
    }
    assert forall|w: Seq<char>| #[trigger] t.portfolios.contains_key(w) implies t.portfolio_consistent(
        w,
        t.portfolios[w],
    ) by {
        let p = s.portfolios[w];
        assert(s.portfolio_consistent(w, p));
        assert forall|k: int| 0 <= k < p.credentials.len() implies {
            let i = #[trigger] p.credentials[k];
            &&& t.credentials.contains_key(i)
            &&& t.credentials[i].worker == w
            &&& t.credentials[i].verified
        } by {
            let i = p.credentials[k];
            assert(s.credentials.contains_key(i));
            assert(s.credentials[i].verified);
            assert(i != credential_id);
        }
    }
}

/// The new reputation lies between the old reputation and the rating.
pub proof fn lemma_rated_reputation_between(score: u32, issued: u32, rating: u32)
    ensures
        rated_reputation(score, issued, rating) <= if score < rating { rating } else { score },
        rated_reputation(score, issued, rating) >= if score < rating { score } else { rating },
{
    let hi: int = if score < rating { rating as int } else { score as int };
    let lo: int = if score < rating { score as int } else { rating as int };
    let n: int = issued as int;
    let total: int = score * n + rating;
    assert(total <= hi * (n + 1)) by (nonlinear_arith)
        requires
            total == score * n + rating,
            score <= hi,
            rating <= hi,
            n >= 0,
    ;
    assert(total >= lo * (n + 1)) by (nonlinear_arith)
        requires
            total == score * n + rating,
            score >= lo,
            rating >= lo,
            n >= 0,
    ;
    assert(total / (n + 1) <= hi) by (nonlinear_arith)
        requires
            total <= hi * (n + 1),
            n >= 0,
    ;
    assert(total / (n + 1) >= lo) by (nonlinear_arith)
        requires
            total >= lo * (n + 1),
            n >= 0,
    ;
}

/// Rating an employer keeps the rules.
pub proof fn lemma_rate_keeps_rules(s: LedgerView, employer: Seq<char>, rating: u32)
    requires
        s.keeps_rules(),
        s.rate_refusal(employer, rating) is None,
    ensures
        s.with_employer_rated(employer, rating).keeps_rules(),
{
    let t = s.with_employer_rated(employer, rating);
    assert forall|a: Seq<char>| #[trigger] t.accounted_at(a) by {
        assert(s.accounted_at(a));
    }
    let e = s.employers[employer];
    assert(employer_consistent(employer, e));
    lemma_rated_reputation_between(e.reputation_score, e.credentials_issued, rating);
    assert(employer_consistent(employer, rated_employer(e, rating)));
    assert forall|w: Seq<char>| #[trigger] t.portfolios.contains_key(w) implies t.portfolio_consistent(
        w,
        t.portfolios[w],
    ) by {
        assert(s.portfolio_consistent(w, s.portfolios[w]));
    }
}

/// Reading a portfolio keeps the rules.
pub proof fn lemma_ensure_portfolio_keeps_rules(s: LedgerView, worker: Seq<char>)
    requires
        s.keeps_rules(),
    ensures
        s.with_portfolio_ensured(worker).keeps_rules(),
{
    let t = s.with_portfolio_ensured(worker);
    assert forall|a: Seq<char>| #[trigger] t.accounted_at(a) by {
        assert(s.accounted_at(a));
    }
    assert forall|w: Seq<char>| #[trigger] t.portfolios.contains_key(w) implies t.portfolio_consistent(
        w,
        t.portfolios[w],
    ) by {
        if s.portfolios.contains_key(w) {
            assert(s.portfolio_consistent(w, s.portfolios[w]));
        } else {
            assert(t.portfolios[w].credentials =~= Seq::<u64>::empty());
        }
    }
}

/// Adding a credential to a portfolio keeps the rules.
pub proof fn lemma_add_keeps_rules(s: LedgerView, worker: Seq<char>, credential_id: u64)
    requires
        s.keeps_rules(),
        s.add_refusal(worker, credential_id) is None,
        s.add_fits(worker, credential_id),
    ensures
        s.with_credential_added(worker, credential_id).keeps_rules(),
{
    let t = s.with_credential_added(worker, credential_id);
    assert forall|a: Seq<char>| #[trigger] t.accounted_at(a) by {
        assert(s.accounted_at(a));
    }
    let p = portfolio_or_fresh(s.portfolio(worker), worker);
    if s.portfolios.contains_key(worker) {
        assert(s.portfolio_consistent(worker, s.portfolios[worker]));
    } else {
        assert(p.credentials =~= Seq::<u64>::empty());
    }
    assert(s.portfolio_consistent(worker, p));
    let q = portfolio_with(p, credential_id);
    assert(s.portfolio_consistent(worker, q)) by {
        if !p.credentials.contains(credential_id) {
            let n = p.credentials.len() as int;
            assert forall|a: int, b: int| 0 <= a < q.credentials.len() && 0 <= b < q.credentials.len()
                && a != b implies q.credentials[a] != q.credentials[b] by {
                if a == n {
                    assert(p.credentials[b] == q.credentials[b]);
                } else if b == n {
                    assert(p.credentials[a] == q.credentials[a]);
                } else {
                    assert(p.credentials[a] == q.credentials[a]);
                    assert(p.credentials[b] == q.credentials[b]);
                }
            }
            assert forall|k: int| 0 <= k < q.credentials.len() implies {
                let i = #[trigger] q.credentials[k];
                &&& s.credentials.contains_key(i)
                &&& s.credentials[i].worker == worker
                &&& s.credentials[i].verified
            } by {
                if k < n {
                    assert(q.credentials[k] == p.credentials[k]);
                }
            }
        }
    }
    assert forall|w: Seq<char>| #[trigger] t.portfolios.contains_key(w) implies t.portfolio_consistent(
        w,
        t.portfolios[w],
    ) by {
        if w != worker {
            assert(s.portfolio_consistent(w, s.portfolios[w]));
        }
    }
}

/// Viewing a portfolio keeps the rules.
pub proof fn lemma_view_keeps_rules(s: LedgerView, worker: Seq<char>)
    requires
        s.keeps_rules(),
        s.portfolios.contains_key(worker),
        s.view_fits(worker),
    ensures
        s.with_portfolio_viewed(worker).keeps_rules(),
{
    let t = s.with_portfolio_viewed(worker);
    assert forall|a: Seq<char>| #[trigger] t.accounted_at(a) by {
        assert(s.accounted_at(a));
    }
    assert forall|w: Seq<char>| #[trigger] t.portfolios.contains_key(w) implies t.portfolio_consistent(
        w,
        t.portfolios[w],
    ) by {
        assert(s.portfolio_consistent(w, s.portfolios[w]));
    }
}

} // verus!
