//! The credential registry contract over its own storage: every request of
//! the contract, checked against what it does to the storage as a whole.
use vstd::prelude::*;
use crate::types::{
    StakeTransfer,
    Address, ContractError, Credential, CredentialView, Employer, EmployerView, PortfolioView,
    WorkerPortfolio,
};
use crate::records::{
    add_step, create_step, fresh_portfolio_for, initialize_step, next_id, opt_view,
    portfolio_or_fresh, rate_step, stake_lock, rated_employer, verify_step, view_step, viewed_portfolio,
};
use crate::keyed::{
    keyed_map, keys_unique, lemma_keyed_absent, lemma_keyed_index, lemma_keyed_push,
    lemma_keyed_update,
};
use crate::laws::{after, Request};
use crate::ledger::{
    lemma_add_keeps_rules, lemma_create_keeps_rules, lemma_empty_keeps_rules,
    lemma_ensure_portfolio_keeps_rules, lemma_initialize_keeps_rules, lemma_rate_keeps_rules,
    lemma_verify_keeps_rules, lemma_view_keeps_rules, LedgerView,
};

verus! {

/// The credentials by id, read from the list in which credential `id`
/// stands at position `id - 1`.
pub closed spec fn credential_map(s: Seq<Credential>) -> Map<u64, CredentialView> {
    Map::new(|id: u64| 1 <= id <= s.len(), |id: u64| s[id - 1]@)
}

/// Employer records are found by their address.
pub open spec fn employer_key() -> spec_fn(Employer) -> Seq<char> {
    |e: Employer| e.address@
}

/// An employer record reads as its view.
pub open spec fn employer_val() -> spec_fn(Employer) -> EmployerView {
    |e: Employer| e@
}

/// Portfolios are found by their worker.
pub open spec fn portfolio_key() -> spec_fn(WorkerPortfolio) -> Seq<char> {
    |p: WorkerPortfolio| p.worker@
}

/// A portfolio reads as its view.
pub open spec fn portfolio_val() -> spec_fn(WorkerPortfolio) -> PortfolioView {
    |p: WorkerPortfolio| p@
}

proof fn lemma_credential_map_push(s: Seq<Credential>, c: Credential)
    requires
        c.id == s.len() + 1,
    ensures
        credential_map(s.push(c)) == credential_map(s).insert(c.id, c@),
{
    let s2 = s.push(c);
    assert forall|id: u64| credential_map(s2).contains_key(id) implies #[trigger] credential_map(
        s2,
    )[id] == credential_map(s).insert(c.id, c@)[id] by {
        if id != c.id {
            assert(s2[id - 1] == s[id - 1]);
        }
    }
    assert(credential_map(s2) =~= credential_map(s).insert(c.id, c@));
}

proof fn lemma_credential_map_update(s: Seq<Credential>, id: u64, c: Credential)
    requires
        1 <= id <= s.len(),
    ensures
        credential_map(s.update(id - 1, c)) == credential_map(s).insert(id, c@),
{
    let s2 = s.update(id - 1, c);
    assert forall|k: u64| credential_map(s2).contains_key(k) implies #[trigger] credential_map(
        s2,
    )[k] == credential_map(s).insert(id, c@)[k] by {
        if k != id {
            assert(s2[k - 1] == s[k - 1]);
        }
    }
    assert(credential_map(s2) =~= credential_map(s).insert(id, c@));
}

/// The registry contract together with its storage.
pub struct CredentialChainContract {
    counter: Option<u64>,
    credentials: Vec<Credential>,
    employers: Vec<Employer>,
    portfolios: Vec<WorkerPortfolio>,
}

impl View for CredentialChainContract {
    type V = LedgerView;

    closed spec fn view(&self) -> LedgerView {
        LedgerView {
            counter: self.counter,
            credentials: credential_map(self.credentials@),
            employers: keyed_map(self.employers@, employer_key(), employer_val()),
            portfolios: keyed_map(self.portfolios@, portfolio_key(), portfolio_val()),
        }
    }
}

impl CredentialChainContract {
    /// The storage is laid out as the view reads it.
    pub closed spec fn storage_wf(&self) -> bool {
        &&& self.credentials@.len() == self@.count()
        &&& keys_unique(self.employers@, employer_key())
        &&& keys_unique(self.portfolios@, portfolio_key())
    }

    /// The contract's storage is laid out well and keeps the registry's rules.
    pub open spec fn wf(&self) -> bool {
        &&& self.storage_wf()
        &&& self@.keeps_rules()
    }

    /// A contract whose storage is empty.
    pub fn new() -> (c: CredentialChainContract)
        ensures
            c.wf(),
            c@ == LedgerView::empty(),
    {
        let c = CredentialChainContract {
            counter: None,
            credentials: Vec::new(),
            employers: Vec::new(),
            portfolios: Vec::new(),
        };
        proof {
            assert(credential_map(c.credentials@) =~= Map::empty());
            assert(keyed_map(c.employers@, employer_key(), employer_val()) =~= Map::empty());
            assert(keyed_map(c.portfolios@, portfolio_key(), portfolio_val()) =~= Map::empty());
            lemma_empty_keeps_rules();
        }
        c
    }

    /// Where credential `id` stands, if it exists.
    fn credential_index(&self, id: u64) -> (r: Option<usize>)
        requires
            self.storage_wf(),
        ensures
            r matches Some(i) ==> self@.credentials.contains_key(id) && i == id - 1 && i
                < self.credentials@.len(),
            r is None ==> !self@.credentials.contains_key(id),
    {
        let n = self.credentials.len();
        if id >= 1 && id - 1 < n as u64 {
            Some((id - 1) as usize)
        } else {
            None
        }
    }

    /// A copy of credential `id`, if it exists.
    fn credential_copy(&self, id: u64) -> (r: Option<Credential>)
        requires
            self.storage_wf(),
        ensures
            opt_view(r) == self@.credential(id),
    {
        match self.credential_index(id) {
            Some(i) => Some(self.credentials[i].copy()),
            None => None,
        }
    }

    /// Where the employer's record stands, if there is one.
    fn employer_index(&self, a: &Address) -> (r: Option<usize>)
        ensures
            r matches Some(i) ==> i < self.employers@.len() && self.employers@[i as int].address@
                == a@,
            r is None ==> forall|i: int|
                0 <= i < self.employers@.len() ==> (#[trigger] self.employers@[i]).address@ != a@,
    {
        let mut i: usize = 0;
        while i < self.employers.len()
            invariant
                i <= self.employers@.len(),
                forall|j: int| 0 <= j < i ==> (#[trigger] self.employers@[j]).address@ != a@,
            decreases self.employers@.len() - i,
        {
            if self.employers[i].address.same(a) {
                return Some(i);
            }
            i = i + 1;
        }
        None
    }

    /// Where the worker's portfolio stands, if there is one.
    fn portfolio_index(&self, w: &Address) -> (r: Option<usize>)
        ensures
            r matches Some(i) ==> i < self.portfolios@.len() && self.portfolios@[i as int].worker@
                == w@,
            r is None ==> forall|i: int|
                0 <= i < self.portfolios@.len() ==> (#[trigger] self.portfolios@[i]).worker@ != w@,
    {
        let mut i: usize = 0;
        while i < self.portfolios.len()
            invariant
                i <= self.portfolios@.len(),
                forall|j: int| 0 <= j < i ==> (#[trigger] self.portfolios@[j]).worker@ != w@,
            decreases self.portfolios@.len() - i,
        {
            if self.portfolios[i].worker.same(w) {
                return Some(i);
            }
            i = i + 1;
        }
        None
    }

    /// A copy of the employer's record at the position found for it.
    fn employer_at(&self, at: Option<usize>, a: &Address) -> (r: Option<Employer>)
        requires
            self.storage_wf(),
            at matches Some(i) ==> i < self.employers@.len() && self.employers@[i as int].address@
                == a@,
            at is None ==> forall|i: int|
                0 <= i < self.employers@.len() ==> (#[trigger] self.employers@[i]).address@ != a@,
        ensures
            opt_view(r) == self@.employer(a@),
            r matches Some(e) ==> e@.address == a@,
    {
        match at {
            Some(i) => {
                proof {
                    lemma_keyed_index(self.employers@, employer_key(), employer_val(), i as int);
                }
                Some(self.employers[i].copy())
            },
            None => {
                proof {
                    lemma_keyed_absent(self.employers@, employer_key(), employer_val(), a@);
                }
                None
            },
        }
    }

    /// A copy of the worker's portfolio at the position found for it.
    fn portfolio_at(&self, at: Option<usize>, w: &Address) -> (r: Option<WorkerPortfolio>)
        requires
            self.storage_wf(),
            at matches Some(i) ==> i < self.portfolios@.len() && self.portfolios@[i as int].worker@
                == w@,
            at is None ==> forall|i: int|
                0 <= i < self.portfolios@.len() ==> (#[trigger] self.portfolios@[i]).worker@ != w@,
        ensures
            opt_view(r) == self@.portfolio(w@),
    {
        match at {
            Some(i) => {
                proof {
                    lemma_keyed_index(self.portfolios@, portfolio_key(), portfolio_val(), i as int);
                }
                Some(self.portfolios[i].copy())
            },
            None => {
                proof {
                    lemma_keyed_absent(self.portfolios@, portfolio_key(), portfolio_val(), w@);
                }
                None
            },
        }
    }

    /// Writes the employer's record at the position found for its address.
    fn put_employer(&mut self, at: Option<usize>, e: Employer)
        requires
            old(self).storage_wf(),
            at matches Some(i) ==> i < old(self).employers@.len()
                && old(self).employers@[i as int].address@ == e.address@,
            at is None ==> forall|i: int|
                0 <= i < old(self).employers@.len() ==> (#[trigger] old(
                    self,
                ).employers@[i]).address@ != e.address@,
        ensures
            final(self).storage_wf(),
            final(self)@ == (LedgerView {
                employers: old(self)@.employers.insert(e.address@, e@),
                ..old(self)@
            }),
    {
        let ghost s = self.employers@;
        match at {
            Some(i) => {
                proof {
                    lemma_keyed_update(s, employer_key(), employer_val(), i as int, e);
                }
                self.employers.set(i, e);
            },
            None => {
                proof {
                    lemma_keyed_push(s, employer_key(), employer_val(), e);
                }
                self.employers.push(e);
            },
        }
    }

    /// Writes the worker's portfolio at the position found for its worker.
    fn put_portfolio(&mut self, at: Option<usize>, p: WorkerPortfolio)
        requires
            old(self).storage_wf(),
            at matches Some(i) ==> i < old(self).portfolios@.len()
                && old(self).portfolios@[i as int].worker@ == p.worker@,
            at is None ==> forall|i: int|
                0 <= i < old(self).portfolios@.len() ==> (#[trigger] old(
                    self,
                ).portfolios@[i]).worker@ != p.worker@,
        ensures
            final(self).storage_wf(),
            final(self)@ == (LedgerView {
                portfolios: old(self)@.portfolios.insert(p.worker@, p@),
                ..old(self)@
            }),
    {
        let ghost s = self.portfolios@;
        match at {
            Some(i) => {
                proof {
                    lemma_keyed_update(s, portfolio_key(), portfolio_val(), i as int, p);
                }
                self.portfolios.set(i, p);
            },
            None => {
                proof {
                    lemma_keyed_push(s, portfolio_key(), portfolio_val(), p);
                }
                self.portfolios.push(p);
            },
        }
    }

    /// Starts the credential counter at zero; refused once the counter exists.
    pub fn initialize(&mut self) -> (r: Result<(), ContractError>)
        requires
            old(self).wf(),
        ensures
            final(self).wf(),
            final(self)@ == after(old(self)@, Request::Initialize),
            old(self)@.counter is Some ==> r == Err::<(), ContractError>(
                ContractError::AlreadyInitialized,
            ) && final(self)@ == old(self)@,
            old(self)@.counter is None ==> r == Ok::<(), ContractError>(()) && final(self)@ == old(
                self,
            )@.initialized(),
    {
        match initialize_step(self.counter) {
            Ok(v) => {
                proof {
                    lemma_initialize_keeps_rules(self@);
                }
                self.counter = Some(v);
                Ok(())
            },
            Err(e) => Err(e),
        }
    }

    /// Creates a pending credential for the worker, stamped with the ledger
    /// time `issued_at`; returns its id, the next after the counter.
    pub fn create_credential(
        &mut self,
        worker: Address,
        credential_type: Vec<u8>,
        skill_description: Vec<u8>,
        issued_at: u64,
    ) -> (id: u64)
        requires
            old(self).wf(),
            next_id(old(self)@.counter) <= u64::MAX,
        ensures
            final(self).wf(),
            final(self)@ == after(
                old(self)@,
                Request::CreateCredential {
                    worker: worker@,
                    credential_type: credential_type@,
                    skill_description: skill_description@,
                    issued_at,
                },
            ),
            id == next_id(old(self)@.counter),
            final(self)@ == old(self)@.with_credential_created(
                worker@,
                credential_type@,
                skill_description@,
                issued_at,
            ),
    {
        let ghost s = self@;
        let ghost ct = credential_type@;
        let ghost sd = skill_description@;
        let (id, c) = create_step(self.counter, &worker, credential_type, skill_description, issued_at);
        proof {
            lemma_credential_map_push(self.credentials@, c);
            lemma_create_keeps_rules(s, worker@, ct, sd, issued_at);
        }
        self.credentials.push(c);
        self.counter = Some(id);
        proof {
            assert(self@ =~= s.with_credential_created(worker@, ct, sd, issued_at));
        }
        id
    }

    /// An employer verifies a credential, staking at least the minimum; on
    /// success returns `true` with the transfer that locks the stake with the
    /// registry, which the host carries out.
    pub fn employer_verify_credential(
        &mut self,
        employer: Address,
        credential_id: u64,
        issuer_name: Vec<u8>,
        stake_amount: i128,
    ) -> (r: Result<(bool, StakeTransfer), ContractError>)
        requires
            old(self).wf(),
            old(self)@.verify_fits(employer@, credential_id, stake_amount),
        ensures
            final(self).wf(),
            final(self)@ == after(
                old(self)@,
                Request::VerifyCredential {
                    employer: employer@,
                    credential_id,
                    issuer_name: issuer_name@,
                    stake: stake_amount,
                },
            ),
            old(self)@.verify_refusal(credential_id, stake_amount) matches Some(e) ==> (r matches Err(
                x,
            ) && x == e) && final(self)@ == old(self)@,
            old(self)@.verify_refusal(credential_id, stake_amount) is None ==> (r matches Ok((b, t))
                && b && t@ == stake_lock(employer@, stake_amount)) && final(self)@ == old(self)@.with_credential_verified(
                employer@,
                credential_id,
                issuer_name@,
                stake_amount,
            ),
    {
        let ghost s = self@;
        let ghost name = issuer_name@;
        let ci = self.credential_index(credential_id);
        let credential = self.credential_copy(credential_id);
        let ei = self.employer_index(&employer);
        let existing = self.employer_at(ei, &employer);
        match verify_step(credential, existing, &employer, issuer_name, stake_amount) {
            Err(e) => Err(e),
            Ok((c, e, lock)) => {
                let i = ci.unwrap();
                proof {
                    lemma_credential_map_update(self.credentials@, credential_id, c);
                    lemma_verify_keeps_rules(s, employer@, credential_id, name, stake_amount);
                }
                self.credentials.set(i, c);
                self.put_employer(ei, e);
                proof {
                    assert(self@ =~= s.with_credential_verified(
                        employer@,
                        credential_id,
                        name,
                        stake_amount,
                    ));
                }
                Ok((true, lock))
            },
        }
    }

    /// A worker rates an employer from 0 to 1000; returns the employer's new
    /// reputation score.
    pub fn worker_rate_employer(&mut self, worker: Address, employer: Address, rating: u32) -> (r:
        Result<u32, ContractError>)
        requires
            old(self).wf(),
            old(self)@.rate_fits(employer@, rating),
        ensures
            final(self).wf(),
            final(self)@ == after(old(self)@, Request::RateEmployer { employer: employer@, rating }),
            old(self)@.rate_refusal(employer@, rating) matches Some(e) ==> r == Err::<
                u32,
                ContractError,
            >(e) && final(self)@ == old(self)@,
            old(self)@.rate_refusal(employer@, rating) is None ==> r == Ok::<u32, ContractError>(
                rated_employer(old(self)@.employers[employer@], rating).reputation_score,
            ) && final(self)@ == old(self)@.with_employer_rated(employer@, rating),
    {
        let ghost s = self@;
        let ei = self.employer_index(&employer);
        let existing = self.employer_at(ei, &employer);
        match rate_step(existing, rating) {
            Err(e) => Err(e),
            Ok(e) => {
                let score = e.reputation_score;
                proof {
                    lemma_rate_keeps_rules(s, employer@, rating);
                }
                self.put_employer(ei, e);
                proof {
                    assert(self@ =~= s.with_employer_rated(employer@, rating));
                }
                Ok(score)
            },
        }
    }

    /// The worker's portfolio; a fresh one is stored where there was none.
    pub fn get_worker_portfolio(&mut self, worker: Address) -> (p: WorkerPortfolio)
        requires
            old(self).wf(),
        ensures
            final(self).wf(),
            final(self)@ == after(old(self)@, Request::GetWorkerPortfolio { worker: worker@ }),
            p@ == portfolio_or_fresh(old(self)@.portfolio(worker@), worker@),
            final(self)@ == old(self)@.with_portfolio_ensured(worker@),
    {
        let ghost s = self@;
        let pi = self.portfolio_index(&worker);
        let existing = self.portfolio_at(pi, &worker);
        proof {
            lemma_ensure_portfolio_keeps_rules(s, worker@);
        }
        match existing {
            Some(p) => {
                proof {
                    assert(self@ =~= s.with_portfolio_ensured(worker@));
                }
                p
            },
            None => {
                let p = fresh_portfolio_for(&worker);
                let stored = fresh_portfolio_for(&worker);
                self.put_portfolio(pi, stored);
                proof {
                    assert(self@ =~= s.with_portfolio_ensured(worker@));
                }
                p
            },
        }
    }

    /// A worker adds one of their verified credentials to their portfolio;
    /// a credential already there is not added again.
    pub fn add_to_portfolio(&mut self, worker: Address, credential_id: u64) -> (r: Result<
        (),
        ContractError,
    >)
        requires
            old(self).wf(),
            old(self)@.add_fits(worker@, credential_id),
        ensures
            final(self).wf(),
            final(self)@ == after(
                old(self)@,
                Request::AddToPortfolio { worker: worker@, credential_id },
            ),
            old(self)@.add_refusal(worker@, credential_id) matches Some(e) ==> r == Err::<
                (),
                ContractError,
            >(e) && final(self)@ == old(self)@,
            old(self)@.add_refusal(worker@, credential_id) is None ==> r == Ok::<(), ContractError>(
                (),
            ) && final(self)@ == old(self)@.with_credential_added(worker@, credential_id),
    {
        let ghost s = self@;
        let credential = self.credential_copy(credential_id);
        let pi = self.portfolio_index(&worker);
        let existing = self.portfolio_at(pi, &worker);
        match add_step(credential, existing, &worker, credential_id) {
            Err(e) => Err(e),
            Ok(p) => {
                proof {
                    lemma_add_keeps_rules(s, worker@, credential_id);
                }
                self.put_portfolio(pi, p);
                proof {
                    assert(self@ =~= s.with_credential_added(worker@, credential_id));
                }
                Ok(())
            },
        }
    }

    /// Credential `credential_id`.
    pub fn get_credential(&self, credential_id: u64) -> (r: Result<Credential, ContractError>)
        requires
            self.wf(),
        ensures
            self@.credential(credential_id) matches Some(c) ==> (r matches Ok(x) && x@ == c),
            self@.credential(credential_id) is None ==> (r matches Err(e) && e
                == ContractError::CredentialNotFound),
    {
        match self.credential_copy(credential_id) {
            Some(c) => Ok(c),
            None => Err(ContractError::CredentialNotFound),
        }
    }

    /// The employer's record.
    pub fn get_employer(&self, employer: Address) -> (r: Result<Employer, ContractError>)
        requires
            self.wf(),
        ensures
            self@.employer(employer@) matches Some(x) ==> (r matches Ok(y) && y@ == x),
            self@.employer(employer@) is None ==> (r matches Err(e) && e
                == ContractError::EmployerNotFound),
    {
        let ei = self.employer_index(&employer);
        match self.employer_at(ei, &employer) {
            Some(e) => Ok(e),
            None => Err(ContractError::EmployerNotFound),
        }
    }

    /// Someone views the worker's portfolio: one more view is counted and
    /// the worker earns the view reward; returns the portfolio as updated.
    pub fn view_portfolio(&mut self, worker: Address) -> (r: Result<WorkerPortfolio, ContractError>)
        requires
            old(self).wf(),
            old(self)@.view_fits(worker@),
        ensures
            final(self).wf(),
            final(self)@ == after(old(self)@, Request::ViewPortfolio { worker: worker@ }),
            !old(self)@.portfolios.contains_key(worker@) ==> (r matches Err(e) && e
                == ContractError::PortfolioNotFound) && final(self)@ == old(self)@,
            old(self)@.portfolios.contains_key(worker@) ==> (r matches Ok(p) && p@
                == viewed_portfolio(old(self)@.portfolios[worker@])) && final(self)@ == old(
                self,
            )@.with_portfolio_viewed(worker@),
    {
        let ghost s = self@;
        let pi = self.portfolio_index(&worker);
        let existing = self.portfolio_at(pi, &worker);
        match view_step(existing) {
            Err(e) => Err(e),
            Ok(p) => {
                let stored = p.copy();
                proof {
                    lemma_view_keeps_rules(s, worker@);
                }
                self.put_portfolio(pi, stored);
                proof {
                    assert(self@ =~= s.with_portfolio_viewed(worker@));
                }
                Ok(p)
            },
        }
    }

    /// The number of credentials created so far.
    pub fn get_credential_counter(&self) -> (n: u64)
        requires
            self.wf(),
        ensures
            n == self@.count(),
    {
        match self.counter {
            Some(c) => c,
            None => 0,
        }
    }
}

} // verus!
