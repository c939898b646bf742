use vstd::prelude::*;

use crate::access::{keys_of, AccessControl, UpdaterChanged};
use crate::error::ReputationError;
use crate::identity::Identity;
use crate::ledger::{
    records_view, scores_bounded, score_in, unchanged_except, ScoreLedger, MAX_SCORE,
};

verus! {

/// What a reputation ledger holds, as mathematical values.
pub struct ReputationState {
    /// The administrator's key, if one was set.
    pub admin: Option<Seq<u8>>,
    /// The keys of the authorized updaters.
    pub updaters: Set<Seq<u8>>,
    /// The stored scores; an identity without an entry has score 0.
    pub scores: Map<Seq<u8>, nat>,
    /// Whether `set_admin` may replace an administrator once one is set.
    pub admin_transfer: bool,
}

/// `caller` may mutate scores in `s`: it is authenticated and an updater.
pub open spec fn may_update(s: ReputationState, caller: Seq<u8>, authenticated: bool) -> bool {
    authenticated && s.updaters.contains(caller)
}

/// The reputation ledger: the only entry point for mutation. Every mutating call
/// checks its caller's authority before it touches a score.
pub struct ReputationContract {
    access: AccessControl,
    ledger: ScoreLedger,
}

impl View for ReputationContract {
    type V = ReputationState;

    closed spec fn view(&self) -> ReputationState {
        ReputationState {
            admin: self.access.admin(),
            updaters: self.access.updaters(),
            scores: self.ledger@,
            admin_transfer: self.access.admin_transfer(),
        }
    }
}

impl ReputationContract {
    /// Both parts are well-formed: what every constructor establishes and every
    /// call keeps.
    pub closed spec fn wf(&self) -> bool {
        self.access.wf() && self.ledger.wf()
    }

    /// Every score that a well-formed ledger stores lies in `0..=100`. Each call
    /// keeps the ledger well-formed, so this holds after any sequence of calls.
    pub proof fn lemma_scores_bounded(&self)
        requires
            self.wf(),
        ensures
            scores_bounded(self@.scores),
    {
        self.ledger.lemma_bounded();
    }

    /// An empty ledger whose administrator a later `set_admin` may replace.
    pub fn new() -> (r: ReputationContract)
        ensures
            r.wf(),
            r@.admin is None,
            r@.updaters == Set::<Seq<u8>>::empty(),
            r@.scores == Map::<Seq<u8>, nat>::empty(),
            r@.admin_transfer,
    {
        Self::with_admin_transfer(true)
    }

    /// An empty ledger; where `admin_transfer` does not hold, the first
    /// administrator set stays for good.
    pub fn with_admin_transfer(admin_transfer: bool) -> (r: ReputationContract)
        ensures
            r.wf(),
            r@.admin is None,
            r@.updaters == Set::<Seq<u8>>::empty(),
            r@.scores == Map::<Seq<u8>, nat>::empty(),
            r@.admin_transfer == admin_transfer,
    {
        ReputationContract { access: AccessControl::new(admin_transfer), ledger: ScoreLedger::new() }
    }

    /// Rebuilds the ledger from its persisted parts: the administrator, the
    /// updaters and the score records. `OutOfBounds` where a record holds a score
    /// above 100.
    pub fn restore(
        admin: Option<Identity>,
        updaters: &Vec<Identity>,
        scores: &Vec<(Identity, u32)>,
        admin_transfer: bool,
    ) -> (r: Result<ReputationContract, ReputationError>)
        ensures
            r is Ok <==> forall|i: int| 0 <= i < scores@.len() ==> #[trigger] scores@[i].1 <= MAX_SCORE,
            r is Ok ==> r->Ok_0.wf() && r->Ok_0@ == (ReputationState {
                admin: match admin {
                    Some(a) => Some(a@),
                    None => None::<Seq<u8>>,
                },
                updaters: keys_of(updaters@),
                scores: records_view(scores@),
                admin_transfer,
            }),
            r is Err ==> r == Err::<ReputationContract, _>(ReputationError::OutOfBounds),
    {
        let ledger = match ScoreLedger::restore(scores) {
            Ok(ledger) => ledger,
            Err(e) => {
                return Err(e);
            },
        };
        let access = AccessControl::restore(admin, updaters, admin_transfer);
        Ok(ReputationContract { access, ledger })
    }

    /// The release this contract belongs to.
    pub fn version() -> (r: &'static str)
        ensures
            r@ == "trustup-v1.0"@,
    {
        "trustup-v1.0"
    }

    /// The build tag used to check which contract is deployed.
    pub fn get_version() -> (r: &'static str)
        ensures
            r@ == "v1_0_0"@,
    {
        "v1_0_0"
    }

    /// Records `admin` as administrator. It must be authenticated as itself, and
    /// an administrator already set is replaced only where transfer is allowed;
    /// else `NotAdmin`, with nothing changed.
    pub fn set_admin(&mut self, admin: &Identity, authenticated: bool) -> (r: Result<
        (),
        ReputationError,
    >)
        requires
            old(self).wf(),
        ensures
            final(self).wf(),
            r is Ok <==> authenticated && (old(self)@.admin is None || old(self)@.admin_transfer),
            r is Ok ==> final(self)@ == (ReputationState { admin: Some(admin@), ..old(self)@ }),
            r is Err ==> r == Err::<(), _>(ReputationError::NotAdmin) && final(self)@ == old(self)@,
    {
        self.access.set_admin(admin, authenticated)
    }

    /// The administrator; `Uninitialized` where none was set.
    pub fn get_admin(&self) -> (r: Result<Identity, ReputationError>)
        ensures
            match self@.admin {
                Some(a) => r is Ok && r->Ok_0@ == a,
                None => r == Err::<Identity, _>(ReputationError::Uninitialized),
            },
    {
        self.access.get_admin()
    }

    /// The administrator grants (`authorized`) or revokes the updater status of
    /// `target`, and gets back the notification to publish. Revoking an identity
    /// that was never granted succeeds and changes nothing. A caller that is not
    /// the authenticated administrator gets `NotAdmin`, with nothing changed.
    pub fn set_updater(
        &mut self,
        admin: &Identity,
        authenticated: bool,
        target: &Identity,
        authorized: bool,
    ) -> (r: Result<UpdaterChanged, ReputationError>)
        requires
            old(self).wf(),
        ensures
            final(self).wf(),
            r is Ok <==> authenticated && old(self)@.admin == Some(admin@),
            r is Ok ==> r->Ok_0.target@ == target@ && r->Ok_0.authorized == authorized,
            r is Ok ==> final(self)@ == (ReputationState {
                updaters: if authorized {
                    old(self)@.updaters.insert(target@)
                } else {
                    old(self)@.updaters.remove(target@)
                },
                ..old(self)@
            }),
            r is Ok && !authorized && !old(self)@.updaters.contains(target@) ==> final(self)@
                == old(self)@ && !final(self)@.updaters.contains(target@),
            r is Err ==> r == Err::<UpdaterChanged, _>(ReputationError::NotAdmin)
                && final(self)@ == old(self)@,
    {
        self.access.set_updater(admin, authenticated, target, authorized)
    }

    /// Whether `id` is an authorized updater.
    pub fn is_updater(&self, id: &Identity) -> (r: bool)
        ensures
            r == self@.updaters.contains(id@),
    {
        self.access.is_updater(id)
    }

    /// The score of `user`: 0 where none was stored, and never above 100.
    pub fn get_score(&self, user: &Identity) -> (r: u32)
        requires
            self.wf(),
        ensures
            r as nat == score_in(self@.scores, user@),
            r <= MAX_SCORE,
    {
        self.ledger.get_score(user)
    }

    fn authorize_updater(&self, caller: &Identity, authenticated: bool) -> (r: Result<
        (),
        ReputationError,
    >)
        ensures
            r is Ok <==> may_update(self@, caller@, authenticated),
            r is Err ==> r == Err::<(), _>(ReputationError::NotUpdater),
    {
        if authenticated && self.access.is_updater(caller) {
            Ok(())
        } else {
            Err(ReputationError::NotUpdater)
        }
    }

    /// An authenticated updater overwrites the score of `user` with `score`.
    /// Any other caller gets `NotUpdater`; a score above 100 gets `OutOfBounds`.
    /// A rejected call changes nothing.
    pub fn set_score(
        &mut self,
        updater: &Identity,
        authenticated: bool,
        user: &Identity,
        score: u32,
    ) -> (r: Result<(), ReputationError>)
        requires
            old(self).wf(),
        ensures
            final(self).wf(),
            final(self)@ == (ReputationState { scores: final(self)@.scores, ..old(self)@ }),
            scores_bounded(final(self)@.scores),
            unchanged_except(old(self)@.scores, final(self)@.scores, user@),
            r is Err ==> final(self)@ == old(self)@,
            !may_update(old(self)@, updater@, authenticated) ==> r == Err::<(), _>(
                ReputationError::NotUpdater,
            ) && final(self)@ == old(self)@,
            may_update(old(self)@, updater@, authenticated) && score <= MAX_SCORE ==> r is Ok
                && final(self)@.scores == old(self)@.scores.insert(user@, score as nat),
            may_update(old(self)@, updater@, authenticated) && score > MAX_SCORE ==> r == Err::<
                (),
                _,
            >(ReputationError::OutOfBounds) && final(self)@ == old(self)@,
    {
        match self.authorize_updater(updater, authenticated) {
            Ok(()) => self.ledger.set_score(user, score),
            Err(e) => {
                proof {
                    self.lemma_scores_bounded();
                }
                Err(e)
            },
        }
    }

    /// An authenticated updater adds `delta` to the score of `user`. Any other
    /// caller gets `NotUpdater`; a sum above 100 gets `Overflow`. A rejected call
    /// changes nothing.
    pub fn increase_score(
        &mut self,
        updater: &Identity,
        authenticated: bool,
        user: &Identity,
        delta: u32,
    ) -> (r: Result<(), ReputationError>)
        requires
            old(self).wf(),
        ensures
            final(self).wf(),
            final(self)@ == (ReputationState { scores: final(self)@.scores, ..old(self)@ }),
            scores_bounded(final(self)@.scores),
            unchanged_except(old(self)@.scores, final(self)@.scores, user@),
            r is Err ==> final(self)@ == old(self)@,
            !may_update(old(self)@, updater@, authenticated) ==> r == Err::<(), _>(
                ReputationError::NotUpdater,
            ) && final(self)@ == old(self)@,
            may_update(old(self)@, updater@, authenticated) && score_in(old(self)@.scores, user@)
                + delta <= MAX_SCORE ==> r is Ok && final(self)@.scores == old(self)@.scores.insert(user@, (score_in(old(self)@.scores, user@) + delta) as nat),
            may_update(old(self)@, updater@, authenticated) && score_in(old(self)@.scores, user@)
                + delta > MAX_SCORE ==> r == Err::<(), _>(ReputationError::Overflow) && final(self)@ == old(self)@,
    {
        match self.authorize_updater(updater, authenticated) {
            Ok(()) => self.ledger.increase_score(user, delta),
            Err(e) => {
                proof {
                    self.lemma_scores_bounded();
                }
                Err(e)
            },
        }
    }

    /// An authenticated updater subtracts `delta` from the score of `user`. Any
    /// other caller gets `NotUpdater`; a difference below 0 gets `Underflow`. A
    /// rejected call changes nothing.
    pub fn decrease_score(
        &mut self,
        updater: &Identity,
        authenticated: bool,
        user: &Identity,
        delta: u32,
    ) -> (r: Result<(), ReputationError>)
        requires
            old(self).wf(),
        ensures
            final(self).wf(),
            final(self)@ == (ReputationState { scores: final(self)@.scores, ..old(self)@ }),
            scores_bounded(final(self)@.scores),
            unchanged_except(old(self)@.scores, final(self)@.scores, user@),
            r is Err ==> final(self)@ == old(self)@,
            !may_update(old(self)@, updater@, authenticated) ==> r == Err::<(), _>(
                ReputationError::NotUpdater,
            ) && final(self)@ == old(self)@,
            may_update(old(self)@, updater@, authenticated) && delta <= score_in(
                old(self)@.scores,
                user@,
            ) ==> r is Ok && final(self)@.scores == old(self)@.scores.insert(
                user@,
                (score_in(old(self)@.scores, user@) - delta) as nat,
            ),
            may_update(old(self)@, updater@, authenticated) && delta > score_in(
                old(self)@.scores,
                user@,
            ) ==> r == Err::<(), _>(ReputationError::Underflow) && final(self)@ == old(self)@,
    {
        match self.authorize_updater(updater, authenticated) {
            Ok(()) => self.ledger.decrease_score(user, delta),
            Err(e) => {
                proof {
                    self.lemma_scores_bounded();
                }
                Err(e)
            },
        }
    }
}

} // verus!
