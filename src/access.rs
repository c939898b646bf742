use vstd::prelude::*;

use crate::error::ReputationError;
use crate::identity::Identity;

verus! {

/// The notification that a successful `set_updater` hands to the change notifier:
/// `target` is now an updater exactly when `authorized` holds.
#[derive(Debug)]
pub struct UpdaterChanged {
    pub target: Identity,
    pub authorized: bool,
}

/// The keys of the identities in `ids`.
pub open spec fn keys_of(ids: Seq<Identity>) -> Set<Seq<u8>> {
    Set::new(|k: Seq<u8>| exists|i: int| 0 <= i < ids.len() && ids[i]@ == k)
}

/// The administrator and the set of identities it authorized as updaters.
pub struct AccessControl {
    admin: Option<Identity>,
    updaters: Vec<Identity>,
    admin_transfer: bool,
}

impl AccessControl {
    /// No updater is listed twice.
    pub closed spec fn wf(&self) -> bool {
        forall|i: int, j: int|
            0 <= i < j < self.updaters@.len() ==> self.updaters@[i]@ != self.updaters@[j]@
    }

    /// The administrator's key, if one was set.
    pub closed spec fn admin(&self) -> Option<Seq<u8>> {
        match self.admin {
            Some(a) => Some(a@),
            None => None,
        }
    }

    /// The keys of the authorized updaters.
    pub closed spec fn updaters(&self) -> Set<Seq<u8>> {
        Set::new(|k: Seq<u8>| exists|i: int| 0 <= i < self.updaters@.len() && self.updaters@[i]@ == k)
    }

    /// Whether `set_admin` may replace an administrator once one is set.
    pub closed spec fn admin_transfer(&self) -> bool {
        self.admin_transfer
    }

    /// No administrator and no updater yet. Where `admin_transfer` holds, a later
    /// `set_admin` replaces the administrator; where it does not, the first one stays.
    pub fn new(admin_transfer: bool) -> (r: AccessControl)
        ensures
            r.wf(),
            r.admin() is None,
            r.updaters() == Set::<Seq<u8>>::empty(),
            r.admin_transfer() == admin_transfer,
    {
        let r = AccessControl { admin: None, updaters: Vec::new(), admin_transfer };
        assert(r.updaters() =~= Set::<Seq<u8>>::empty());
        r
    }

    /// Rebuilds the state that a persisted administrator and updater list describe.
    pub fn restore(admin: Option<Identity>, updaters: &Vec<Identity>, admin_transfer: bool) -> (r:
        AccessControl)
        ensures
            r.wf(),
            r.admin() == match admin {
                Some(a) => Some(a@),
                None => None::<Seq<u8>>,
            },
            r.updaters() == keys_of(updaters@),
            r.admin_transfer() == admin_transfer,
    {
        let mut r = AccessControl::new(admin_transfer);
        r.admin = admin;
        let mut i: usize = 0;
        while i < updaters.len()
            invariant
                i <= updaters@.len(),
                r.wf(),
                r.admin() == match admin {
                    Some(a) => Some(a@),
                    None => None::<Seq<u8>>,
                },
                r.admin_transfer() == admin_transfer,
                r.updaters() == keys_of(updaters@.subrange(0, i as int)),
            decreases updaters@.len() - i,
        {
            r.grant(&updaters[i]);
            proof {
                let done = updaters@.subrange(0, i as int);
                let next = updaters@.subrange(0, i + 1);
                assert forall|k: Seq<u8>| #[trigger]
                    keys_of(next).contains(k) <==> keys_of(done).insert(updaters@[i as int]@).contains(
                    k,
                ) by {
                    if keys_of(next).contains(k) {
                        let j = choose|j: int| 0 <= j < next.len() && next[j]@ == k;
                        if j < i {
                            assert(done[j] == next[j]);
                        }
                    }
                    if keys_of(done).contains(k) {
                        let j = choose|j: int| 0 <= j < done.len() && done[j]@ == k;
                        assert(next[j] == done[j]);
                    }
                    assert(next[i as int] == updaters@[i as int]);
                }
                assert(keys_of(next) =~= keys_of(done).insert(updaters@[i as int]@));
            }
            i = i + 1;
        }
        assert(updaters@.subrange(0, updaters@.len() as int) =~= updaters@);
        r
    }

    /// Records `caller` as administrator. The caller must be authenticated as
    /// itself, and an administrator already set is replaced only where transfer
    /// is allowed; else `NotAdmin`, with nothing changed.
    pub fn set_admin(&mut self, caller: &Identity, authenticated: bool) -> (r: Result<
        (),
        ReputationError,
    >)
        requires
            old(self).wf(),
        ensures
            final(self).wf(),
            final(self).updaters() == old(self).updaters(),
            final(self).admin_transfer() == old(self).admin_transfer(),
            r is Ok <==> authenticated && (old(self).admin() is None
                || old(self).admin_transfer()),
            r is Ok ==> final(self).admin() == Some(caller@),
            r is Err ==> r == Err::<(), _>(ReputationError::NotAdmin) && final(self).admin()
                == old(self).admin(),
    {
        if !authenticated || (self.admin.is_some() && !self.admin_transfer) {
            return Err(ReputationError::NotAdmin);
        }
        self.admin = Some(caller.clone());
        Ok(())
    }

    /// The administrator; `Uninitialized` where none was set.
    pub fn get_admin(&self) -> (r: Result<Identity, ReputationError>)
        ensures
            match self.admin() {
                Some(a) => r is Ok && r->Ok_0@ == a,
                None => r == Err::<Identity, _>(ReputationError::Uninitialized),
            },
    {
        match &self.admin {
            Some(a) => Ok(a.clone()),
            None => Err(ReputationError::Uninitialized),
        }
    }

    /// Whether `caller`, authenticated or not, may act as administrator.
    pub fn is_admin(&self, caller: &Identity, authenticated: bool) -> (r: bool)
        ensures
            r == (authenticated && self.admin() == Some(caller@)),
    {
        if !authenticated {
            return false;
        }
        match &self.admin {
            Some(a) => a.same(caller),
            None => false,
        }
    }

    fn position(&self, id: &Identity) -> (r: Option<usize>)
        ensures
            match r {
                Some(i) => i < self.updaters@.len() && self.updaters@[i as int]@ == id@,
                None => !self.updaters().contains(id@),
            },
    {
        let mut i: usize = 0;
        while i < self.updaters.len()
            invariant
                i <= self.updaters@.len(),
                forall|j: int| 0 <= j < i ==> self.updaters@[j]@ != id@,
            decreases self.updaters@.len() - i,
        {
            if self.updaters[i].same(id) {
                return Some(i);
            }
            i = i + 1;
        }
        None
    }

    /// Whether `id` is an authorized updater; an identity never granted is not.
    pub fn is_updater(&self, id: &Identity) -> (r: bool)
        ensures
            r == self.updaters().contains(id@),
    {
        self.position(id).is_some()
    }

    fn grant(&mut self, target: &Identity)
        requires
            old(self).wf(),
        ensures
            final(self).wf(),
            final(self).admin() == old(self).admin(),
            final(self).admin_transfer() == old(self).admin_transfer(),
            final(self).updaters() == old(self).updaters().insert(target@),
    {
        let ghost before = self.updaters();
        let found = self.position(target);
        if found.is_none() {
            self.updaters.push(target.clone());
            proof {
                let u = self.updaters@;
                let n = old(self).updaters@.len();
                assert(u[n as int]@ == target@);
                assert forall|i: int| 0 <= i < n implies #[trigger] u[i] == old(
                    self,
                ).updaters@[i] && u[i]@ != target@ by {
                    if u[i]@ == target@ {
                        assert(before.contains(target@));
                    }
                }
                assert forall|k: Seq<u8>| #[trigger]
                    self.updaters().contains(k) <==> before.insert(target@).contains(k) by {
                    if self.updaters().contains(k) && k != target@ {
                        let j = choose|j: int| 0 <= j < u.len() && u[j]@ == k;
                        assert(j < n);
                    }
                    if before.contains(k) {
                        let j = choose|j: int| 0 <= j < n && old(self).updaters@[j]@ == k;
                        assert(u[j]@ == k);
                    }
                }
                assert(self.updaters() =~= before.insert(target@));
            }
        } else {
            assert(self.updaters() =~= before.insert(target@));
        }
    }

    fn revoke(&mut self, target: &Identity)
        requires
            old(self).wf(),
        ensures
            final(self).wf(),
            final(self).admin() == old(self).admin(),
            final(self).admin_transfer() == old(self).admin_transfer(),
            final(self).updaters() == old(self).updaters().remove(target@),
    {
        let ghost before = self.updaters();
        let found = self.position(target);
        match found {
            Some(i) => {
                self.updaters.remove(i);
                proof {
                    let u = self.updaters@;
                    let o = old(self).updaters@;
                    assert forall|k: Seq<u8>| #[trigger]
                        self.updaters().contains(k) <==> before.remove(target@).contains(
                        k,
                    ) by {
                        if self.updaters().contains(k) {
                            let j = choose|j: int| 0 <= j < u.len() && u[j]@ == k;
                            if j < i {
                                assert(u[j] == o[j]);
                            } else {
                                assert(u[j] == o[j + 1]);
                            }
                        }
                        if before.remove(target@).contains(k) {
                            let j = choose|j: int| 0 <= j < o.len() && o[j]@ == k;
                            if j < i {
                                assert(u[j] == o[j]);
                            } else {
                                assert(j != i);
                                assert(u[j - 1] == o[j]);
                            }
                        }
                    }
                    assert(self.updaters() =~= before.remove(target@));
                }
            },
            None => {
                assert(self.updaters() =~= before.remove(target@));
            },
        }
    }

    /// The administrator grants (`authorized`) or revokes the updater status of
    /// `target`. Revoking an identity that was never granted succeeds and changes
    /// nothing. A caller that is not the authenticated administrator gets
    /// `NotAdmin`, with nothing changed and no notification.
    pub fn set_updater(
        &mut self,
        admin: &Identity,
        authenticated: bool,
        target: &Identity,
        authorized: bool,
    ) -> (r: Result<UpdaterChanged, ReputationError>)
        requires
            old(self).wf(),
        ensures
            final(self).wf(),
            final(self).admin() == old(self).admin(),
            final(self).admin_transfer() == old(self).admin_transfer(),
            r is Ok <==> authenticated && old(self).admin() == Some(admin@),
            r is Ok ==> r->Ok_0.target@ == target@ && r->Ok_0.authorized == authorized,
            r is Ok && authorized ==> final(self).updaters() == old(self).updaters().insert(
                target@,
            ),
            r is Ok && !authorized ==> final(self).updaters() == old(self).updaters().remove(
                target@,
            ),
            r is Ok && !authorized && !old(self).updaters().contains(target@)
                ==> final(self).updaters() == old(self).updaters()
                && !final(self).updaters().contains(target@),
            r is Err ==> r == Err::<UpdaterChanged, _>(ReputationError::NotAdmin)
                && final(self).updaters() == old(self).updaters(),
    {
        if !self.is_admin(admin, authenticated) {
            return Err(ReputationError::NotAdmin);
        }
        if authorized {
            self.grant(target);
        } else {
            self.revoke(target);
        }
        Ok(UpdaterChanged { target: target.clone(), authorized })
    }
}

} // verus!
