//! The credential store: an in-memory model of the authorization-token table.
//!
//! The television issues an authorization token on successful pairing. The
//! bridge keeps every token it was ever issued (history is never deleted), but
//! at most one row is *active* at a time: the one the next handshake will
//! carry. Replacing the active token is a single atomic step: every currently
//! active row is marked inactive, then the new token is appended as the active
//! row. A persistence engine that mirrors this table to disk sits outside the
//! library.

use vstd::prelude::*;

verus! {

/// Flag value of an active row (the table stores the flag with 0/1 semantics).
pub const ROW_ACTIVE: i32 = 1;

/// Flag value of an inactive row.
pub const ROW_INACTIVE: i32 = 0;

/// One stored authorization-token row: a synthetic identifier, the token
/// text, and the active flag.
pub struct ClientKey {
    pub id: i32,
    pub key: String,
    pub is_active: i32,
}

/// The token table. All rows ever inserted are kept, newest last; at most one
/// is active. Rows are numbered from 1 in insertion order.
pub struct CredentialStore {
    pub rows: Vec<ClientKey>,
}

impl CredentialStore {
    /// Well-formedness: flags are 0/1, identifiers are 1-based positions, and
    /// no two rows are active at once.
    pub open spec fn wf(self) -> bool {
        &&& forall|i: int|
            0 <= i < self.rows@.len() ==> (#[trigger] self.rows@[i].is_active == ROW_ACTIVE
                || self.rows@[i].is_active == ROW_INACTIVE)
        &&& forall|i: int| 0 <= i < self.rows@.len() ==> #[trigger] self.rows@[i].id == i + 1
        &&& forall|i: int, j: int|
            0 <= i < self.rows@.len() && 0 <= j < self.rows@.len() && i != j
                && #[trigger] self.rows@[i].is_active == ROW_ACTIVE ==> #[trigger] self.rows@[
                j
            ].is_active == ROW_INACTIVE
    }

    /// Whether some row is active.
    pub open spec fn has_active(self) -> bool {
        exists|i: int| 0 <= i < self.rows@.len() && #[trigger] self.rows@[i].is_active == ROW_ACTIVE
    }

    /// The index of the active row (meaningful only when one exists).
    pub open spec fn active_index(self) -> int {
        choose|i: int| 0 <= i < self.rows@.len() && #[trigger] self.rows@[i].is_active == ROW_ACTIVE
    }

    /// The token the next handshake should carry, if any.
    pub open spec fn spec_active(self) -> Option<Seq<char>> {
        if self.has_active() {
            Some(self.rows@[self.active_index()].key@)
        } else {
            None
        }
    }

    /// The effect of replacing the active token: `post` is `self` with every
    /// row kept under its identifier and key but deactivated, and `token`
    /// appended as the one active row.
    pub open spec fn superseded_by(self, post: CredentialStore, token: Seq<char>) -> bool {
        &&& post.wf()
        &&& post.rows@.len() == self.rows@.len() + 1
        &&& forall|i: int|
            0 <= i < self.rows@.len() ==> {
                &&& (#[trigger] post.rows@[i].id) == self.rows@[i].id
                &&& post.rows@[i].key@ == self.rows@[i].key@
                &&& post.rows@[i].is_active == ROW_INACTIVE
            }
        &&& post.rows@.last().key@ == token
        &&& post.rows@.last().is_active == ROW_ACTIVE
        &&& post.spec_active() == Some(token)
    }

    /// An empty table: no token yet, the device is in first-pairing mode.
    pub fn new() -> (s: Self)
        ensures
            s.wf(),
            s.rows@.len() == 0,
            s.spec_active() is None,
    {
        CredentialStore { rows: Vec::new() }
    }

    /// Returns the active token, or `None` when no pairing has succeeded yet.
    /// Never fails: an empty answer is the first-pairing case.
    pub fn get_active(&self) -> (r: Option<String>)
        requires
            self.wf(),
        ensures
            match r {
                Some(k) => self.spec_active() == Some(k@),
                None => self.spec_active() is None,
            },
    {
        let mut i: usize = 0;
        while i < self.rows.len()
            invariant
                self.wf(),
                i <= self.rows@.len(),
                forall|j: int| 0 <= j < i ==> #[trigger] self.rows@[j].is_active != ROW_ACTIVE,
            decreases self.rows@.len() - i,
        {
            if self.rows[i].is_active == ROW_ACTIVE {
                let k = self.rows[i].key.clone();
                proof {
                    assert(self.has_active());
                    let w = self.active_index();
                    assert(self.rows@[w].is_active == ROW_ACTIVE);
                    assert(w == i);
                }
                return Some(k);
            }
            i = i + 1;
        }
        proof {
            assert(!self.has_active());
        }
        None
    }

    /// Atomically supersedes the active token: every currently active row is
    /// marked inactive, then `token` is appended as the single active row.
    /// History is preserved: no row is removed and no key or identifier is
    /// rewritten. Returns the number of rows inserted.
    pub fn set_active(&mut self, token: String) -> (inserted: usize)
        requires
            old(self).wf(),
            old(self).rows@.len() < 2147483646,
        ensures
            inserted == 1,
            old(self).superseded_by(*final(self), token@),
    {
        let ghost orig = self.rows@;
        let n = self.rows.len();
        let mut out: Vec<ClientKey> = Vec::new();
        let mut i: usize = 0;
        while i < n
            invariant
                self.rows@ == orig,
                n == orig.len(),
                i <= n,
                out@.len() == i,
                forall|j: int| 0 <= j < i ==> (#[trigger] out@[j].id) == orig[j].id,
                forall|j: int| 0 <= j < i ==> (#[trigger] out@[j].key)@ == orig[j].key@,
                forall|j: int| 0 <= j < i ==> (#[trigger] out@[j].is_active) == ROW_INACTIVE,
            decreases n - i,
        {
            let row = &self.rows[i];
            out.push(ClientKey { id: row.id, key: row.key.clone(), is_active: ROW_INACTIVE });
            i = i + 1;
        }
        let ghost pre = out@;
        let new_id = n as i32 + 1;
        out.push(ClientKey { id: new_id, key: token, is_active: ROW_ACTIVE });
        let ghost full = out@;
        self.rows = out;
        proof {
            assert(self.rows@ == full);
            assert(full == pre.push(ClientKey { id: new_id, key: token, is_active: ROW_ACTIVE }));
            let m = n as int;
            assert(full.len() == m + 1);
            assert forall|j: int| 0 <= j < m implies {
                &&& (#[trigger] full[j].id) == orig[j].id
                &&& full[j].key@ == orig[j].key@
                &&& full[j].is_active == ROW_INACTIVE
            } by {
                assert(full[j] == pre[j]);
                assert(pre[j].id == orig[j].id);
                assert(pre[j].key@ == orig[j].key@);
                assert(pre[j].is_active == ROW_INACTIVE);
            }
            assert(full[m].is_active == ROW_ACTIVE);
            assert(full[m].key@ == token@);
            assert(old(self).wf());
            assert forall|j: int| 0 <= j < full.len() implies (#[trigger] full[j].id) == j + 1 by {
                if j < m {
                    assert(orig[j].id == j + 1);
                }
            }
            assert(self.wf());
            assert(self.has_active());
            let w = self.active_index();
            assert(self.rows@[w].is_active == ROW_ACTIVE);
            if w != m {
                assert(full[w].is_active == ROW_INACTIVE);
            }
            assert(w == m);
            assert(self.rows@.last() == full[m]);
        }
        1
    }
}

/// At most one row is ever active: in a well-formed store, two active
/// positions are the same position. Together with the contract of
/// `set_active`, this is the store invariant — any sequence of successful
/// `set_active` calls leaves exactly one active row (or zero, if none was
/// ever set).
pub proof fn lemma_at_most_one_active(s: CredentialStore, i: int, j: int)
    requires
        s.wf(),
        0 <= i < s.rows@.len(),
        0 <= j < s.rows@.len(),
        s.rows@[i].is_active == ROW_ACTIVE,
        s.rows@[j].is_active == ROW_ACTIVE,
    ensures
        i == j,
{
}

} // verus!
