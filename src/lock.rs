//! The edit-lock registry: at most one lock per file, each held by one user
//! until it expires or is released. Times are milliseconds on a clock the
//! caller reads; durations are seconds.
use vstd::prelude::*;

use crate::wrappers::push_char;

verus! {

/// One lock: who holds it on which file, from when, and until when.
#[derive(Debug)]
pub struct FileLock {
    pub file_id: String,
    pub user_id: String,
    pub acquired_at: u64,
    pub expires_at: u64,
    pub duration: u64,
}

/// What a `FileLock` says, as mathematical values.
pub struct LockView {
    pub file_id: Seq<char>,
    pub user_id: Seq<char>,
    pub acquired_at: nat,
    pub expires_at: nat,
    pub duration: nat,
}

impl View for FileLock {
    type V = LockView;

    open spec fn view(&self) -> LockView {
        LockView {
            file_id: self.file_id@,
            user_id: self.user_id@,
            acquired_at: self.acquired_at as nat,
            expires_at: self.expires_at as nat,
            duration: self.duration as nat,
        }
    }
}

/// The views of a sequence of locks.
pub open spec fn lock_views(s: Seq<FileLock>) -> Seq<LockView> {
    s.map_values(|l: FileLock| l@)
}

/// The lock held on `file` among `locks`, if any.
pub open spec fn lock_for(locks: Seq<LockView>, file: Seq<char>) -> Option<LockView>
    decreases locks.len(),
{
    if locks.len() == 0 {
        None
    } else if locks.last().file_id == file {
        Some(locks.last())
    } else {
        lock_for(locks.drop_last(), file)
    }
}

/// When a lock taken at `now` for `duration_secs` seconds expires; the
/// clock's last value where that lies beyond it.
pub open spec fn expiry(now: nat, duration_secs: nat) -> nat {
    if now + duration_secs * 1000 <= u64::MAX {
        now + duration_secs * 1000
    } else {
        u64::MAX as nat
    }
}

/// Whether `lock` still holds at `now`.
pub open spec fn lock_live(lock: LockView, now: nat) -> bool {
    now < lock.expires_at
}

/// The user who holds a live lock on `file` at `now`, if any.
pub open spec fn holder_at(locks: Seq<LockView>, file: Seq<char>, now: nat) -> Option<Seq<char>> {
    match lock_for(locks, file) {
        Some(l) => if lock_live(l, now) {
            Some(l.user_id)
        } else {
            None
        },
        None => None,
    }
}

/// The lock on `file` after `user` asks for it at `now` for `duration_secs`
/// seconds, or `None` where another user holds a live lock.
pub open spec fn acquired(
    locks: Seq<LockView>,
    file: Seq<char>,
    user: Seq<char>,
    duration_secs: nat,
    now: nat,
) -> Option<LockView> {
    let fresh = LockView {
        file_id: file,
        user_id: user,
        acquired_at: now,
        expires_at: expiry(now, duration_secs),
        duration: duration_secs,
    };
    match lock_for(locks, file) {
        None => Some(fresh),
        Some(l) => if !lock_live(l, now) {
            Some(fresh)
        } else if l.user_id == user {
            Some(LockView { acquired_at: l.acquired_at, ..fresh })
        } else {
            None
        },
    }
}

/// `lock` where it is still live at `now`.
pub open spec fn live_only(lock: Option<LockView>, now: nat) -> Option<LockView> {
    match lock {
        Some(l) => if lock_live(l, now) {
            Some(l)
        } else {
            None
        },
        None => None,
    }
}

/// How long a lock taken by starting to edit lasts, in seconds.
pub const EDIT_LOCK_SECS: u64 = 300;

/// A request that the lock guard looks at.
#[derive(PartialEq, Eq, Structural, Clone, Copy, Debug)]
pub enum GuardedRequest {
    /// Saving a file.
    Save,
    /// Starting to edit a file, which takes its lock.
    Edit,
    /// Stopping to edit a file, which gives its lock up.
    Release,
}

/// What the lock guard lets happen to a request.
#[derive(Clone, Debug)]
pub enum GuardDecision {
    /// Another user holds the file's lock.
    Refuse { holder: String },
    /// The request goes on.
    Proceed,
}

/// Whether the guard refuses `request` by `user` while `holder` holds a live
/// lock on the file (if anyone does).
pub open spec fn guard_refuses(holder: Option<Seq<char>>, request: GuardedRequest, user: Seq<char>) -> bool {
    request != GuardedRequest::Release && (holder matches Some(h) && h != user)
}

/// The lock on `file` that a guarded `request` by `user` at `now` leaves,
/// starting from the lock `current` (already cleared of expired ones).
pub open spec fn guarded_lock(
    current: Option<LockView>,
    request: GuardedRequest,
    file: Seq<char>,
    user: Seq<char>,
    now: nat,
) -> Option<LockView> {
    match request {
        GuardedRequest::Save => current,
        GuardedRequest::Edit => match current {
            Some(l) => current,
            None => Some(
                LockView {
                    file_id: file,
                    user_id: user,
                    acquired_at: now,
                    expires_at: expiry(now, EDIT_LOCK_SECS as nat),
                    duration: EDIT_LOCK_SECS as nat,
                },
            ),
        },
        GuardedRequest::Release => match current {
            Some(l) => if l.user_id == user {
                None
            } else {
                current
            },
            None => None,
        },
    }
}

/// The registry of edit locks, keyed by file.
pub struct FileLockRegistry {
    locks: Vec<FileLock>,
}

/// What the registry reports of one lock.
#[derive(Clone, Debug)]
pub struct LockInfo {
    pub file_id: String,
    pub user_id: String,
    pub acquired_at: String,
    pub expires_in: String,
    pub is_expired: bool,
}

/// The text after the seconds since a lock was taken.
pub open spec fn seconds_ago_suffix() -> Seq<char> {
    " seconds ago"@
}

/// The text after the seconds a lock has left.
pub open spec fn seconds_suffix() -> Seq<char> {
    " seconds"@
}

/// The digit character for `d < 10`.
pub open spec fn digit_char(d: nat) -> char {
    ((d + 48) as u8) as char
}

/// The decimal numeral of `n`, without leading zeros.
pub open spec fn decimal(n: nat) -> Seq<char>
    decreases n,
{
    if n < 10 {
        seq![digit_char(n)]
    } else {
        decimal(n / 10).push(digit_char(n % 10))
    }
}

/// The decimal numeral of `n`.
pub fn decimal_string(n: u64) -> (r: String)
    ensures
        r@ == decimal(n as nat),
    decreases n,
{
    if n < 10 {
        let mut s = String::new();
        push_char(&mut s, ((n as u8) + 48) as char);
        assert(s@ =~= seq![digit_char(n as nat)]);
        s
    } else {
        let mut s = decimal_string(n / 10);
        push_char(&mut s, (((n % 10) as u8) + 48) as char);
        s
    }
}

impl FileLockRegistry {
    /// The locks, in the order they were taken.
    pub closed spec fn view_locks(&self) -> Seq<LockView> {
        lock_views(self.locks@)
    }

    /// No file has two locks.
    pub closed spec fn wf(&self) -> bool {
        forall|i: int, j: int|
            0 <= i < j < self.locks@.len() ==> #[trigger] self.locks@[i].file_id@
                != #[trigger] self.locks@[j].file_id@
    }

    proof fn lemma_lock_at(&self, i: int)
        requires
            self.wf(),
            0 <= i < self.locks@.len(),
        ensures
            lock_for(self.view_locks(), self.locks@[i].file_id@) == Some(self.locks@[i]@),
    {
        lemma_lock_for_index(self.view_locks(), i);
    }

    proof fn lemma_no_lock(&self, file: Seq<char>)
        requires
            forall|i: int| 0 <= i < self.locks@.len() ==> #[trigger] self.locks@[i].file_id@ != file,
        ensures
            lock_for(self.view_locks(), file) is None,
    {
        lemma_lock_for_absent(self.view_locks(), file);
    }

    fn position(&self, file_id: &String) -> (r: Option<usize>)
        ensures
            match r {
                Some(i) => i < self.locks@.len() && self.locks@[i as int].file_id@ == file_id@,
                None => forall|i: int|
                    0 <= i < self.locks@.len() ==> #[trigger] self.locks@[i].file_id@ != file_id@,
            },
    {
        let mut i: usize = 0;
        while i < self.locks.len()
            invariant
                i <= self.locks@.len(),
                forall|k: int| 0 <= k < i ==> #[trigger] self.locks@[k].file_id@ != file_id@,
            decreases self.locks.len() - i,
        {
            if self.locks[i].file_id == *file_id {
                return Some(i);
            }
            i = i + 1;
        }
        None
    }

    /// Asks for the lock on `file_id` for `user_id` at `now`, for
    /// `duration_secs` seconds. Where no live lock is held, a fresh one is
    /// installed; where `user_id` holds it, it is renewed from `now` and keeps
    /// its acquisition time; where another user holds it, nothing changes and
    /// the answer is `false`.
    pub fn try_acquire_lock(&mut self, file_id: &str, user_id: &str, duration_secs: u64, now: u64) -> (r:
        bool)
        requires
            old(self).wf(),
        ensures
            final(self).wf(),
            r == acquired(
                old(self).view_locks(),
                file_id@,
                user_id@,
                duration_secs as nat,
                now as nat,
            ) is Some,
            r ==> lock_for(final(self).view_locks(), file_id@) == acquired(
                old(self).view_locks(),
                file_id@,
                user_id@,
                duration_secs as nat,
                now as nat,
            ),
            !r ==> final(self).view_locks() == old(self).view_locks(),
            forall|g: Seq<char>|
                g != file_id@ ==> lock_for(final(self).view_locks(), g) == lock_for(
                    old(self).view_locks(),
                    g,
                ),
    {
        let file = String::from_str(file_id);
        let user = String::from_str(user_id);
        let expires_at = if duration_secs <= (u64::MAX - now) / 1000 {
            now + duration_secs * 1000
        } else {
            u64::MAX
        };
        assert(expires_at == expiry(now as nat, duration_secs as nat)) by (nonlinear_arith)
            requires
                duration_secs <= (u64::MAX - now) / 1000 ==> expires_at == now + duration_secs * 1000,
                duration_secs > (u64::MAX - now) / 1000 ==> expires_at == u64::MAX,
                now <= u64::MAX,
        ;
        let ghost before = self.view_locks();
        match self.position(&file) {
            None => {
                proof {
                    self.lemma_no_lock(file_id@);
                }
                let lock = FileLock {
                    file_id: file,
                    user_id: user,
                    acquired_at: now,
                    expires_at,
                    duration: duration_secs,
                };
                let ghost lv = lock@;
                self.locks.push(lock);
                assert(self.view_locks() =~= before.push(lv));
                assert(self.view_locks().drop_last() =~= before);
                true
            },
            Some(i) => {
                proof {
                    self.lemma_lock_at(i as int);
                }
                let acquired_at = if self.locks[i].expires_at <= now {
                    now
                } else if self.locks[i].user_id == user {
                    self.locks[i].acquired_at
                } else {
                    return false;
                };
                let lock = FileLock {
                    file_id: file,
                    user_id: user,
                    acquired_at,
                    expires_at,
                    duration: duration_secs,
                };
                let ghost lv = lock@;
                self.locks.set(i, lock);
                assert(self.view_locks() =~= before.update(i as int, lv));
                assert forall|g: Seq<char>| g != file_id@ implies lock_for(self.view_locks(), g)
                    == lock_for(before, g) by {
                    lemma_lock_for_update(before, i as int, lv, g);
                }
                proof {
                    self.lemma_lock_at(i as int);
                }
                true
            },
        }
    }

    /// Gives up the lock on `file_id` where `user_id` holds it, live or
    /// expired; answers whether a lock was removed.
    pub fn release_lock(&mut self, file_id: &str, user_id: &str) -> (r: bool)
        requires
            old(self).wf(),
        ensures
            final(self).wf(),
            r == (lock_for(old(self).view_locks(), file_id@) matches Some(l) && l.user_id
                == user_id@),
            r ==> lock_for(final(self).view_locks(), file_id@) is None,
            !r ==> final(self).view_locks() == old(self).view_locks(),
            forall|g: Seq<char>|
                g != file_id@ ==> lock_for(final(self).view_locks(), g) == lock_for(
                    old(self).view_locks(),
                    g,
                ),
    {
        let file = String::from_str(file_id);
        let user = String::from_str(user_id);
        let ghost before = self.view_locks();
        match self.position(&file) {
            None => {
                proof {
                    self.lemma_no_lock(file_id@);
                }
                false
            },
            Some(i) => {
                proof {
                    self.lemma_lock_at(i as int);
                }
                if self.locks[i].user_id == user {
                    self.locks.remove(i);
                    assert(self.view_locks() =~= before.remove(i as int));
                    assert forall|g: Seq<char>| g != file_id@ implies lock_for(
                        self.view_locks(),
                        g,
                    ) == lock_for(before, g) by {
                        lemma_lock_for_remove(before, i as int, g);
                    }
                    assert forall|k: int| 0 <= k < self.locks@.len() implies #[trigger] self.locks@[k].file_id@
                        != file_id@ by {
                        if k < i {
                            assert(self.locks@[k] == old(self).locks@[k]);
                        } else {
                            assert(self.locks@[k] == old(self).locks@[k + 1]);
                        }
                    }
                    proof {
                        self.lemma_no_lock(file_id@);
                    }
                    true
                } else {
                    false
                }
            },
        }
    }

    /// The user who holds a live lock on `file_id` at `now`, if any.
    pub fn is_file_locked(&self, file_id: &str, now: u64) -> (r: Option<String>)
        requires
            self.wf(),
        ensures
            match r {
                Some(u) => holder_at(self.view_locks(), file_id@, now as nat) == Some(u@),
                None => holder_at(self.view_locks(), file_id@, now as nat) is None,
            },
    {
        let file = String::from_str(file_id);
        match self.position(&file) {
            None => {
                proof {
                    self.lemma_no_lock(file_id@);
                }
                None
            },
            Some(i) => {
                proof {
                    self.lemma_lock_at(i as int);
                }
                if self.locks[i].expires_at <= now {
                    None
                } else {
                    Some(self.locks[i].user_id.clone())
                }
            },
        }
    }

    /// Whether `user_id` may edit `file_id` at `now`: no live lock is held
    /// on it, or `user_id` holds it.
    pub fn can_user_edit(&self, file_id: &str, user_id: &str, now: u64) -> (r: bool)
        requires
            self.wf(),
        ensures
            r == match holder_at(self.view_locks(), file_id@, now as nat) {
                Some(h) => h == user_id@,
                None => true,
            },
    {
        match self.is_file_locked(file_id, now) {
            Some(holder) => {
                let user = String::from_str(user_id);
                holder == user
            },
            None => true,
        }
    }

    /// Removes every lock that has expired at `now`; answers how many went.
    pub fn cleanup_expired_locks(&mut self, now: u64) -> (r: usize)
        requires
            old(self).wf(),
        ensures
            final(self).wf(),
            forall|g: Seq<char>|
                lock_for(final(self).view_locks(), g) == live_only(
                    lock_for(old(self).view_locks(), g),
                    now as nat,
                ),
            r == old(self).view_locks().len() - final(self).view_locks().len(),
    {
        let ghost v = self.view_locks();
        let mut kept: Vec<FileLock> = Vec::new();
        let ghost mut idx: Seq<int> = Seq::empty();
        let mut i: usize = 0;
        assert(v.subrange(0, 0) =~= Seq::<LockView>::empty());
        while i < self.locks.len()
            invariant
                self.wf(),
                v == self.view_locks(),
                i <= v.len(),
                kept@.len() <= i,
                idx.len() == kept@.len(),
                forall|k: int|
                    0 <= k < idx.len() ==> 0 <= #[trigger] idx[k] < i && kept@[k]@ == v[idx[k]],
                forall|a: int, b: int| 0 <= a < b < idx.len() ==> #[trigger] idx[a] < #[trigger] idx[b],
                forall|g: Seq<char>|
                    lock_for(lock_views(kept@), g) == live_only(
                        lock_for(v.subrange(0, i as int), g),
                        now as nat,
                    ),
            decreases self.locks.len() - i,
        {
            let ghost pre = v.subrange(0, i as int);
            let ghost kv = lock_views(kept@);
            assert(v.subrange(0, i + 1).drop_last() =~= pre);
            assert(v[i as int] == self.locks@[i as int]@);
            if self.locks[i].expires_at > now {
                let copy = FileLock {
                    file_id: self.locks[i].file_id.clone(),
                    user_id: self.locks[i].user_id.clone(),
                    acquired_at: self.locks[i].acquired_at,
                    expires_at: self.locks[i].expires_at,
                    duration: self.locks[i].duration,
                };
                kept.push(copy);
                proof {
                    idx = idx.push(i as int);
                    assert(lock_views(kept@) =~= kv.push(v[i as int]));
                    assert(lock_views(kept@).drop_last() =~= kv);
                    let pre1 = v.subrange(0, i + 1);
                    assert(pre1.last() == v[i as int]);
                    assert(pre1.drop_last() == pre);
                    assert forall|g: Seq<char>|
                        lock_for(lock_views(kept@), g) == live_only(
                            lock_for(pre1, g),
                            now as nat,
                        ) by {
                        assert(lock_for(kv, g) == live_only(lock_for(pre, g), now as nat));
                    }
                }
            } else {
                assert forall|k: int| 0 <= k < pre.len() implies #[trigger] pre[k].file_id
                    != v[i as int].file_id by {
                    assert(self.locks@[k].file_id@ != self.locks@[i as int].file_id@);
                }
                proof {
                    lemma_lock_for_absent(pre, v[i as int].file_id);
                    let pre1 = v.subrange(0, i + 1);
                    assert(pre1.last() == v[i as int]);
                    assert(pre1.drop_last() == pre);
                    assert forall|g: Seq<char>|
                        lock_for(lock_views(kept@), g) == live_only(
                            lock_for(pre1, g),
                            now as nat,
                        ) by {
                        assert(lock_for(kv, g) == live_only(lock_for(pre, g), now as nat));
                    }
                }
            }
            i = i + 1;
        }
        assert(v.subrange(0, v.len() as int) =~= v);
        let removed = self.locks.len() - kept.len();
        self.locks = kept;
        assert forall|a: int, b: int|
            0 <= a < b < self.locks@.len() implies #[trigger] self.locks@[a].file_id@
            != #[trigger] self.locks@[b].file_id@ by {
            assert(idx[a] < idx[b]);
            assert(v[idx[a]].file_id != v[idx[b]].file_id) by {
                assert(old(self).locks@[idx[a]].file_id@ != old(self).locks@[idx[b]].file_id@);
            }
        }
        removed
    }

    /// A report of every lock at `now`: its file and holder, how long ago it
    /// was taken, how long it has left, and whether it has expired.
    pub fn get_all_locks(&self, now: u64) -> (r: Vec<LockInfo>)
        requires
            self.wf(),
        ensures
            r@.len() == self.view_locks().len(),
            forall|k: int|
                0 <= k < r@.len() ==> {
                    let l = #[trigger] self.view_locks()[k];
                    &&& r@[k].file_id@ == l.file_id
                    &&& r@[k].user_id@ == l.user_id
                    &&& r@[k].is_expired == !lock_live(l, now as nat)
                    &&& r@[k].acquired_at@ == decimal(
                        if now >= l.acquired_at {
                            ((now - l.acquired_at) / 1000) as nat
                        } else {
                            0
                        },
                    ) + seconds_ago_suffix()
                    &&& r@[k].expires_in@ == decimal(
                        if l.expires_at > now {
                            ((l.expires_at - now) / 1000) as nat
                        } else {
                            0
                        },
                    ) + seconds_suffix()
                },
    {
        let mut out: Vec<LockInfo> = Vec::new();
        let mut k: usize = 0;
        while k < self.locks.len()
            invariant
                k <= self.locks@.len(),
                out@.len() == k,
                forall|m: int|
                    0 <= m < k ==> {
                        let l = #[trigger] self.view_locks()[m];
                        &&& out@[m].file_id@ == l.file_id
                        &&& out@[m].user_id@ == l.user_id
                        &&& out@[m].is_expired == !lock_live(l, now as nat)
                        &&& out@[m].acquired_at@ == decimal(
                            if now >= l.acquired_at {
                                ((now - l.acquired_at) / 1000) as nat
                            } else {
                                0
                            },
                        ) + seconds_ago_suffix()
                        &&& out@[m].expires_in@ == decimal(
                            if l.expires_at > now {
                                ((l.expires_at - now) / 1000) as nat
                            } else {
                                0
                            },
                        ) + seconds_suffix()
                    },
            decreases self.locks.len() - k,
        {
            let lock = &self.locks[k];
            let elapsed = if now >= lock.acquired_at {
                (now - lock.acquired_at) / 1000
            } else {
                0
            };
            let remaining = if lock.expires_at > now {
                (lock.expires_at - now) / 1000
            } else {
                0
            };
            let mut acquired_at = decimal_string(elapsed);
            acquired_at.append(" seconds ago");
            let mut expires_in = decimal_string(remaining);
            expires_in.append(" seconds");
            let info = LockInfo {
                file_id: lock.file_id.clone(),
                user_id: lock.user_id.clone(),
                acquired_at,
                expires_in,
                is_expired: lock.expires_at <= now,
            };
            let ghost old_out = out@;
            out.push(info);
            assert forall|m: int| 0 <= m < k implies out@[m] == old_out[m] by {}
            k = k + 1;
        }
        out
    }

    /// The guard in front of saving, starting and stopping to edit `file_id`
    /// by `user_id` at `now`. Expired locks are cleared first. A save or an
    /// edit is refused while another user holds the lock; an edit of an
    /// unlocked file takes its lock for `EDIT_LOCK_SECS` seconds; a release
    /// gives up the user's lock. Locks on other files change only by being
    /// cleared when expired.
    pub fn apply_lock_guard(
        &mut self,
        request: GuardedRequest,
        file_id: &str,
        user_id: &str,
        now: u64,
    ) -> (r: GuardDecision)
        requires
            old(self).wf(),
        ensures
            final(self).wf(),
            match r {
                GuardDecision::Refuse { holder } => request != GuardedRequest::Release && holder_at(
                    old(self).view_locks(),
                    file_id@,
                    now as nat,
                ) == Some(holder@) && holder@ != user_id@ && final(self).view_locks() == old(
                    self,
                ).view_locks(),
                GuardDecision::Proceed => !guard_refuses(
                    holder_at(old(self).view_locks(), file_id@, now as nat),
                    request,
                    user_id@,
                ) && lock_for(final(self).view_locks(), file_id@)
                    == guarded_lock(
                    live_only(lock_for(old(self).view_locks(), file_id@), now as nat),
                    request,
                    file_id@,
                    user_id@,
                    now as nat,
                ) && forall|g: Seq<char>|
                    g != file_id@ ==> lock_for(final(self).view_locks(), g) == live_only(
                        lock_for(old(self).view_locks(), g),
                        now as nat,
                    ),
            },
    {
        if request != GuardedRequest::Release {
            if let Some(holder) = self.is_file_locked(file_id, now) {
                let user = String::from_str(user_id);
                if !(holder == user) {
                    return GuardDecision::Refuse { holder };
                }
            }
        }
        let ghost before = self.view_locks();
        self.cleanup_expired_locks(now);
        match request {
            GuardedRequest::Save => {},
            GuardedRequest::Edit => {
                if self.is_file_locked(file_id, now).is_none() {
                    let taken = self.try_acquire_lock(file_id, user_id, EDIT_LOCK_SECS, now);
                    assert(taken);
                }
            },
            GuardedRequest::Release => {
                self.release_lock(file_id, user_id);
            },
        }
        GuardDecision::Proceed
    }

    /// An empty registry.
    pub fn new() -> (r: Self)
        ensures
            r.wf(),
            r.view_locks().len() == 0,
    {
        FileLockRegistry { locks: Vec::new() }
    }
}

/// A lock granted to `user` at `t_a` for `d` seconds names `user` as its
/// holder at every instant `t` before it expires: another user's request
/// then fails, and clearing expired locks keeps it.
pub proof fn lemma_lock_held_until_expiry(
    before: Seq<LockView>,
    after: Seq<LockView>,
    file: Seq<char>,
    user: Seq<char>,
    d: nat,
    t_a: nat,
    t: nat,
    other: Seq<char>,
    d_other: nat,
)
    requires
        acquired(before, file, user, d, t_a) is Some,
        lock_for(after, file) == acquired(before, file, user, d, t_a),
        t_a <= t < expiry(t_a, d),
    ensures
        holder_at(after, file, t) == Some(user),
        other != user ==> acquired(after, file, other, d_other, t) is None,
        live_only(lock_for(after, file), t) == lock_for(after, file),
{
}

/// Renewing: the holder's second request for a lock, made before it
/// expires, succeeds, keeps the acquisition time of the first, and runs
/// the new duration from the second.
pub proof fn lemma_renew_keeps_acquisition(
    before: Seq<LockView>,
    between: Seq<LockView>,
    file: Seq<char>,
    user: Seq<char>,
    d1: nat,
    t1: nat,
    d2: nat,
    t2: nat,
)
    requires
        acquired(before, file, user, d1, t1) is Some,
        lock_for(between, file) == acquired(before, file, user, d1, t1),
        t1 <= t2 < expiry(t1, d1),
    ensures
        acquired(between, file, user, d2, t2) is Some,
        acquired(between, file, user, d2, t2)->0.acquired_at == acquired(
            before,
            file,
            user,
            d1,
            t1,
        )->0.acquired_at,
        acquired(between, file, user, d2, t2)->0.expires_at == expiry(t2, d2),
{
}

proof fn lemma_lock_for_update(s: Seq<LockView>, i: int, x: LockView, g: Seq<char>)
    requires
        0 <= i < s.len(),
        x.file_id == s[i].file_id,
        g != x.file_id,
    ensures
        lock_for(s.update(i, x), g) == lock_for(s, g),
    decreases s.len(),
{
    let u = s.update(i, x);
    if i == s.len() - 1 {
        assert(u.drop_last() =~= s.drop_last());
    } else {
        assert(u.drop_last() =~= s.drop_last().update(i, x));
        lemma_lock_for_update(s.drop_last(), i, x, g);
    }
}

proof fn lemma_lock_for_remove(s: Seq<LockView>, i: int, g: Seq<char>)
    requires
        0 <= i < s.len(),
        g != s[i].file_id,
    ensures
        lock_for(s.remove(i), g) == lock_for(s, g),
    decreases s.len(),
{
    let u = s.remove(i);
    if i == s.len() - 1 {
        assert(u =~= s.drop_last());
    } else {
        assert(u.drop_last() =~= s.drop_last().remove(i));
        assert(u.last() == s.last());
        lemma_lock_for_remove(s.drop_last(), i, g);
    }
}

proof fn lemma_lock_for_index(s: Seq<LockView>, i: int)
    requires
        0 <= i < s.len(),
        forall|a: int, b: int| 0 <= a < b < s.len() ==> #[trigger] s[a].file_id != #[trigger] s[b].file_id,
    ensures
        lock_for(s, s[i].file_id) == Some(s[i]),
    decreases s.len(),
{
    if i < s.len() - 1 {
        assert(s.last().file_id != s[i].file_id);
        lemma_lock_for_index(s.drop_last(), i);
    }
}

proof fn lemma_lock_for_absent(s: Seq<LockView>, file: Seq<char>)
    requires
        forall|i: int| 0 <= i < s.len() ==> #[trigger] s[i].file_id != file,
    ensures
        lock_for(s, file) is None,
    decreases s.len(),
{
    if s.len() > 0 {
        lemma_lock_for_absent(s.drop_last(), file);
    }
}

} // verus!
