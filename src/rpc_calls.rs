//! Nonce bookkeeping for signing identities, the signer's identity, and the
//! decisions of a submission with its single retry.
use vstd::prelude::*;
use std::sync::atomic::{AtomicU32, Ordering};
use crate::{Error, LedgerErrorKind};
use crate::ffi_types::{copy_slice, has_nul, response_of};

verus! {

/// The nonce to use next: the chain's own count where the local one is
/// behind it, else one past the local count (held at `u32::MAX`).
pub open spec fn next_nonce_of(local: u32, chain_nonce: u32) -> u32 {
    if local < chain_nonce {
        chain_nonce
    } else if local < u32::MAX {
        (local + 1) as u32
    } else {
        u32::MAX
    }
}

pub fn next_nonce(local: u32, chain_nonce: u32) -> (r: u32)
    ensures
        r == next_nonce_of(local, chain_nonce),
{
    if local < chain_nonce {
        chain_nonce
    } else if local < u32::MAX {
        local + 1
    } else {
        u32::MAX
    }
}

/// Reads a shared counter once and gives the nonce that follows the value
/// read, never below the chain's count. Other threads may move the counter,
/// so which value is read is open.
pub fn get_latest_nonce(atomic_nonce: &AtomicU32, current_nonce: u32) -> (r: u32)
    ensures
        exists|local: u32| r == next_nonce_of(local, current_nonce),
        r >= current_nonce,
{
    let local = atomic_nonce.load(Ordering::Relaxed);
    next_nonce(local, current_nonce)
}

/// Raises a shared counter to the chain's count where it is behind, and
/// otherwise advances it by one.
///
/// This is not one atomic step: the load and the following swap or add are
/// separate, so two threads can see the same value in between. It makes no
/// promise about the nonces handed out; `NonceCoordinator` does not use it,
/// and is what hands out nonces for submissions.
pub fn atomic_update_nonce(atomic_nonce: &AtomicU32, current_nonce: u32) {
    if atomic_nonce.load(Ordering::Relaxed) < current_nonce {
        atomic_nonce.swap(current_nonce, Ordering::Relaxed);
    } else {
        atomic_nonce.fetch_add(1, Ordering::SeqCst);
    }
}

/// The nonce counted for one signing identity (its public key bytes).
pub struct NonceEntry {
    pub identity: Vec<u8>,
    pub next: u32,
}

/// Process-wide nonce state, keyed by signing identity. An identity with no
/// entry is not yet counted.
pub struct NonceCoordinator {
    entries: Vec<NonceEntry>,
}

/// The map that a list of entries stands for.
pub open spec fn entries_map(s: Seq<NonceEntry>) -> Map<Seq<u8>, u32>
    decreases s.len(),
{
    if s.len() == 0 {
        Map::empty()
    } else {
        entries_map(s.drop_last()).insert(s.last().identity@, s.last().next)
    }
}

pub open spec fn unique_identities(s: Seq<NonceEntry>) -> bool {
    forall|i: int, j: int|
        0 <= i < s.len() && 0 <= j < s.len() && i != j ==> s[i].identity@ != s[j].identity@
}

/// The local count after reconciling with the chain's count `c`.
pub open spec fn synced(m: Map<Seq<u8>, u32>, id: Seq<u8>, c: u32) -> Map<Seq<u8>, u32> {
    if m.contains_key(id) && m[id] > c {
        m
    } else {
        m.insert(id, c)
    }
}

/// State and nonce after one request: the pre-increment value is handed out.
/// Nothing is handed out for an identity that has no count, or whose count
/// has reached `u32::MAX`.
pub open spec fn acquired(m: Map<Seq<u8>, u32>, id: Seq<u8>) -> (Map<Seq<u8>, u32>, Option<u32>) {
    if m.contains_key(id) && m[id] < u32::MAX {
        (m.insert(id, (m[id] + 1) as u32), Some(m[id]))
    } else {
        (m, None)
    }
}

proof fn lemma_absent(s: Seq<NonceEntry>, id: Seq<u8>)
    requires
        forall|i: int| 0 <= i < s.len() ==> (#[trigger] s[i]).identity@ != id,
    ensures
        !entries_map(s).contains_key(id),
    decreases s.len(),
{
    if s.len() > 0 {
        assert(s.drop_last().len() < s.len());
        assert forall|i: int| 0 <= i < s.drop_last().len() implies (
        #[trigger] s.drop_last()[i]).identity@ != id by {
            assert(s.drop_last()[i] == s[i]);
        }
        lemma_absent(s.drop_last(), id);
        assert(s[s.len() - 1].identity@ != id);
    }
}

proof fn lemma_present(s: Seq<NonceEntry>, i: int)
    requires
        unique_identities(s),
        0 <= i < s.len(),
    ensures
        entries_map(s).contains_key(s[i].identity@),
        entries_map(s)[s[i].identity@] == s[i].next,
    decreases s.len(),
{
    if i < s.len() - 1 {
        let t = s.drop_last();
        assert(t[i] == s[i]);
        assert(unique_identities(t)) by {
            assert forall|a: int, b: int|
                0 <= a < t.len() && 0 <= b < t.len() && a != b implies t[a].identity@
                != t[b].identity@ by {
                assert(t[a] == s[a] && t[b] == s[b]);
            }
        }
        lemma_present(t, i);
        assert(s.last().identity@ != s[i].identity@);
    }
}

proof fn lemma_update(s: Seq<NonceEntry>, i: int, e: NonceEntry)
    requires
        unique_identities(s),
        0 <= i < s.len(),
        e.identity@ == s[i].identity@,
    ensures
        entries_map(s.update(i, e)) == entries_map(s).insert(e.identity@, e.next),
    decreases s.len(),
{
    let u = s.update(i, e);
    if i == s.len() - 1 {
        assert(u.drop_last() =~= s.drop_last());
        assert(entries_map(u) == entries_map(s.drop_last()).insert(e.identity@, e.next));
        assert(entries_map(s) == entries_map(s.drop_last()).insert(e.identity@, s[i].next));
        assert(entries_map(u) =~= entries_map(s).insert(e.identity@, e.next));
    } else {
        let t = s.drop_last();
        assert(unique_identities(t)) by {
            assert forall|a: int, b: int|
                0 <= a < t.len() && 0 <= b < t.len() && a != b implies t[a].identity@
                != t[b].identity@ by {
                assert(t[a] == s[a] && t[b] == s[b]);
            }
        }
        assert(t[i] == s[i]);
        lemma_update(t, i, e);
        assert(u.drop_last() =~= t.update(i, e));
        assert(u.last() == s.last());
        assert(s.last().identity@ != e.identity@);
        assert(entries_map(u) =~= entries_map(s).insert(e.identity@, e.next));
    }
}

/// Whether two byte strings are equal.
fn bytes_eq(a: &[u8], b: &[u8]) -> (r: bool)
    ensures
        r == (a@ == b@),
{
    if a.len() != b.len() {
        return false;
    }
    let mut i: usize = 0;
    while i < a.len()
        invariant
            a@.len() == b@.len(),
            i <= a@.len(),
            forall|j: int| 0 <= j < i ==> a@[j] == b@[j],
        decreases a@.len() - i,
    {
        if a[i] != b[i] {
            return false;
        }
        i = i + 1;
    }
    assert(a@ =~= b@);
    true
}

impl View for NonceCoordinator {
    type V = Map<Seq<u8>, u32>;

    closed spec fn view(&self) -> Map<Seq<u8>, u32> {
        entries_map(self.entries@)
    }
}

impl NonceCoordinator {
    pub closed spec fn wf(&self) -> bool {
        unique_identities(self.entries@)
    }

    /// A coordinator that tracks no identity yet.
    pub fn new() -> (r: NonceCoordinator)
        ensures
            r.wf(),
            r@ == Map::<Seq<u8>, u32>::empty(),
    {
        NonceCoordinator { entries: Vec::new() }
    }

    fn find(&self, identity: &[u8]) -> (r: Option<usize>)
        requires
            self.wf(),
        ensures
            match r {
                Some(i) => i < self.entries@.len() && self.entries@[i as int].identity@
                    == identity@ && self@.contains_key(identity@) && self@[identity@]
                    == self.entries@[i as int].next,
                None => !self@.contains_key(identity@) && forall|j: int|
                    0 <= j < self.entries@.len() ==> (#[trigger] self.entries@[j]).identity@
                        != identity@,
            },
    {
        let mut i: usize = 0;
        while i < self.entries.len()
            invariant
                unique_identities(self.entries@),
                i <= self.entries@.len(),
                forall|j: int| 0 <= j < i ==> (#[trigger] self.entries@[j]).identity@ != identity@,
            decreases self.entries@.len() - i,
        {
            if bytes_eq(self.entries[i].identity.as_slice(), identity) {
                proof {
                    lemma_present(self.entries@, i as int);
                }
                return Some(i);
            }
            i = i + 1;
        }
        proof {
            lemma_absent(self.entries@, identity@);
        }
        None
    }

    fn set(&mut self, identity: &[u8], value: u32)
        requires
            old(self).wf(),
        ensures
            final(self).wf(),
            final(self)@ == old(self)@.insert(identity@, value),
    {
        match self.find(identity) {
            Some(i) => {
                let e = NonceEntry { identity: self.entries[i].identity.clone(), next: value };
                proof {
                    lemma_update(self.entries@, i as int, e);
                }
                self.entries.set(i, e);
                assert(unique_identities(self.entries@)) by {
                    assert forall|a: int, b: int|
                        0 <= a < self.entries@.len() && 0 <= b < self.entries@.len() && a != b
                        implies self.entries@[a].identity@ != self.entries@[b].identity@ by {
                        assert(self.entries@[a].identity@ == old(self).entries@[a].identity@);
                        assert(self.entries@[b].identity@ == old(self).entries@[b].identity@);
                    }
                }
            },
            None => {
                let ghost before = self.entries@;
                let e = NonceEntry { identity: copy_slice(identity), next: value };
                self.entries.push(e);
                assert(self.entries@.drop_last() =~= before);
                assert(unique_identities(self.entries@)) by {
                    assert forall|a: int, b: int|
                        0 <= a < self.entries@.len() && 0 <= b < self.entries@.len() && a != b
                        implies self.entries@[a].identity@ != self.entries@[b].identity@ by {
                        if a < before.len() {
                            assert(self.entries@[a] == before[a]);
                        }
                        if b < before.len() {
                            assert(self.entries@[b] == before[b]);
                        }
                    }
                }
            },
        }
    }

    /// The local count of an identity, if any.
    pub fn local_nonce(&self, identity: &[u8]) -> (r: Option<u32>)
        requires
            self.wf(),
        ensures
            r == (if self@.contains_key(identity@) {
                Some(self@[identity@])
            } else {
                None::<u32>
            }),
    {
        match self.find(identity) {
            Some(i) => Some(self.entries[i].next),
            None => None,
        }
    }

    /// Reconciles with the chain's count `chain_nonce`: the local count
    /// becomes the larger of the two, or the chain's count where there was
    /// none.
    pub fn sync(&mut self, identity: &[u8], chain_nonce: u32)
        requires
            old(self).wf(),
        ensures
            final(self).wf(),
            final(self)@ == synced(old(self)@, identity@, chain_nonce),
    {
        match self.local_nonce(identity) {
            Some(t) => {
                if t <= chain_nonce {
                    self.set(identity, chain_nonce);
                }
            },
            None => self.set(identity, chain_nonce),
        }
    }

    /// Hands out the local count and advances it by one.
    pub fn acquire(&mut self, identity: &[u8]) -> (r: Option<u32>)
        requires
            old(self).wf(),
        ensures
            final(self).wf(),
            (final(self)@, r) == acquired(old(self)@, identity@),
    {
        match self.local_nonce(identity) {
            Some(t) => {
                if t < u32::MAX {
                    self.set(identity, t + 1);
                    Some(t)
                } else {
                    None
                }
            },
            None => None,
        }
    }

    /// After a "sequence too low" rejection: the local count becomes
    /// exactly the chain's count.
    pub fn resync(&mut self, identity: &[u8], chain_nonce: u32)
        requires
            old(self).wf(),
        ensures
            final(self).wf(),
            final(self)@ == old(self)@.insert(identity@, chain_nonce),
    {
        self.set(identity, chain_nonce);
    }
}

impl NonceCoordinator {
    /// A request's nonce: reconcile with the chain's count, then take one.
    pub fn issue(&mut self, identity: &[u8], chain_nonce: u32) -> (r: Option<u32>)
        requires
            old(self).wf(),
        ensures
            final(self).wf(),
            (final(self)@, r) == acquired(synced(old(self)@, identity@, chain_nonce), identity@),
    {
        self.sync(identity, chain_nonce);
        self.acquire(identity)
    }

    /// The nonce for the retry after a "sequence too low" rejection: reset to
    /// the chain's count, then take one.
    pub fn reissue(&mut self, identity: &[u8], chain_nonce: u32) -> (r: Option<u32>)
        requires
            old(self).wf(),
        ensures
            final(self).wf(),
            (final(self)@, r) == acquired(old(self)@.insert(identity@, chain_nonce), identity@),
    {
        self.resync(identity, chain_nonce);
        self.acquire(identity)
    }
}

/// One step that a request takes on the coordinator for one identity.
pub enum NonceOp {
    /// Reconcile with the chain's count.
    Sync(u32),
    /// Take a nonce.
    Acquire,
}

/// The state reached and the nonces handed out, in order, by a sequence of
/// steps for identity `id`.
pub open spec fn run_ops(m: Map<Seq<u8>, u32>, id: Seq<u8>, ops: Seq<NonceOp>) -> (Map<Seq<u8>, u32>, Seq<u32>)
    decreases ops.len(),
{
    if ops.len() == 0 {
        (m, Seq::empty())
    } else {
        let (m1, issued) = run_ops(m, id, ops.drop_last());
        match ops.last() {
            NonceOp::Sync(c) => (synced(m1, id, c), issued),
            NonceOp::Acquire => {
                let (m2, r) = acquired(m1, id);
                match r {
                    Some(n) => (m2, issued.push(n)),
                    None => (m2, issued),
                }
            },
        }
    }
}

/// How many steps take a nonce.
pub open spec fn acquire_count(ops: Seq<NonceOp>) -> nat
    decreases ops.len(),
{
    if ops.len() == 0 {
        0
    } else {
        acquire_count(ops.drop_last()) + if ops.last() is Acquire {
            1nat
        } else {
            0nat
        }
    }
}

/// `n` nonces counted up from `c`.
pub open spec fn consecutive(c: u32, n: nat) -> Seq<u32> {
    Seq::new(n, |k: int| (c + k) as u32)
}

proof fn lemma_run_ops(m: Map<Seq<u8>, u32>, id: Seq<u8>, c: u32, ops: Seq<NonceOp>)
    requires
        !m.contains_key(id),
        forall|i: int| 0 <= i < ops.len() && (#[trigger] ops[i]) is Sync ==> ops[i]->Sync_0 == c,
        forall|i: int|
            0 <= i < ops.len() && (#[trigger] ops[i]) is Acquire ==> exists|j: int|
                0 <= j < i && (#[trigger] ops[j]) is Sync,
        c + acquire_count(ops) <= u32::MAX,
    ensures
        (exists|j: int| 0 <= j < ops.len() && (#[trigger] ops[j]) is Sync) ==> {
            &&& run_ops(m, id, ops).0.contains_key(id)
            &&& run_ops(m, id, ops).0[id] == c + acquire_count(ops)
        },
        !(exists|j: int| 0 <= j < ops.len() && (#[trigger] ops[j]) is Sync) ==> {
            &&& !run_ops(m, id, ops).0.contains_key(id)
            &&& acquire_count(ops) == 0
        },
        run_ops(m, id, ops).1 =~= consecutive(c, acquire_count(ops)),
    decreases ops.len(),
{
    if ops.len() > 0 {
        let p = ops.drop_last();
        let last = ops.len() - 1;
        assert forall|i: int| 0 <= i < p.len() && (#[trigger] p[i]) is Sync implies p[i]->Sync_0
            == c by {
            assert(p[i] == ops[i]);
        }
        assert forall|i: int| 0 <= i < p.len() && (#[trigger] p[i]) is Acquire implies exists|
            j: int,
        | 0 <= j < i && (#[trigger] p[j]) is Sync by {
            assert(p[i] == ops[i]);
            let j = choose|j: int| 0 <= j < i && (#[trigger] ops[j]) is Sync;
            assert(p[j] == ops[j]);
        }
        lemma_run_ops(m, id, c, p);
        let k = acquire_count(p);
        if exists|j: int| 0 <= j < p.len() && (#[trigger] p[j]) is Sync {
            let j = choose|j: int| 0 <= j < p.len() && (#[trigger] p[j]) is Sync;
            assert(ops[j] == p[j]);
        } else {
            if ops[last] is Acquire {
                let j = choose|j: int| 0 <= j < last && (#[trigger] ops[j]) is Sync;
                assert(p[j] == ops[j]);
            }
            assert(ops[last] is Sync);
            assert forall|j: int| 0 <= j < ops.len() && (#[trigger] ops[j]) is Sync implies j
                == last by {
                if j < last {
                    assert(p[j] == ops[j]);
                }
            }
        }
        if exists|j: int| 0 <= j < ops.len() && (#[trigger] ops[j]) is Sync {
        } else {
            assert(ops[last] is Acquire);
            let j = choose|j: int| 0 <= j < last && (#[trigger] ops[j]) is Sync;
        }
    }
}

/// Requests for one identity that each reconcile with the same chain count
/// `c` before they take a nonce receive exactly `c, c + 1, ..., c + N - 1`,
/// each once, in whatever order their steps interleave.
pub proof fn lemma_nonces_consecutive(m: Map<Seq<u8>, u32>, id: Seq<u8>, c: u32, ops: Seq<NonceOp>)
    requires
        !m.contains_key(id),
        forall|i: int| 0 <= i < ops.len() && (#[trigger] ops[i]) is Sync ==> ops[i]->Sync_0 == c,
        forall|i: int|
            0 <= i < ops.len() && (#[trigger] ops[i]) is Acquire ==> exists|j: int|
                0 <= j < i && (#[trigger] ops[j]) is Sync,
        c + acquire_count(ops) <= u32::MAX,
    ensures
        run_ops(m, id, ops).1 == consecutive(c, acquire_count(ops)),
        run_ops(m, id, ops).1.no_duplicates(),
        run_ops(m, id, ops).1.to_set() == Set::new(
            |n: u32| c <= n < c + acquire_count(ops),
        ),
{
    lemma_run_ops(m, id, c, ops);
    let s = run_ops(m, id, ops).1;
    let n = acquire_count(ops);
    assert(s.no_duplicates());
    assert forall|x: u32| s.to_set().contains(x) <==> c <= x < c + n by {
        if c <= x < c + n {
            assert(s[x - c] == x);
        }
        if s.to_set().contains(x) {
            let i = choose|i: int| 0 <= i < s.len() && s[i] == x;
        }
    }
    assert(s.to_set() =~= Set::new(|n0: u32| c <= n0 < c + n));
}

/// What to do after a submission came back.
pub enum DispatchAction {
    /// Reconcile the nonce with the chain's count, take a fresh nonce and
    /// submit once more.
    ResyncAndResubmit,
    /// Answer the caller: a transaction identifier or the error.
    Finish(Result<String, Error>),
}

/// The decision after attempt number `attempt` (counted from 1) came back
/// with `outcome`: only a first "sequence too low" rejection is retried.
pub open spec fn dispatch_step(attempt: nat, outcome: Result<String, LedgerErrorKind>) -> DispatchAction {
    match outcome {
        Ok(tx) => DispatchAction::Finish(Ok(tx)),
        Err(kind) => if kind == LedgerErrorKind::SequenceTooLow && attempt == 1 {
            DispatchAction::ResyncAndResubmit
        } else {
            DispatchAction::Finish(Err(Error::SubxtError(kind)))
        },
    }
}

/// The answer and the number of submissions made when the attempts come back
/// with `outcomes`, in order; `None` where the outcomes run out first.
pub open spec fn dispatch_run(outcomes: Seq<Result<String, LedgerErrorKind>>, i: nat) -> (Option<Result<String, Error>>, nat)
    decreases outcomes.len() - i,
{
    if i >= outcomes.len() {
        (None, i)
    } else {
        match dispatch_step(i + 1, outcomes[i as int]) {
            DispatchAction::Finish(r) => (Some(r), i + 1),
            DispatchAction::ResyncAndResubmit => dispatch_run(outcomes, i + 1),
        }
    }
}

/// The state of one submission: how many attempts have been made.
pub struct Dispatcher {
    pub attempts: u32,
}

impl Dispatcher {
    /// A submission whose first attempt is under way.
    pub fn new() -> (r: Dispatcher)
        ensures
            r.attempts == 1,
    {
        Dispatcher { attempts: 1 }
    }

    /// Decides on the outcome of the latest attempt; counts the next attempt
    /// where there is one.
    pub fn on_result(&mut self, outcome: Result<String, LedgerErrorKind>) -> (r: DispatchAction)
        requires
            1 <= old(self).attempts <= 2,
        ensures
            r == dispatch_step(old(self).attempts as nat, outcome),
            final(self).attempts == if r is ResyncAndResubmit {
                old(self).attempts + 1
            } else {
                old(self).attempts as int
            },
            1 <= final(self).attempts <= 2,
    {
        match outcome {
            Ok(tx) => DispatchAction::Finish(Ok(tx)),
            Err(kind) => {
                if kind == LedgerErrorKind::SequenceTooLow && self.attempts == 1 {
                    self.attempts = 2;
                    DispatchAction::ResyncAndResubmit
                } else {
                    DispatchAction::Finish(Err(Error::SubxtError(kind)))
                }
            },
        }
    }
}

/// A submission that is first refused as "sequence too low" and then
/// accepted answers with the second attempt's transaction identifier, after
/// exactly two submissions; one that fails in any other way is submitted
/// exactly once and answers with that failure.
pub proof fn lemma_single_retry(outcomes: Seq<Result<String, LedgerErrorKind>>)
    requires
        outcomes.len() >= 1,
    ensures
        outcomes.len() >= 2 && outcomes[0] == Err::<String, LedgerErrorKind>(
            LedgerErrorKind::SequenceTooLow,
        ) && outcomes[1] is Ok ==> dispatch_run(outcomes, 0) == (
        Some(Ok::<String, Error>(outcomes[1]->Ok_0)),
        2nat,
        ),
        outcomes[0] is Err && outcomes[0]->Err_0 != LedgerErrorKind::SequenceTooLow ==> dispatch_run(
            outcomes,
            0,
        ) == (Some(Err::<String, Error>(Error::SubxtError(outcomes[0]->Err_0))), 1nat),
        outcomes[0] is Ok ==> dispatch_run(outcomes, 0) == (
        Some(Ok::<String, Error>(outcomes[0]->Ok_0)),
        1nat,
        ),
        dispatch_run(outcomes, 0).1 <= 2,
{
    reveal_with_fuel(dispatch_run, 3);
}

/// A request whose nonce comes from `issue` and whose first submission the
/// ledger accepts with identifier `tx` answers `{success: true, msg: tx}`
/// after one submission; the nonce is the identity's count after reconciling
/// with the chain, and the count moves past it, so no later request for the
/// identity is handed the same nonce.
pub proof fn lemma_accepted_submission(
    m: Map<Seq<u8>, u32>,
    id: Seq<u8>,
    chain_nonce: u32,
    outcomes: Seq<Result<String, LedgerErrorKind>>,
)
    requires
        outcomes.len() >= 1,
        outcomes[0] is Ok,
        !has_nul(outcomes[0]->Ok_0@),
        synced(m, id, chain_nonce)[id] < u32::MAX,
    ensures
        ({
            let (m2, n) = acquired(synced(m, id, chain_nonce), id);
            &&& n == Some(synced(m, id, chain_nonce)[id])
            &&& synced(m, id, chain_nonce)[id] >= chain_nonce
            &&& m2[id] == n->Some_0 + 1
        }),
        dispatch_run(outcomes, 0).1 == 1,
        dispatch_run(outcomes, 0).0 is Some,
        response_of(dispatch_run(outcomes, 0).0->Some_0) == (true, outcomes[0]->Ok_0@),
{
    reveal_with_fuel(dispatch_run, 2);
}

/// The public key that the sr25519 pair derived from a seed text has, where
/// the text derives one.
pub uninterp spec fn sr25519_public_of(seed: Seq<char>) -> Option<Seq<u8>>;

/// Relies on sp_core's `sr25519::Pair::from_string` (no password override)
/// and `Pair::public`: whether the text derives a pair, and which, depends on
/// the text alone.
#[verifier::external_body]
fn derive_public_key(seed: &str) -> (r: Option<Vec<u8>>)
    ensures
        r is Some <==> sr25519_public_of(seed@) is Some,
        r matches Some(k) ==> k@ == sr25519_public_of(seed@)->Some_0,
{
    <sp_core::sr25519::Pair as sp_core::Pair>::from_string(seed, None).ok().map(
        |p| sp_core::Pair::public(&p).0.to_vec(),
    )
}

/// The signing identity (public key bytes) that a signer seed stands for.
pub fn signing_identity(seed: &str) -> (r: Result<Vec<u8>, Error>)
    ensures
        match r {
            Ok(k) => sr25519_public_of(seed@) == Some(k@),
            Err(e) => e == Error::WrongSudoSeed && sr25519_public_of(seed@) is None,
        },
{
    match derive_public_key(seed) {
        Some(k) => Ok(k),
        None => Err(Error::WrongSudoSeed),
    }
}

} // verus!
