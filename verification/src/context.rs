//! Lifetimes shared between threads, in the manner of Go's contexts: a
//! context can be cancelled, can expire, and dies with its ancestors.

use std::sync::atomic::{AtomicBool, Ordering};
use std::sync::Arc;
use crate::clock::{duration_nanos, elapsed, now};
use std::time::{Duration, Instant};
use vstd::prelude::*;

verus! {

/// The state of one lifetime at one moment: whether it was not cancelled,
/// whether its time to live has run out, and whether the handle of the
/// context it belongs to is still held (not dropped).
#[derive(Debug, Clone, Copy, PartialEq, Eq)]
pub struct LifetimeState {
    pub alive: bool,
    pub expired: bool,
    pub held: bool,
}

/// An ancestor keeps its descendants alive while it is neither cancelled
/// nor expired and its handle is still held.
pub open spec fn ancestor_ok(s: LifetimeState) -> bool {
    s.alive && !s.expired && s.held
}

/// A context is alive when it is neither cancelled nor expired and every
/// ancestor keeps it alive (see `ancestor_ok`). `ancestors` are the states
/// of the ancestors, nearest first.
pub open spec fn chain_alive(own: LifetimeState, ancestors: Seq<LifetimeState>) -> bool {
    &&& own.alive
    &&& !own.expired
    &&& forall|i: int| 0 <= i < ancestors.len() ==> ancestor_ok(#[trigger] ancestors[i])
}

/// Decides whether a context is alive from its own state and the states of
/// its ancestors, nearest first.
pub fn lifetime_alive(own: LifetimeState, ancestors: &Vec<LifetimeState>) -> (r: bool)
    ensures
        r == chain_alive(own, ancestors@),
{
    let mut i: usize = 0;
    while i < ancestors.len()
        invariant
            0 <= i <= ancestors@.len(),
            forall|j: int| 0 <= j < i ==> ancestor_ok(#[trigger] ancestors@[j]),
        decreases ancestors@.len() - i,
    {
        if !ancestors[i].alive || ancestors[i].expired || !ancestors[i].held {
            return false;
        }
        i += 1;
    }
    own.alive && !own.expired
}

/// The number of strong references to `h` (`Arc::strong_count`). Other
/// threads may drop theirs at any moment, so nothing is stated of it.
#[verifier::external_body]
fn holders(h: &Arc<()>) -> usize {
    Arc::strong_count(h)
}

/// The shared part of a context: when it was made, how long it may live,
/// whether it was cancelled, and a share of its context's handle (the
/// context holds the other share, so two holders mean the context's handle
/// is still held).
pub struct Lifetime {
    created: Instant,
    ttl: Option<Duration>,
    alive: AtomicBool,
    handle: Arc<()>,
}

impl Lifetime {
    fn new(ttl: Option<Duration>, handle: Arc<()>) -> (r: Self)
        ensures
            r.ttl == ttl,
    {
        Lifetime { created: now(), ttl, alive: AtomicBool::new(true), handle }
    }

    /// The state of this lifetime now.
    fn state(&self) -> (r: LifetimeState)
        ensures
            self.ttl is None ==> !r.expired,
    {
        let expired = match &self.ttl {
            Some(ttl) => {
                let passed = elapsed(&self.created);
                duration_nanos(&passed) >= duration_nanos(ttl)
            },
            None => false,
        };
        let held = holders(&self.handle) >= 2;
        LifetimeState { alive: self.alive.load(Ordering::SeqCst), expired, held }
    }
}

/// A lifetime shared between threads. Cancelling a context, letting its
/// time to live run out, or dropping it ends every context derived from
/// it; cancelling or expiry also ends the context itself. A context holds
/// the lifetimes of all its ancestors, nearest first, and its own handle,
/// which it never shares with the contexts derived from it.
pub struct Context {
    node: Arc<Lifetime>,
    handle: Arc<()>,
    ancestors: Vec<Arc<Lifetime>>,
}

impl Context {
    /// The number of ancestors the context was derived through.
    pub closed spec fn depth(&self) -> nat {
        self.ancestors@.len()
    }

    /// How long the context itself may live, if it has a limit.
    pub closed spec fn time_limit(&self) -> Option<Duration> {
        self.node.ttl
    }

    /// The lifetimes of its ancestors, nearest first.
    pub closed spec fn ancestry(&self) -> Seq<Arc<Lifetime>> {
        self.ancestors@
    }

    /// Its own lifetime, then its ancestors', nearest first.
    pub closed spec fn lineage(&self) -> Seq<Arc<Lifetime>> {
        seq![self.node].add(self.ancestors@)
    }

    /// A root context with no time limit.
    pub fn new() -> (r: Self)
        ensures
            r.depth() == 0,
            r.time_limit() is None,
    {
        let handle = Arc::new(());
        Context { node: Arc::new(Lifetime::new(None, handle.clone())), handle, ancestors: Vec::new() }
    }

    /// Ends the context, and with it every context derived from it.
    pub fn cancel(&self) {
        self.node.alive.store(false, Ordering::SeqCst)
    }

    /// A root context that ends once `ttl` has passed.
    pub fn new_with_duration(ttl: Duration) -> (r: Self)
        ensures
            r.depth() == 0,
            r.time_limit() == Some(ttl),
    {
        let handle = Arc::new(());
        Context { node: Arc::new(Lifetime::new(Some(ttl), handle.clone())), handle, ancestors: Vec::new() }
    }

    fn lineage_vec(&self) -> (r: Vec<Arc<Lifetime>>)
        ensures
            r@ == self.lineage(),
    {
        let mut v: Vec<Arc<Lifetime>> = Vec::new();
        v.push(self.node.clone());
        let mut i: usize = 0;
        while i < self.ancestors.len()
            invariant
                0 <= i <= self.ancestors@.len(),
                v@ == seq![self.node].add(self.ancestors@.take(i as int)),
            decreases self.ancestors@.len() - i,
        {
            v.push(self.ancestors[i].clone());
            proof {
                assert(self.ancestors@.take(i + 1) =~= self.ancestors@.take(i as int).push(self.ancestors@[i as int]));
            }
            i += 1;
        }
        proof {
            assert(self.ancestors@.take(i as int) =~= self.ancestors@);
        }
        v
    }

    /// A context that ends when this one ends or is dropped.
    pub fn child(&self) -> (r: Context)
        ensures
            r.depth() == self.depth() + 1,
            r.ancestry() == self.lineage(),
            r.time_limit() is None,
    {
        let handle = Arc::new(());
        Context { node: Arc::new(Lifetime::new(None, handle.clone())), handle, ancestors: self.lineage_vec() }
    }

    /// A context that ends when this one ends or is dropped, or once `ttl`
    /// has passed.
    pub fn with_duration(&self, ttl: Duration) -> (r: Context)
        ensures
            r.depth() == self.depth() + 1,
            r.ancestry() == self.lineage(),
            r.time_limit() == Some(ttl),
    {
        let handle = Arc::new(());
        Context { node: Arc::new(Lifetime::new(Some(ttl), handle.clone())), handle, ancestors: self.lineage_vec() }
    }

    /// Whether the context is alive: neither it nor any ancestor cancelled
    /// or expired, and no ancestor dropped. The answer rests on the shared
    /// flags, handles and the clock, read here one lifetime after the other
    /// and decided by `lifetime_alive`: it is that of a snapshot of the
    /// lineage (see `snapshot_alive`).
    pub fn is_alive(&self) -> (r: bool)
        ensures
            exists|snap: Seq<LifetimeState>| #[trigger] snapshot_of(snap, self.lineage()) && r == snapshot_alive(snap),
    {
        let own = self.node.state();
        let mut seen: Vec<LifetimeState> = Vec::new();
        let mut i: usize = 0;
        while i < self.ancestors.len()
            invariant
                0 <= i <= self.ancestors@.len(),
                seen@.len() == i,
                forall|j: int| 0 <= j < i ==> self.ancestors@[j].ttl is None ==> !(#[trigger] seen@[j]).expired,
            decreases self.ancestors@.len() - i,
        {
            seen.push(self.ancestors[i].state());
            i += 1;
        }
        let r = lifetime_alive(own, &seen);
        proof {
            let snap = seq![own] + seen@;
            assert(snap.skip(1) =~= seen@);
            assert(snap[0] == own);
            assert forall|j: int| 0 <= j < snap.len() && (#[trigger] self.lineage()[j]).ttl is None implies !snap[j].expired by {
                if j > 0 {
                    assert(snap[j] == seen@[j - 1]);
                    assert(self.lineage()[j] == self.ancestors@[j - 1]);
                }
            }
            assert(snapshot_of(snap, self.lineage()));
        }
        r
    }
}

/// A cancelled context is not alive, whatever its ancestors.
pub proof fn law_cancelled_is_dead(own: LifetimeState, ancestors: Seq<LifetimeState>)
    requires
        !own.alive,
    ensures
        !chain_alive(own, ancestors),
{
}

/// A context with a cancelled, expired or dropped ancestor is not alive:
/// cancelling or dropping a context ends its children and grandchildren.
pub proof fn law_dead_ancestor_kills(own: LifetimeState, ancestors: Seq<LifetimeState>, i: int)
    requires
        0 <= i < ancestors.len(),
        !ancestors[i].alive || ancestors[i].expired || !ancestors[i].held,
    ensures
        !chain_alive(own, ancestors),
{
    assert(!ancestor_ok(ancestors[i]));
}

/// An expired context is not alive.
pub proof fn law_expired_is_dead(own: LifetimeState, ancestors: Seq<LifetimeState>)
    requires
        own.expired,
    ensures
        !chain_alive(own, ancestors),
{
}

/// A context that is alive stays alive when an ancestor that keeps it
/// alive is added above the others: liveness depends on nothing else.
pub proof fn law_live_chain(own: LifetimeState, ancestors: Seq<LifetimeState>, top: LifetimeState)
    requires
        chain_alive(own, ancestors),
        ancestor_ok(top),
    ensures
        chain_alive(own, ancestors.push(top)),
{
    assert forall|i: int| 0 <= i < ancestors.push(top).len() implies ancestor_ok(#[trigger] ancestors.push(top)[i]) by {
        if i < ancestors.len() {
            assert(ancestors.push(top)[i] == ancestors[i]);
        }
    }
}

/// Whether a lineage lives, given a snapshot of the states of its
/// lifetimes at one moment (its own first, then its ancestors', nearest
/// first): its own lifetime neither cancelled nor expired, and every
/// ancestor keeping it alive.
pub open spec fn snapshot_alive(snap: Seq<LifetimeState>) -> bool {
    snap.len() > 0 && chain_alive(snap[0], snap.skip(1))
}

/// `snap` can be a snapshot of `lineage`: one state for each of its
/// lifetimes, in the same order, and none expired that has no time limit.
pub closed spec fn snapshot_of(snap: Seq<LifetimeState>, lineage: Seq<Arc<Lifetime>>) -> bool {
    &&& snap.len() == lineage.len()
    &&& forall|i: int| 0 <= i < snap.len() && (#[trigger] lineage[i]).ttl is None ==> !snap[i].expired
}

/// A derived context (`child` or `with_duration`) lives exactly while its
/// own lifetime is neither cancelled nor expired, the context it came from
/// lives, and that context's handle is held, all at the same moment: a
/// snapshot of the child's lineage is its own state and then a snapshot of
/// the parent's lineage. A child made by `child` has no time limit of its
/// own, so it lives exactly while it is not cancelled and its parent lives
/// and is held; one made by `with_duration` also dies with its own time
/// limit; dropping the parent ends the child.
pub proof fn law_child_lives_with_parent(parent: Context, child: Context, snap: Seq<LifetimeState>)
    requires
        child.ancestry() == parent.lineage(),
        snapshot_of(snap, child.lineage()),
    ensures
        snapshot_of(snap.skip(1), parent.lineage()),
        child.time_limit() is None ==> !snap[0].expired,
        snapshot_alive(snap) == (snap[0].alive && !snap[0].expired && snap[1].held && snapshot_alive(snap.skip(1))),
{
    let p = snap.skip(1);
    assert(child.lineage().len() == parent.lineage().len() + 1);
    assert(parent.lineage().len() > 0);
    assert forall|i: int| 0 <= i < p.len() && (#[trigger] parent.lineage()[i]).ttl is None implies !p[i].expired by {
        assert(child.lineage()[i + 1] == parent.lineage()[i]);
        assert(p[i] == snap[i + 1]);
    }
    assert(child.lineage()[0] == child.node);
    assert(p.skip(1) =~= snap.skip(2));
    if snapshot_alive(snap) {
        assert(ancestor_ok(snap.skip(1)[0]));
        assert forall|i: int| 0 <= i < p.skip(1).len() implies ancestor_ok(#[trigger] p.skip(1)[i]) by {
            assert(p.skip(1)[i] == snap.skip(1)[i + 1]);
        }
    }
    if snap[0].alive && !snap[0].expired && snap[1].held && snapshot_alive(p) {
        assert forall|i: int| 0 <= i < snap.skip(1).len() implies ancestor_ok(#[trigger] snap.skip(1)[i]) by {
            if i > 0 {
                assert(snap.skip(1)[i] == p.skip(1)[i - 1]);
            }
        }
    }
}

/// A context derived from another is alive only while the context it came
/// from is alive and not dropped.
pub proof fn law_live_child_has_live_parent(parent: Context, child: Context, snap: Seq<LifetimeState>)
    requires
        child.ancestry() == parent.lineage(),
        snapshot_of(snap, child.lineage()),
        snapshot_alive(snap),
    ensures
        snapshot_of(snap.skip(1), parent.lineage()),
        snapshot_alive(snap.skip(1)),
        snap[1].held,
{
    law_child_lives_with_parent(parent, child, snap);
}

} // verus!
