//! When a curve is tessellated again.
//!
//! A resource of a plot (the mesh of one of its curves, or the instance
//! buffer of its markers) is either idle, and then what was built for it may
//! be read, or it waits to be rebuilt, and then what was built is stale.
//! Nothing is patched: a rebuild replaces the whole resource. Requests do
//! not queue up: a resource that already waits keeps waiting, once.

use vstd::prelude::*;

verus! {

/// Whether a resource is up to date.
#[derive(Clone, Copy, Debug, PartialEq, Eq, Structural)]
pub enum RebuildState {
    /// What was built is current.
    Idle,
    /// What was built is stale and must not be read.
    PendingRebuild,
}

/// What can make a resource stale.
#[derive(Clone, Copy, Debug, PartialEq, Eq, Structural)]
pub enum Trigger {
    /// Thickness, color or line style changed.
    StyleChanged,
    /// A frame went by. It counts only for animated resources.
    AnimationTick,
    /// The number of samples changed.
    SampleCountChanged,
    /// The domain of the curve changed.
    DomainChanged,
}

/// Names a resource of a plot.
#[derive(Clone, Copy, Debug, PartialEq, Eq, Hash, Structural)]
pub struct Target {
    /// The number of the plot.
    pub plot: u64,
    /// The number of the resource within the plot: of a curve, its place
    /// among the curves of the plot.
    pub index: usize,
}

/// What a registry holds for one target.
#[derive(Debug)]
pub struct Slot<T> {
    pub state: RebuildState,
    /// The animation flag of the resource's style.
    pub animated: bool,
    /// What the last rebuild produced.
    pub content: Option<T>,
}

/// Whether `cause` makes a resource stale. Everything does, but a frame
/// that goes by for a resource that is not animated.
pub open spec fn fires(cause: Trigger, animated: bool) -> bool {
    cause is AnimationTick ==> animated
}

/// The state after `cause`: waiting when the cause fires, unchanged
/// otherwise. A resource that already waits keeps waiting.
pub open spec fn after_trigger(state: RebuildState, cause: Trigger, animated: bool) -> RebuildState {
    if fires(cause, animated) {
        RebuildState::PendingRebuild
    } else {
        state
    }
}

/// A slot after a frame went by.
pub open spec fn ticked<T>(slot: Slot<T>) -> Slot<T> {
    Slot {
        state: after_trigger(slot.state, Trigger::AnimationTick, slot.animated),
        animated: slot.animated,
        content: slot.content,
    }
}

/// What a renderer may read of a slot: what was built, as long as the slot is idle.
pub open spec fn readable<T>(slot: Slot<T>) -> Option<T> {
    match slot.state {
        RebuildState::Idle => slot.content,
        RebuildState::PendingRebuild => None,
    }
}

/// The transition function of a resource's state.
pub fn step(state: RebuildState, cause: Trigger, animated: bool) -> (next: RebuildState)
    ensures
        next == after_trigger(state, cause, animated),
{
    match cause {
        Trigger::AnimationTick => if animated {
            RebuildState::PendingRebuild
        } else {
            state
        },
        _ => RebuildState::PendingRebuild,
    }
}

/// Two causes in a row leave the state that either alone would leave, if it
/// fires: nothing queues up.
pub proof fn lemma_triggers_do_not_queue(state: RebuildState, first: Trigger, second: Trigger, animated: bool)
    ensures
        after_trigger(after_trigger(state, first, animated), second, animated) == if fires(
            first,
            animated,
        ) || fires(second, animated) {
            RebuildState::PendingRebuild
        } else {
            state
        },
        after_trigger(RebuildState::PendingRebuild, second, animated)
            == RebuildState::PendingRebuild,
{
}

/// A cause that fires hides what was built, whatever the state was: the
/// renderer reads nothing of a resource until it is rebuilt.
pub proof fn lemma_stale_content_is_not_read<T>(slot: Slot<T>, cause: Trigger)
    requires
        fires(cause, slot.animated),
    ensures
        readable(
            Slot {
                state: after_trigger(slot.state, cause, slot.animated),
                animated: slot.animated,
                content: slot.content,
            },
        ) is None,
{
}

/// Resources are rebuilt independently: whatever two different targets are
/// set to, the registry ends up the same in either order.
pub proof fn lemma_rebuilds_commute<T>(
    registry: Map<Target, Slot<T>>,
    one: Target,
    built: Slot<T>,
    other: Target,
    also_built: Slot<T>,
)
    requires
        one != other,
    ensures
        registry.insert(one, built).insert(other, also_built) == registry.insert(
            other,
            also_built,
        ).insert(one, built),
{
    assert(registry.insert(one, built).insert(other, also_built) =~= registry.insert(
        other,
        also_built,
    ).insert(one, built));
}

struct Entry<T> {
    target: Target,
    slot: Slot<T>,
}

spec fn distinct<T>(entries: Seq<Entry<T>>) -> bool {
    forall|i: int, j: int|
        0 <= i < j < entries.len() ==> (#[trigger] entries[i]).target != (#[trigger] entries[j]).target
}

spec fn holds<T>(entries: Seq<Entry<T>>, target: Target) -> bool {
    exists|i: int| 0 <= i < entries.len() && (#[trigger] entries[i]).target == target
}

spec fn place<T>(entries: Seq<Entry<T>>, target: Target) -> int {
    choose|i: int| 0 <= i < entries.len() && (#[trigger] entries[i]).target == target
}

spec fn as_map<T>(entries: Seq<Entry<T>>) -> Map<Target, Slot<T>> {
    Map::new(|t: Target| holds(entries, t), |t: Target| entries[place(entries, t)].slot)
}

proof fn lemma_at<T>(entries: Seq<Entry<T>>, i: int)
    requires
        distinct(entries),
        0 <= i < entries.len(),
    ensures
        holds(entries, entries[i].target),
        place(entries, entries[i].target) == i,
        as_map(entries).contains_key(entries[i].target),
        as_map(entries)[entries[i].target] == entries[i].slot,
{
    let t = entries[i].target;
    assert(holds(entries, t));
    let p = place(entries, t);
    assert(0 <= p < entries.len() && entries[p].target == t);
    if p < i {
        assert(entries[p].target != entries[i].target);
    } else if i < p {
        assert(entries[i].target != entries[p].target);
    }
}

proof fn lemma_same_targets<T>(before: Seq<Entry<T>>, now: Seq<Entry<T>>)
    requires
        distinct(before),
        before.len() == now.len(),
        forall|i: int| 0 <= i < before.len() ==> (#[trigger] now[i]).target == before[i].target,
    ensures
        distinct(now),
        as_map(now).dom() == as_map(before).dom(),
        forall|t: Target| #[trigger] holds(before, t) ==> place(now, t) == place(before, t),
{
    assert forall|i: int, j: int| 0 <= i < j < now.len() implies (#[trigger] now[i]).target != (
    #[trigger] now[j]).target by {
        assert(before[i].target != before[j].target);
    }
    assert forall|t: Target| holds(before, t) <==> holds(now, t) by {
        if holds(before, t) {
            let p = place(before, t);
            assert(now[p].target == t);
        }
        if holds(now, t) {
            let p = place(now, t);
            assert(before[p].target == now[p].target);
        }
    }
    assert(as_map(now).dom() =~= as_map(before).dom());
    assert forall|t: Target| #[trigger] holds(before, t) implies place(now, t) == place(
        before,
        t,
    ) by {
        let p = place(before, t);
        assert(now[p].target == t);
        lemma_at(now, p);
    }
}

proof fn lemma_replaced<T>(before: Seq<Entry<T>>, now: Seq<Entry<T>>, i: int)
    requires
        distinct(before),
        0 <= i < before.len(),
        before.len() == now.len(),
        now[i].target == before[i].target,
        forall|j: int| 0 <= j < before.len() && j != i ==> #[trigger] now[j] == before[j],
    ensures
        distinct(now),
        as_map(now) == as_map(before).insert(before[i].target, now[i].slot),
{
    lemma_same_targets(before, now);
    let want = as_map(before).insert(before[i].target, now[i].slot);
    lemma_at(before, i);
    assert forall|t: Target| as_map(now).contains_key(t) implies #[trigger] as_map(now)[t]
        == want[t] by {
        assert(holds(before, t));
        let p = place(before, t);
        if p == i {
        } else {
            assert(now[p] == before[p]);
        }
    }
    assert(as_map(now) =~= want);
}

proof fn lemma_pushed<T>(before: Seq<Entry<T>>, entry: Entry<T>)
    requires
        distinct(before),
        !holds(before, entry.target),
    ensures
        distinct(before.push(entry)),
        as_map(before.push(entry)) == as_map(before).insert(entry.target, entry.slot),
{
    let now = before.push(entry);
    assert forall|i: int, j: int| 0 <= i < j < now.len() implies (#[trigger] now[i]).target != (
    #[trigger] now[j]).target by {
        if j == before.len() {
            assert(before[i].target != entry.target);
        } else {
            assert(before[i].target != before[j].target);
        }
    }
    let want = as_map(before).insert(entry.target, entry.slot);
    assert forall|t: Target| holds(now, t) <==> (t == entry.target || holds(before, t)) by {
        if holds(now, t) {
            let p = place(now, t);
            if p < before.len() {
                assert(before[p].target == t);
            }
        }
        if holds(before, t) {
            let p = place(before, t);
            assert(now[p].target == t);
        }
        if t == entry.target {
            assert(now[before.len() as int].target == t);
        }
    }
    assert(as_map(now).dom() =~= want.dom());
    assert forall|t: Target| as_map(now).contains_key(t) implies #[trigger] as_map(now)[t]
        == want[t] by {
        if t == entry.target {
            lemma_at(now, before.len() as int);
        } else {
            let p = place(before, t);
            assert(now[p] == before[p]);
            lemma_at(now, p);
        }
    }
    assert(as_map(now) =~= want);
}

/// The resources of all plots, each with its state and with what was last
/// built for it.
pub struct Registry<T> {
    entries: Vec<Entry<T>>,
}

impl<T> View for Registry<T> {
    type V = Map<Target, Slot<T>>;

    closed spec fn view(&self) -> Map<Target, Slot<T>> {
        as_map(self.entries@)
    }
}

impl<T> Registry<T> {
    #[verifier::type_invariant]
    spec fn inv(self) -> bool {
        distinct(self.entries@)
    }

    /// A registry without resources.
    pub fn new() -> (registry: Self)
        ensures
            registry@ == Map::<Target, Slot<T>>::empty(),
    {
        let registry = Registry { entries: Vec::new() };
        assert(registry@ =~= Map::<Target, Slot<T>>::empty());
        registry
    }

    fn find(&self, target: Target) -> (r: Option<usize>)
        ensures
            r matches Some(i) ==> i < self.entries@.len() && self.entries@[i as int].target
                == target,
            r is None ==> !holds(self.entries@, target),
            r is Some <==> self@.contains_key(target),
    {
        let mut i: usize = 0;
        while i < self.entries.len()
            invariant
                i <= self.entries@.len(),
                forall|j: int| 0 <= j < i ==> (#[trigger] self.entries@[j]).target != target,
            decreases self.entries@.len() - i,
        {
            if self.entries[i].target == target {
                return Some(i);
            }
            i = i + 1;
        }
        None
    }

    /// Whether `target` is registered.
    pub fn contains(&self, target: Target) -> (known: bool)
        ensures
            known == self@.contains_key(target),
    {
        self.find(target).is_some()
    }

    /// Registers a resource. Nothing was built for it yet, so it waits to be
    /// built. A target that is registered already is left as it is.
    pub fn register(&mut self, target: Target, animated: bool) -> (added: bool)
        ensures
            added == !old(self)@.contains_key(target),
            added ==> final(self)@ == old(self)@.insert(
                target,
                Slot { state: RebuildState::PendingRebuild, animated, content: None },
            ),
            !added ==> final(self)@ == old(self)@,
    {
        proof {
            use_type_invariant(&*self);
        }
        if self.find(target).is_some() {
            return false;
        }
        let entry = Entry {
            target,
            slot: Slot { state: RebuildState::PendingRebuild, animated, content: None },
        };
        proof {
            lemma_pushed(self.entries@, entry);
        }
        let mut entries: Vec<Entry<T>> = Vec::new();
        std::mem::swap(&mut entries, &mut self.entries);
        entries.push(entry);
        self.entries = entries;
        true
    }

    /// Sets the animation flag of a resource's style. An unknown target is
    /// ignored.
    pub fn set_animated(&mut self, target: Target, animated: bool) -> (known: bool)
        ensures
            known == old(self)@.contains_key(target),
            known ==> final(self)@ == old(self)@.insert(
                target,
                Slot {
                    state: old(self)@[target].state,
                    animated,
                    content: old(self)@[target].content,
                },
            ),
            !known ==> final(self)@ == old(self)@,
    {
        proof {
            use_type_invariant(&*self);
        }
        match self.find(target) {
            None => false,
            Some(i) => {
                let mut entries: Vec<Entry<T>> = Vec::new();
                std::mem::swap(&mut entries, &mut self.entries);
                let ghost before = entries@;
                entries[i].slot.animated = animated;
                proof {
                    lemma_at(before, i as int);
                    lemma_replaced(before, entries@, i as int);
                }
                self.entries = entries;
                true
            },
        }
    }

    /// Tells the registry that `cause` happened to a resource. An unknown
    /// target is ignored.
    pub fn notify(&mut self, target: Target, cause: Trigger) -> (known: bool)
        ensures
            known == old(self)@.contains_key(target),
            known ==> final(self)@ == old(self)@.insert(
                target,
                Slot {
                    state: after_trigger(
                        old(self)@[target].state,
                        cause,
                        old(self)@[target].animated,
                    ),
                    animated: old(self)@[target].animated,
                    content: old(self)@[target].content,
                },
            ),
            !known ==> final(self)@ == old(self)@,
    {
        proof {
            use_type_invariant(&*self);
        }
        match self.find(target) {
            None => false,
            Some(i) => {
                let mut entries: Vec<Entry<T>> = Vec::new();
                std::mem::swap(&mut entries, &mut self.entries);
                let ghost before = entries@;
                let next = step(entries[i].slot.state, cause, entries[i].slot.animated);
                entries[i].slot.state = next;
                proof {
                    lemma_at(before, i as int);
                    lemma_replaced(before, entries@, i as int);
                }
                self.entries = entries;
                true
            },
        }
    }

    /// A frame went by: every animated resource waits to be rebuilt.
    pub fn tick(&mut self)
        ensures
            final(self)@ == old(self)@.map_values(|slot: Slot<T>| ticked(slot)),
    {
        proof {
            use_type_invariant(&*self);
        }
        let mut entries: Vec<Entry<T>> = Vec::new();
        std::mem::swap(&mut entries, &mut self.entries);
        let ghost before = entries@;
        let n: usize = entries.len();
        let mut k: usize = 0;
        while k < n
            invariant
                n == before.len(),
                entries@.len() == n,
                k <= n,
                forall|i: int| 0 <= i < n ==> (#[trigger] entries@[i]).target == before[i].target,
                forall|i: int| 0 <= i < k ==> (#[trigger] entries@[i]).slot == ticked(before[i].slot),
                forall|i: int| k <= i < n ==> #[trigger] entries@[i] == before[i],
            decreases n - k,
        {
            let next = step(entries[k].slot.state, Trigger::AnimationTick, entries[k].slot.animated);
            entries[k].slot.state = next;
            k = k + 1;
        }
        proof {
            lemma_same_targets(before, entries@);
            let want = as_map(before).map_values(|slot: Slot<T>| ticked(slot));
            assert(as_map(entries@).dom() =~= want.dom());
            assert forall|t: Target| as_map(entries@).contains_key(t) implies #[trigger] as_map(
                entries@,
            )[t] == want[t] by {
                assert(holds(before, t));
            }
            assert(as_map(entries@) =~= want);
        }
        self.entries = entries;
    }

    /// The targets that wait to be rebuilt, each once.
    pub fn pending(&self) -> (targets: Vec<Target>)
        ensures
            targets@.no_duplicates(),
            forall|t: Target|
                targets@.contains(t) <==> self@.contains_key(t) && self@[t].state
                    == RebuildState::PendingRebuild,
    {
        proof {
            use_type_invariant(self);
        }
        let mut targets: Vec<Target> = Vec::new();
        let ghost mut from: Seq<int> = Seq::empty();
        let n: usize = self.entries.len();
        let mut k: usize = 0;
        while k < n
            invariant
                n == self.entries@.len(),
                k <= n,
                distinct(self.entries@),
                from.len() == targets@.len(),
                forall|j: int|
                    0 <= j < from.len() ==> 0 <= #[trigger] from[j] < k && targets@[j]
                        == self.entries@[from[j]].target && self.entries@[from[j]].slot.state
                        == RebuildState::PendingRebuild,
                forall|a: int, b: int| 0 <= a < b < from.len() ==> from[a] < from[b],
                forall|i: int|
                    0 <= i < k && (#[trigger] self.entries@[i]).slot.state
                        == RebuildState::PendingRebuild ==> targets@.contains(
                        self.entries@[i].target,
                    ),
            decreases n - k,
        {
            match self.entries[k].slot.state {
                RebuildState::PendingRebuild => {
                    let ghost earlier = targets@;
                    targets.push(self.entries[k].target);
                    proof {
                        from = from.push(k as int);
                        assert forall|i: int|
                            0 <= i < k + 1 && (#[trigger] self.entries@[i]).slot.state
                                == RebuildState::PendingRebuild implies targets@.contains(
                            self.entries@[i].target,
                        ) by {
                            if i < k {
                                let j = choose|j: int|
                                    0 <= j < earlier.len() && earlier[j] == self.entries@[i].target;
                                assert(targets@[j] == self.entries@[i].target);
                            } else {
                                assert(targets@[earlier.len() as int] == self.entries@[i].target);
                            }
                        }
                    }
                },
                RebuildState::Idle => {},
            }
            k = k + 1;
        }
        proof {
            assert forall|a: int, b: int| 0 <= a < targets@.len() && 0 <= b < targets@.len() && a
                != b implies targets@[a] != targets@[b] by {
                if a < b {
                    assert(self.entries@[from[a]].target != self.entries@[from[b]].target);
                } else {
                    assert(self.entries@[from[b]].target != self.entries@[from[a]].target);
                }
            }
            assert forall|t: Target|
                targets@.contains(t) <==> self@.contains_key(t) && self@[t].state
                    == RebuildState::PendingRebuild by {
                if targets@.contains(t) {
                    let j = choose|j: int| 0 <= j < targets@.len() && targets@[j] == t;
                    lemma_at(self.entries@, from[j]);
                }
                if self@.contains_key(t) && self@[t].state == RebuildState::PendingRebuild {
                    let p = place(self.entries@, t);
                    assert(self.entries@[p].target == t);
                }
            }
        }
        targets
    }

    /// The state of a resource, if it is registered.
    pub fn state(&self, target: Target) -> (r: Option<RebuildState>)
        ensures
            r == if self@.contains_key(target) {
                Some(self@[target].state)
            } else {
                None
            },
    {
        proof {
            use_type_invariant(self);
        }
        match self.find(target) {
            None => None,
            Some(i) => {
                proof {
                    lemma_at(self.entries@, i as int);
                }
                Some(self.entries[i].slot.state)
            },
        }
    }

    /// What was built for a resource, as long as it is current: nothing
    /// while the resource waits to be rebuilt, nothing for an unknown target.
    pub fn get(&self, target: Target) -> (r: Option<&T>)
        ensures
            match r {
                Some(content) => self@.contains_key(target) && readable(self@[target]) == Some(
                    *content,
                ),
                None => !self@.contains_key(target) || readable(self@[target]) is None,
            },
    {
        proof {
            use_type_invariant(self);
        }
        match self.find(target) {
            None => None,
            Some(i) => {
                proof {
                    lemma_at(self.entries@, i as int);
                }
                match self.entries[i].slot.state {
                    RebuildState::PendingRebuild => None,
                    RebuildState::Idle => self.entries[i].slot.content.as_ref(),
                }
            },
        }
    }

    /// A rebuild is done: `content` replaces whatever was built before, and
    /// the resource is idle. For an unknown target nothing is stored.
    pub fn complete(&mut self, target: Target, content: T) -> (known: bool)
        ensures
            known == old(self)@.contains_key(target),
            known ==> final(self)@ == old(self)@.insert(
                target,
                Slot {
                    state: RebuildState::Idle,
                    animated: old(self)@[target].animated,
                    content: Some(content),
                },
            ),
            !known ==> final(self)@ == old(self)@,
    {
        proof {
            use_type_invariant(&*self);
        }
        match self.find(target) {
            None => false,
            Some(i) => {
                let mut entries: Vec<Entry<T>> = Vec::new();
                std::mem::swap(&mut entries, &mut self.entries);
                let ghost before = entries@;
                entries[i].slot.state = RebuildState::Idle;
                entries[i].slot.content = Some(content);
                proof {
                    lemma_at(before, i as int);
                    lemma_replaced(before, entries@, i as int);
                }
                self.entries = entries;
                true
            },
        }
    }

    /// A rebuild was refused: what was built before stays, and the resource
    /// is idle until the next trigger. An unknown target is ignored.
    pub fn fail(&mut self, target: Target) -> (known: bool)
        ensures
            known == old(self)@.contains_key(target),
            known ==> final(self)@ == old(self)@.insert(
                target,
                Slot {
                    state: RebuildState::Idle,
                    animated: old(self)@[target].animated,
                    content: old(self)@[target].content,
                },
            ),
            !known ==> final(self)@ == old(self)@,
    {
        proof {
            use_type_invariant(&*self);
        }
        match self.find(target) {
            None => false,
            Some(i) => {
                let mut entries: Vec<Entry<T>> = Vec::new();
                std::mem::swap(&mut entries, &mut self.entries);
                let ghost before = entries@;
                entries[i].slot.state = RebuildState::Idle;
                proof {
                    lemma_at(before, i as int);
                    lemma_replaced(before, entries@, i as int);
                }
                self.entries = entries;
                true
            },
        }
    }

    /// Discards what was built for a resource. Its state stays. An unknown
    /// target is ignored.
    pub fn clear(&mut self, target: Target) -> (known: bool)
        ensures
            known == old(self)@.contains_key(target),
            known ==> final(self)@ == old(self)@.insert(
                target,
                Slot {
                    state: old(self)@[target].state,
                    animated: old(self)@[target].animated,
                    content: None,
                },
            ),
            !known ==> final(self)@ == old(self)@,
    {
        proof {
            use_type_invariant(&*self);
        }
        match self.find(target) {
            None => false,
            Some(i) => {
                let mut entries: Vec<Entry<T>> = Vec::new();
                std::mem::swap(&mut entries, &mut self.entries);
                let ghost before = entries@;
                entries[i].slot.content = None;
                proof {
                    lemma_at(before, i as int);
                    lemma_replaced(before, entries@, i as int);
                }
                self.entries = entries;
                true
            },
        }
    }
}

} // verus!
