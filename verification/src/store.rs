//! Storage by entity: a column of values, one cell for each entity, and on
//! top of it the store that holds the blueprints of one kind beside the
//! bundles that were stamped from them.
//!
//! Every blueprint that is attached to an entity is an instance with a life
//! of its own: it starts out not hydrated, hydration stamps its bundle and
//! marks it hydrated, and nothing leads back. An instance that is detached
//! is gone; attaching a blueprint again starts a new instance.

use vstd::prelude::*;
use crate::global::assets::{MMAView, MMA};
use crate::global::blueprints::FromBlueprint;

verus! {

/// A handle on an entity of a world. It stays the same for as long as the
/// world lasts and is never given to another entity.
#[derive(Clone, Copy, Debug, PartialEq, Eq, Hash, Structural)]
pub struct Entity {
    index: usize,
}

impl View for Entity {
    type V = int;

    closed spec fn view(&self) -> int {
        self.index as int
    }
}

impl Entity {
    /// The number of the entity.
    pub closed spec fn spec_index(self) -> usize {
        self.index
    }

    /// The entity with the given number.
    pub fn from_index(index: usize) -> (entity: Entity)
        ensures
            entity@ == index,
            entity.spec_index() == index,
    {
        Entity { index }
    }

    /// The number of the entity: entities are numbered from zero in the
    /// order in which they were spawned.
    #[verifier::when_used_as_spec(spec_index)]
    pub fn index(self) -> (index: usize)
        ensures
            index == self@,
            index == self.spec_index(),
    {
        self.index
    }
}

/// Where a blueprint instance stands in its life.
#[derive(Clone, Copy, Debug, PartialEq, Eq, Structural)]
pub enum HydrationState {
    /// Attached, and not yet expanded.
    NotHydrated,
    /// Expanded. There is no way back.
    Hydrated,
}

/// A column of values, one cell for each entity; a cell may be empty.
pub struct Column<T> {
    cells: Vec<Option<T>>,
}

impl<T: View> View for Column<T> {
    type V = Map<int, T::V>;

    closed spec fn view(&self) -> Map<int, T::V> {
        Map::new(
            |e: int| 0 <= e < self.cells@.len() && self.cells@[e] is Some,
            |e: int| self.cells@[e]->0@,
        )
    }
}

impl<T: View> Column<T> {
    /// The column with nothing in it.
    pub fn new() -> (column: Column<T>)
        ensures
            column@ == Map::<int, T::V>::empty(),
    {
        let column = Column { cells: Vec::new() };
        column
    }

    /// The value of entity `e`, if it has one.
    pub fn get(&self, e: usize) -> (value: Option<&T>)
        ensures
            value is Some <==> self@.contains_key(e as int),
            value is Some ==> value->0@ == self@[e as int],
    {
        if e < self.cells.len() {
            self.cells[e].as_ref()
        } else {
            None
        }
    }

    /// Whether entity `e` has a value.
    pub fn contains(&self, e: usize) -> (found: bool)
        ensures
            found == self@.contains_key(e as int),
    {
        e < self.cells.len() && self.cells[e].is_some()
    }

    /// Gives entity `e` the value `value`, in place of the one it had.
    pub fn insert(&mut self, e: usize, value: T)
        ensures
            final(self)@ == old(self)@.insert(e as int, value@),
    {
        while self.cells.len() <= e
            invariant
                self@ == old(self)@,
            decreases e + 1 - self.cells.len(),
        {
            self.cells.push(None);
        }
        self.cells.set(e, Some(value));
    }

    /// Takes the value of entity `e` out of the column.
    pub fn remove(&mut self, e: usize) -> (value: Option<T>)
        ensures
            final(self)@ == old(self)@.remove(e as int),
            value is Some <==> old(self)@.contains_key(e as int),
            value is Some ==> value->0@ == old(self)@[e as int],
    {
        if e < self.cells.len() {
            let mut value: Option<T> = None;
            std::mem::swap(&mut self.cells[e], &mut value);
            value
        } else {
            None
        }
    }
}

/// A blueprint on an entity, with the state of its life.
pub struct Instance<B> {
    pub blueprint: B,
    pub state: HydrationState,
}

/// An instance as contracts see it.
pub struct InstanceView<B> {
    pub blueprint: B,
    pub state: HydrationState,
}

impl<B: View> View for Instance<B> {
    type V = InstanceView<B::V>;

    open spec fn view(&self) -> InstanceView<B::V> {
        InstanceView { blueprint: self.blueprint@, state: self.state }
    }
}

/// The instance that attaching `blueprint` starts.
pub open spec fn fresh<B>(blueprint: B) -> InstanceView<B> {
    InstanceView { blueprint, state: HydrationState::NotHydrated }
}

/// The instance of `blueprint` after its hydration.
pub open spec fn done<B>(blueprint: B) -> InstanceView<B> {
    InstanceView { blueprint, state: HydrationState::Hydrated }
}

/// A store as contracts see it: the instances by entity, and the bundles by
/// entity.
pub struct BlueprintsView<B, V> {
    pub blueprints: Map<int, InstanceView<B>>,
    pub bundles: Map<int, V>,
}

impl<B, V> BlueprintsView<B, V> {
    /// The store that holds nothing.
    pub open spec fn empty() -> Self {
        BlueprintsView { blueprints: Map::empty(), bundles: Map::empty() }
    }

    /// Whether entity `e` carries an instance that is not yet hydrated.
    pub open spec fn is_pending(self, e: int) -> bool {
        self.blueprints.contains_key(e) && self.blueprints[e].state == HydrationState::NotHydrated
    }

    /// Whether no entity below `n` waits for hydration.
    pub open spec fn settled_below(self, n: nat) -> bool {
        forall|e: int| 0 <= e < n ==> !self.is_pending(e)
    }

    /// Whether the store holds nothing for an entity numbered `n` or above.
    pub open spec fn within(self, n: nat) -> bool {
        &&& forall|e: int| self.blueprints.contains_key(e) ==> 0 <= e < n
        &&& forall|e: int| self.bundles.contains_key(e) ==> 0 <= e < n
    }

    /// The entities below `n` that wait for hydration, in rising order.
    pub open spec fn pending_below(self, n: nat) -> Seq<int>
        decreases n,
    {
        if n == 0 {
            Seq::empty()
        } else if self.is_pending(n - 1) {
            self.pending_below((n - 1) as nat).push(n - 1)
        } else {
            self.pending_below((n - 1) as nat)
        }
    }
}

/// The view of the store of the bundles `T`.
pub type ViewOfStore<T> = BlueprintsView<
    <<T as FromBlueprint>::Blueprint as View>::V,
    <T as View>::V,
>;

/// What hydrating entity `e` makes of a store and a cache: where `e` waits
/// for hydration, its blueprint is stamped against the cache, the bundle
/// becomes that of `e`, and the instance is hydrated; otherwise nothing
/// changes.
pub open spec fn hydrate_one<T: FromBlueprint>(store: ViewOfStore<T>, cache: MMAView, e: int) -> (
    ViewOfStore<T>,
    MMAView,
) {
    if store.is_pending(e) {
        let blueprint = store.blueprints[e].blueprint;
        (
            BlueprintsView {
                blueprints: store.blueprints.insert(e, done(blueprint)),
                bundles: store.bundles.insert(e, T::stamped(blueprint, cache)),
            },
            T::cache_after(blueprint, cache),
        )
    } else {
        (store, cache)
    }
}

/// What hydrating the entities below `n`, in rising order, makes of a store
/// and a cache.
pub open spec fn hydrate_upto<T: FromBlueprint>(store: ViewOfStore<T>, cache: MMAView, n: nat) -> (
    ViewOfStore<T>,
    MMAView,
)
    decreases n,
{
    if n == 0 {
        (store, cache)
    } else {
        let before = hydrate_upto::<T>(store, cache, (n - 1) as nat);
        hydrate_one::<T>(before.0, before.1, n - 1)
    }
}

/// Whether entity `e` has in `after` the instance and the bundle that it has
/// in `before`, or neither in both.
pub open spec fn unchanged_at<B, V>(before: BlueprintsView<B, V>, after: BlueprintsView<B, V>, e: int) -> bool {
    &&& after.bundles.contains_key(e) == before.bundles.contains_key(e)
    &&& before.bundles.contains_key(e) ==> after.bundles[e] == before.bundles[e]
    &&& after.blueprints.contains_key(e) == before.blueprints.contains_key(e)
    &&& before.blueprints.contains_key(e) ==> after.blueprints[e] == before.blueprints[e]
}

/// Whether entity `e`, which carries a blueprint in `before`, carries it
/// hydrated in `after`, with the bundle stamped from it against `cache`.
pub open spec fn hydrated_at<T: FromBlueprint>(
    before: ViewOfStore<T>,
    cache: MMAView,
    after: ViewOfStore<T>,
    e: int,
) -> bool {
    &&& after.blueprints.contains_key(e)
    &&& after.blueprints[e] == done(before.blueprints[e].blueprint)
    &&& after.bundles.contains_key(e)
    &&& after.bundles[e] == T::stamped(before.blueprints[e].blueprint, cache)
}

/// What hydration does, entity by entity. Of the store that hydrating the
/// entities below `n` leaves: it has an instance where there was one, with
/// the same blueprint; an entity that did not wait, or is numbered `n` or
/// above, keeps its instance and its bundle as they were; one that waited
/// is hydrated and has the bundle stamped from its blueprint against the
/// cache that the entities before it left; no entity below `n` waits any
/// more; and the cache has only grown.
pub proof fn lemma_hydrate_upto<T: FromBlueprint>(store: ViewOfStore<T>, cache: MMAView, n: nat)
    ensures
        hydrate_upto::<T>(store, cache, n).0.blueprints.dom() == store.blueprints.dom(),
        forall|e: int| #[trigger]
            store.blueprints.contains_key(e) ==> hydrate_upto::<T>(
                store,
                cache,
                n,
            ).0.blueprints[e].blueprint == store.blueprints[e].blueprint,
        forall|e: int|
            e >= n || !store.is_pending(e) ==> #[trigger] unchanged_at(
                store,
                hydrate_upto::<T>(store, cache, n).0,
                e,
            ),
        forall|e: int|
            0 <= e < n && store.is_pending(e) ==> #[trigger] hydrated_at::<T>(
                store,
                hydrate_upto::<T>(store, cache, e as nat).1,
                hydrate_upto::<T>(store, cache, n).0,
                e,
            ),
        hydrate_upto::<T>(store, cache, n).0.settled_below(n),
        hydrate_upto::<T>(store, cache, n).1.extends(cache),
    decreases n,
{
    if n == 0 {
        assert(cache.meshs.take(cache.meshs.len() as int) == cache.meshs);
        assert(cache.mats.take(cache.mats.len() as int) == cache.mats);
    } else {
        let before = hydrate_upto::<T>(store, cache, (n - 1) as nat);
        let after = hydrate_upto::<T>(store, cache, n);
        lemma_hydrate_upto::<T>(store, cache, (n - 1) as nat);
        assert(unchanged_at(store, before.0, n - 1));
        if store.is_pending(n - 1) {
            let blueprint = before.0.blueprints[n - 1].blueprint;
            T::lemma_cache_grows(blueprint, before.1);
            after.1.lemma_extends_transitive(before.1, cache);
        }
        assert forall|e: int| e >= n || !store.is_pending(e) implies #[trigger] unchanged_at(
            store,
            after.0,
            e,
        ) by {
            assert(unchanged_at(store, before.0, e));
        }
        assert forall|e: int| 0 <= e < n && store.is_pending(e) implies #[trigger] hydrated_at::<T>(
            store,
            hydrate_upto::<T>(store, cache, e as nat).1,
            after.0,
            e,
        ) by {
            if e < n - 1 {
                assert(hydrated_at::<T>(
                    store,
                    hydrate_upto::<T>(store, cache, e as nat).1,
                    before.0,
                    e,
                ));
            }
        }
        assert forall|e: int| 0 <= e < n implies !after.0.is_pending(e) by {
            if e < n - 1 {
                assert(!before.0.is_pending(e));
            }
        }
    }
}

/// Where no entity below `n` waits, hydrating them changes nothing.
pub proof fn lemma_hydrate_settled<T: FromBlueprint>(store: ViewOfStore<T>, cache: MMAView, n: nat)
    requires
        store.settled_below(n),
    ensures
        hydrate_upto::<T>(store, cache, n) == (store, cache),
    decreases n,
{
    if n > 0 {
        lemma_hydrate_settled::<T>(store, cache, (n - 1) as nat);
    }
}

/// Hydrating twice is hydrating once: the second run finds no instance
/// waiting and changes nothing, neither in the store nor in the cache.
pub proof fn lemma_hydrate_twice<T: FromBlueprint>(store: ViewOfStore<T>, cache: MMAView, n: nat)
    ensures
        ({
            let once = hydrate_upto::<T>(store, cache, n);
            hydrate_upto::<T>(once.0, once.1, n) == once
        }),
{
    let once = hydrate_upto::<T>(store, cache, n);
    lemma_hydrate_upto::<T>(store, cache, n);
    lemma_hydrate_settled::<T>(once.0, once.1, n);
}

/// Hydration gives no entity a blueprint or a bundle that had neither: a
/// store that holds nothing for the entities numbered `m` or above still
/// holds nothing for them afterwards.
pub proof fn lemma_hydrate_within<T: FromBlueprint>(store: ViewOfStore<T>, cache: MMAView, n: nat, m: nat)
    requires
        store.within(m),
    ensures
        hydrate_upto::<T>(store, cache, n).0.within(m),
{
    let after = hydrate_upto::<T>(store, cache, n).0;
    lemma_hydrate_upto::<T>(store, cache, n);
    assert forall|e: int| after.bundles.contains_key(e) implies 0 <= e < m by {
        if e >= n || !store.is_pending(e) {
            assert(unchanged_at(store, after, e));
        }
    }
}

/// The entities that wait below `n` are listed in rising order, each once,
/// and each of them carries a blueprint that is not yet hydrated; no entity
/// that waits below `n` is left out.
pub proof fn lemma_pending_below<B, V>(store: BlueprintsView<B, V>, n: nat)
    ensures
        forall|i: int|
            0 <= i < store.pending_below(n).len() ==> store.is_pending(
                #[trigger] store.pending_below(n)[i],
            ) && 0 <= store.pending_below(n)[i] < n,
        forall|i: int, j: int|
            0 <= i < j < store.pending_below(n).len() ==> #[trigger] store.pending_below(n)[i]
                < #[trigger] store.pending_below(n)[j],
        forall|e: int|
            0 <= e < n && store.is_pending(e) ==> #[trigger] store.pending_below(n).contains(e),
        store.settled_below(n) ==> store.pending_below(n) == Seq::<int>::empty(),
    decreases n,
{
    if n > 0 {
        let shorter = store.pending_below((n - 1) as nat);
        let list = store.pending_below(n);
        lemma_pending_below(store, (n - 1) as nat);
        if store.is_pending(n - 1) {
            assert(list[list.len() - 1] == n - 1);
            assert forall|e: int| 0 <= e < n && store.is_pending(e) implies list.contains(e) by {
                if e < n - 1 {
                    assert(shorter.contains(e));
                    let i = choose|i: int| 0 <= i < shorter.len() && shorter[i] == e;
                    assert(list[i] == e);
                }
            }
        }
    }
}

/// The blueprints of one kind, each with the state of its life, beside the
/// bundles that hydration stamped from them.
pub struct Blueprints<T: FromBlueprint> {
    blueprints: Column<Instance<T::Blueprint>>,
    bundles: Column<T>,
}

impl<T: FromBlueprint> View for Blueprints<T> {
    type V = ViewOfStore<T>;

    closed spec fn view(&self) -> ViewOfStore<T> {
        BlueprintsView { blueprints: self.blueprints@, bundles: self.bundles@ }
    }
}

impl<T: FromBlueprint> Blueprints<T> {
    /// The store that holds nothing.
    pub fn new() -> (store: Blueprints<T>)
        ensures
            store@ == ViewOfStore::<T>::empty(),
    {
        Blueprints { blueprints: Column::new(), bundles: Column::new() }
    }

    /// Attaches `blueprint` to entity `e`. This starts a new instance, not
    /// yet hydrated, whatever `e` carried before. A bundle that `e` has
    /// from an earlier instance stays until hydration replaces it.
    pub fn attach(&mut self, e: usize, blueprint: T::Blueprint)
        ensures
            final(self)@.blueprints == old(self)@.blueprints.insert(e as int, fresh(blueprint@)),
            final(self)@.bundles == old(self)@.bundles,
    {
        self.blueprints.insert(e, Instance { blueprint, state: HydrationState::NotHydrated });
    }

    /// Detaches the blueprint of entity `e` and returns it. The instance
    /// ends here, with its state; the bundle stays.
    pub fn detach(&mut self, e: usize) -> (blueprint: Option<T::Blueprint>)
        ensures
            final(self)@.blueprints == old(self)@.blueprints.remove(e as int),
            final(self)@.bundles == old(self)@.bundles,
            blueprint is Some <==> old(self)@.blueprints.contains_key(e as int),
            blueprint is Some ==> blueprint->0@ == old(self)@.blueprints[e as int].blueprint,
    {
        match self.blueprints.remove(e) {
            Some(instance) => Some(instance.blueprint),
            None => None,
        }
    }

    /// The state of the instance on entity `e`, if it carries one.
    pub fn state(&self, e: usize) -> (state: Option<HydrationState>)
        ensures
            state == if self@.blueprints.contains_key(e as int) {
                Some(self@.blueprints[e as int].state)
            } else {
                None
            },
    {
        match self.blueprints.get(e) {
            Some(instance) => Some(instance.state),
            None => None,
        }
    }

    /// The blueprint on entity `e`, if it carries one.
    pub fn blueprint(&self, e: usize) -> (blueprint: Option<&T::Blueprint>)
        ensures
            blueprint is Some <==> self@.blueprints.contains_key(e as int),
            blueprint is Some ==> blueprint->0@ == self@.blueprints[e as int].blueprint,
    {
        match self.blueprints.get(e) {
            Some(instance) => Some(&instance.blueprint),
            None => None,
        }
    }

    /// The bundle of entity `e`, if it has one.
    pub fn bundle(&self, e: usize) -> (bundle: Option<&T>)
        ensures
            bundle is Some <==> self@.bundles.contains_key(e as int),
            bundle is Some ==> bundle->0@ == self@.bundles[e as int],
    {
        self.bundles.get(e)
    }

    /// Takes the bundle of entity `e` out of the store.
    pub fn take_bundle(&mut self, e: usize) -> (bundle: Option<T>)
        ensures
            final(self)@.blueprints == old(self)@.blueprints,
            final(self)@.bundles == old(self)@.bundles.remove(e as int),
            bundle is Some <==> old(self)@.bundles.contains_key(e as int),
            bundle is Some ==> bundle->0@ == old(self)@.bundles[e as int],
    {
        self.bundles.remove(e)
    }

    /// Gives entity `e` the bundle `bundle`, in place of the one it had.
    pub fn set_bundle(&mut self, e: usize, bundle: T)
        ensures
            final(self)@.blueprints == old(self)@.blueprints,
            final(self)@.bundles == old(self)@.bundles.insert(e as int, bundle@),
    {
        self.bundles.insert(e, bundle);
    }

    /// Hydrates the entities below `count` in rising order: each instance
    /// that is not yet hydrated is stamped, its bundle becomes the
    /// entity's, and the instance is marked hydrated. An instance that is
    /// hydrated already is passed over, so nothing is stamped twice.
    /// Returns the entities whose instance was hydrated by this call.
    pub fn hydrate(&mut self, mma: &mut MMA, count: usize) -> (fired: Vec<usize>)
        ensures
            (final(self)@, final(mma)@) == hydrate_upto::<T>(old(self)@, old(mma)@, count as nat),
            fired@.map_values(|e: usize| e as int) == old(self)@.pending_below(count as nat),
            final(self)@.settled_below(count as nat),
            old(self)@.settled_below(count as nat) ==> final(self)@ == old(self)@ && final(mma)@ == old(
                mma,
            )@,
            final(mma)@.extends(old(mma)@),
    {
        let mut fired: Vec<usize> = Vec::new();
        let mut e: usize = 0;
        while e < count
            invariant
                e <= count,
                (self@, mma@) == hydrate_upto::<T>(old(self)@, old(mma)@, e as nat),
                fired@.map_values(|e: usize| e as int) == old(self)@.pending_below(e as nat),
            decreases count - e,
        {
            proof {
                lemma_hydrate_upto::<T>(old(self)@, old(mma)@, e as nat);
            }
            let pending = match self.blueprints.get(e) {
                Some(instance) => instance.state == HydrationState::NotHydrated,
                None => false,
            };
            assert(unchanged_at(old(self)@, self@, e as int));
            if pending {
                let instance = self.blueprints.remove(e).unwrap();
                let bundle = T::stamp_from_blueprint(&instance.blueprint, mma);
                self.bundles.insert(e, bundle);
                self.blueprints.insert(
                    e,
                    Instance { blueprint: instance.blueprint, state: HydrationState::Hydrated },
                );
                fired.push(e);
                assert(self.blueprints@ =~= hydrate_upto::<T>(
                    old(self)@,
                    old(mma)@,
                    (e + 1) as nat,
                ).0.blueprints);
            }
            e = e + 1;
        }
        proof {
            lemma_hydrate_upto::<T>(old(self)@, old(mma)@, count as nat);
            if old(self)@.settled_below(count as nat) {
                lemma_hydrate_settled::<T>(old(self)@, old(mma)@, count as nat);
            }
        }
        fired
    }
}

} // verus!
