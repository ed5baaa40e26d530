//! The pipeline of one tick: the phases in their fixed order, the systems
//! that were declared for them, and the check that no two systems of one
//! phase may touch the same data in an order that nobody has fixed.
//!
//! A pipeline is built once, before the first tick. Building fails if two
//! systems of the same phase have conflicting access to some data and no
//! declared order between them. What is built lists the systems in the
//! order in which a tick runs them.

use vstd::prelude::*;
use crate::global::GlobalSystemSet;
use crate::physics::PhysicsSet;

verus! {

/// The phases of a tick, with the two boundaries to the network: what was
/// received is flushed into the world before anything else runs, and what
/// is to be sent goes out after everything else has run.
#[derive(Hash, Debug, PartialEq, Eq, Clone, Copy, Structural)]
pub enum Phase {
    /// Flushes what the network has delivered into the world.
    Receive,
    /// One-time setup of the world.
    WorldCreation,
    /// Turns the players' input into motion intents.
    PlayerMovement,
    /// One step of the physics phase.
    Physics(PhysicsSet),
    /// Runs the gameplay rules; the only phase that a rollback runs again.
    ExecuteGameLogic,
    /// Expands blueprints into local state.
    BlueprintExpansion,
    /// Pushes the authoritative state to the subscribers.
    Send,
}

/// How many places the order of phases has.
pub const PHASE_COUNT: u8 = 9;

impl Phase {
    /// The place of the phase in a tick, from zero.
    pub open spec fn spec_rank(self) -> nat {
        match self {
            Phase::Receive => 0,
            Phase::WorldCreation => 1,
            Phase::PlayerMovement => 2,
            Phase::Physics(step) => 3 + step.spec_rank(),
            Phase::ExecuteGameLogic => 6,
            Phase::BlueprintExpansion => 7,
            Phase::Send => 8,
        }
    }

    /// The place of the phase in a tick, from zero.
    pub fn rank(self) -> (r: u8)
        ensures
            r == self.spec_rank(),
            r < PHASE_COUNT,
    {
        match self {
            Phase::Receive => 0,
            Phase::WorldCreation => 1,
            Phase::PlayerMovement => 2,
            Phase::Physics(step) => 3 + step.rank(),
            Phase::ExecuteGameLogic => 6,
            Phase::BlueprintExpansion => 7,
            Phase::Send => 8,
        }
    }

    /// The global set that the phase belongs to; the two boundaries to the
    /// network belong to none.
    pub open spec fn spec_global(self) -> Option<GlobalSystemSet> {
        match self {
            Phase::Receive => None,
            Phase::WorldCreation => Some(GlobalSystemSet::WorldCreation),
            Phase::PlayerMovement => Some(GlobalSystemSet::PlayerMovement),
            Phase::Physics(_) => Some(GlobalSystemSet::RawPhysics),
            Phase::ExecuteGameLogic => Some(GlobalSystemSet::ExecuteGameLogic),
            Phase::BlueprintExpansion => Some(GlobalSystemSet::BlueprintExpansion),
            Phase::Send => None,
        }
    }

    /// The global set that the phase belongs to.
    pub fn global(self) -> (set: Option<GlobalSystemSet>)
        ensures
            set == self.spec_global(),
    {
        match self {
            Phase::Receive => None,
            Phase::WorldCreation => Some(GlobalSystemSet::WorldCreation),
            Phase::PlayerMovement => Some(GlobalSystemSet::PlayerMovement),
            Phase::Physics(_) => Some(GlobalSystemSet::RawPhysics),
            Phase::ExecuteGameLogic => Some(GlobalSystemSet::ExecuteGameLogic),
            Phase::BlueprintExpansion => Some(GlobalSystemSet::BlueprintExpansion),
            Phase::Send => None,
        }
    }

    /// Whether a rollback runs the phase again. It runs the gameplay rules
    /// again and nothing else: what hydration makes is derived from the
    /// blueprints, and is never made a second time.
    pub open spec fn spec_is_replayed(self) -> bool {
        self == Phase::ExecuteGameLogic
    }

    /// Whether a rollback runs the phase again.
    pub fn is_replayed(self) -> (replayed: bool)
        ensures
            replayed == self.spec_is_replayed(),
    {
        match self {
            Phase::ExecuteGameLogic => true,
            _ => false,
        }
    }
}

/// The order of the phases. The global sets run in the order of their
/// ranks, and the steps of the physics in theirs. Blueprints are expanded
/// after the receive flush and after the gameplay rules, and before the
/// send. Two phases with the same place are the same phase.
pub proof fn lemma_phase_order(p: Phase, q: Phase)
    ensures
        p.spec_rank() < PHASE_COUNT,
        p.spec_rank() == q.spec_rank() <==> p == q,
        p.spec_global() is Some && q.spec_global() is Some && p.spec_global()->0.spec_rank()
            < q.spec_global()->0.spec_rank() ==> p.spec_rank() < q.spec_rank(),
        Phase::Receive.spec_rank() < Phase::BlueprintExpansion.spec_rank(),
        Phase::ExecuteGameLogic.spec_rank() < Phase::BlueprintExpansion.spec_rank(),
        Phase::BlueprintExpansion.spec_rank() < Phase::Send.spec_rank(),
        p != Phase::Receive ==> Phase::Receive.spec_rank() < p.spec_rank(),
        p != Phase::Send ==> p.spec_rank() < Phase::Send.spec_rank(),
        !Phase::BlueprintExpansion.spec_is_replayed(),
{
}

/// The data that a system may declare access to.
#[derive(Hash, Debug, PartialEq, Eq, Clone, Copy, Structural)]
pub enum Data {
    /// The set of entities: spawning one writes it.
    Entities,
    /// The links from children to parents.
    Parents,
    PlayerBlueprints,
    Players,
    StructureBlueprints,
    StructureBlocks,
    ThrusterBlueprints,
    ThrusterBlocks,
    SpawnPointBlueprints,
    SpawnPoints,
    /// The shared asset cache.
    AssetCache,
    /// The contacts of the physics step.
    Collisions,
    /// The players' input.
    Input,
    /// The forces and motion intents that the physics takes in.
    Forces,
    /// The placements and velocities that the physics gives out.
    Motion,
    /// What is queued to and from the network.
    Network,
    /// Data of a collaborator, by a number of its choosing.
    Other(u32),
}

/// The systems that this library runs itself, and a name for every other.
#[derive(Hash, Debug, PartialEq, Eq, Clone, Copy, Structural)]
pub enum System {
    /// The one-time setup of the spawn points.
    CreationSpawnPoints,
    /// Drops the contacts of players with their own spawn points.
    FilterNonOccupiedCollisions,
    /// Hydrates the players and spawns their blocks.
    HydratePlayers,
    /// Hydrates the structural blocks.
    HydrateStructureBlocks,
    /// Hydrates the thrusters.
    HydrateThrusterBlocks,
    /// Hydrates the spawn points.
    HydrateSpawnPoints,
    /// A system of a collaborator, by a number of its choosing.
    External(u32),
}

/// A system as it is declared: what it is, the phase it runs in, the data
/// it reads and the data it writes, and the systems that it runs after.
pub struct SystemDescriptor {
    pub system: System,
    pub phase: Phase,
    pub reads: Vec<Data>,
    pub writes: Vec<Data>,
    pub after: Vec<usize>,
}

/// A declared system as contracts see it.
pub struct SystemView {
    pub system: System,
    pub phase: Phase,
    pub reads: Seq<Data>,
    pub writes: Seq<Data>,
    pub after: Seq<int>,
}

impl View for SystemDescriptor {
    type V = SystemView;

    open spec fn view(&self) -> SystemView {
        SystemView {
            system: self.system,
            phase: self.phase,
            reads: self.reads@,
            writes: self.writes@,
            after: self.after@.map_values(|i: usize| i as int),
        }
    }
}

impl SystemDescriptor {
    /// The declaration of `system` in `phase`, with no access and no order
    /// as yet.
    pub fn new(system: System, phase: Phase) -> (descriptor: SystemDescriptor)
        ensures
            descriptor@ == (SystemView {
                system,
                phase,
                reads: Seq::empty(),
                writes: Seq::empty(),
                after: Seq::empty(),
            }),
    {
        let descriptor = SystemDescriptor {
            system,
            phase,
            reads: Vec::new(),
            writes: Vec::new(),
            after: Vec::new(),
        };
        assert(descriptor@.after =~= Seq::empty());
        descriptor
    }

    /// The same declaration with shared access to `data`.
    pub fn reading(self, data: Data) -> (descriptor: SystemDescriptor)
        ensures
            descriptor@ == (SystemView { reads: self@.reads.push(data), ..self@ }),
    {
        let mut descriptor = self;
        descriptor.reads.push(data);
        descriptor
    }

    /// The same declaration with exclusive access to `data`.
    pub fn writing(self, data: Data) -> (descriptor: SystemDescriptor)
        ensures
            descriptor@ == (SystemView { writes: self@.writes.push(data), ..self@ }),
    {
        let mut descriptor = self;
        descriptor.writes.push(data);
        descriptor
    }

    /// The same declaration, to run after the system `earlier`.
    pub fn after(self, earlier: SystemId) -> (descriptor: SystemDescriptor)
        ensures
            descriptor@ == (SystemView { after: self@.after.push(earlier@), ..self@ }),
    {
        let mut descriptor = self;
        descriptor.after.push(earlier.index());
        assert(descriptor@.after =~= self@.after.push(earlier@));
        descriptor
    }
}

/// The handle of a declared system: its place in the order of declaration.
#[derive(Hash, Debug, PartialEq, Eq, Clone, Copy, Structural)]
pub struct SystemId {
    index: usize,
}

impl View for SystemId {
    type V = int;

    closed spec fn view(&self) -> int {
        self.index as int
    }
}

impl SystemId {
    /// The handle of the system declared at place `index`.
    pub fn from_index(index: usize) -> (id: SystemId)
        ensures
            id@ == index,
    {
        SystemId { index }
    }

    /// The place of the system in the order of declaration.
    pub fn index(self) -> (index: usize)
        ensures
            index == self@,
    {
        self.index
    }
}

/// Whether `s` and `t` have some element in common.
pub open spec fn overlap(s: Seq<Data>, t: Seq<Data>) -> bool {
    exists|i: int, j: int| 0 <= i < s.len() && 0 <= j < t.len() && s[i] == t[j]
}

/// Whether two systems may not run at the same time: one of them writes
/// data that the other reads or writes.
pub open spec fn conflict(a: SystemView, b: SystemView) -> bool {
    overlap(a.writes, b.writes) || overlap(a.writes, b.reads) || overlap(a.reads, b.writes)
}

/// Whether a declaration may join `systems`: every system that it is to run
/// after has been declared before it, for the same phase.
pub open spec fn fits(systems: Seq<SystemView>, system: SystemView) -> bool {
    forall|k: int|
        0 <= k < system.after.len() ==> 0 <= #[trigger] system.after[k] < systems.len()
            && systems[system.after[k]].phase == system.phase
}

/// Whether every declaration of `systems` fitted when it joined.
pub open spec fn well_ordered(systems: Seq<SystemView>) -> bool {
    forall|j: int| 0 <= j < systems.len() ==> #[trigger] fits(systems.take(j), systems[j])
}

/// Whether the system at `later` is to run after the one at `earlier`, by
/// its own declaration or through others that it is to run after.
pub open spec fn runs_after(systems: Seq<SystemView>, later: int, earlier: int) -> bool
    decreases later,
{
    &&& 0 <= later < systems.len()
    &&& exists|k: int|
        0 <= k < systems[later].after.len() && 0 <= #[trigger] systems[later].after[k] < later && (
        systems[later].after[k] == earlier || runs_after(systems, systems[later].after[k], earlier))
}

/// Whether the `k`-th system that `later` is to run after is the one at
/// `earlier` or is itself to run after it.
pub open spec fn through(systems: Seq<SystemView>, later: int, k: int, earlier: int) -> bool {
    &&& 0 <= later < systems.len()
    &&& 0 <= k < systems[later].after.len()
    &&& 0 <= systems[later].after[k] < later
    &&& (systems[later].after[k] == earlier || runs_after(
        systems,
        systems[later].after[k],
        earlier,
    ))
}

/// A system is to run after another exactly if one of the systems that it
/// names is that other or is to run after it.
pub proof fn lemma_runs_after(systems: Seq<SystemView>, later: int, earlier: int)
    ensures
        runs_after(systems, later, earlier) <==> exists|k: int| #[trigger]
            through(systems, later, k, earlier),
{
    if runs_after(systems, later, earlier) {
        let k = choose|k: int|
            0 <= k < systems[later].after.len() && 0 <= #[trigger] systems[later].after[k] < later
                && (systems[later].after[k] == earlier || runs_after(
                systems,
                systems[later].after[k],
                earlier,
            ));
        assert(through(systems, later, k, earlier));
    }
    if exists|k: int| #[trigger] through(systems, later, k, earlier) {
        let k = choose|k: int| #[trigger] through(systems, later, k, earlier);
        assert(0 <= systems[later].after[k] < later);
    }
}

/// Whether the systems at `first` and `second` make the pipeline
/// ambiguous: they are two systems of the same phase, they conflict, and
/// neither is to run after the other.
pub open spec fn ambiguous(systems: Seq<SystemView>, first: int, second: int) -> bool {
    &&& 0 <= first < second < systems.len()
    &&& systems[first].phase == systems[second].phase
    &&& conflict(systems[first], systems[second])
    &&& !runs_after(systems, second, first)
}

/// Whether a pipeline can be built of `systems`: no two of them make it
/// ambiguous.
pub open spec fn buildable(systems: Seq<SystemView>) -> bool {
    forall|i: int, j: int| !ambiguous(systems, i, j)
}

/// Two systems of one phase that both write the same data, with no declared
/// order between them, keep the pipeline from being built. So do two of
/// which one writes what the other reads.
pub proof fn lemma_conflict_forbids_build(systems: Seq<SystemView>, first: int, second: int)
    requires
        0 <= first < second < systems.len(),
        systems[first].phase == systems[second].phase,
        overlap(systems[first].writes, systems[second].writes) || overlap(
            systems[first].writes,
            systems[second].reads,
        ) || overlap(systems[first].reads, systems[second].writes),
        !runs_after(systems, second, first),
    ensures
        !buildable(systems),
{
    assert(ambiguous(systems, first, second));
}

/// A system that is to run after another was declared after it, for the
/// same phase.
pub proof fn lemma_runs_after_is_later(systems: Seq<SystemView>, later: int, earlier: int)
    requires
        well_ordered(systems),
        runs_after(systems, later, earlier),
    ensures
        0 <= earlier < later < systems.len(),
        systems[earlier].phase == systems[later].phase,
    decreases later,
{
    let k = choose|k: int|
        0 <= k < systems[later].after.len() && 0 <= #[trigger] systems[later].after[k] < later && (
        systems[later].after[k] == earlier || runs_after(systems, systems[later].after[k], earlier));
    let a = systems[later].after[k];
    assert(fits(systems.take(later), systems[later]));
    if a != earlier {
        lemma_runs_after_is_later(systems, a, earlier);
    }
}

/// Running after is transitive.
pub proof fn lemma_runs_after_chains(systems: Seq<SystemView>, last: int, middle: int, first: int)
    requires
        well_ordered(systems),
        runs_after(systems, last, middle),
        runs_after(systems, middle, first),
    ensures
        runs_after(systems, last, first),
    decreases last,
{
    let k = choose|k: int|
        0 <= k < systems[last].after.len() && 0 <= #[trigger] systems[last].after[k] < last && (
        systems[last].after[k] == middle || runs_after(systems, systems[last].after[k], middle));
    let a = systems[last].after[k];
    if a != middle {
        lemma_runs_after_chains(systems, a, middle, first);
    }
    assert(0 <= k < systems[last].after.len() && 0 <= systems[last].after[k] < last && (
    systems[last].after[k] == first || runs_after(systems, systems[last].after[k], first)));
}

/// The place at which `order` lists `x`.
pub open spec fn place_of(order: Seq<int>, x: int) -> int {
    choose|a: int| 0 <= a < order.len() && order[a] == x
}

/// A tick runs the systems phase by phase and keeps every declared order:
/// of two systems, the one whose phase comes first runs first, and a
/// system that is to run after another runs after it.
pub proof fn lemma_run_order(systems: Seq<SystemView>, order: Seq<int>, x: int, y: int)
    requires
        well_ordered(systems),
        is_run_order(systems, order),
        0 <= x < systems.len(),
        0 <= y < systems.len(),
    ensures
        0 <= place_of(order, x) < order.len(),
        order[place_of(order, x)] == x,
        systems[x].phase.spec_rank() < systems[y].phase.spec_rank() ==> place_of(order, x)
            < place_of(order, y),
        runs_after(systems, y, x) ==> place_of(order, x) < place_of(order, y),
{
    assert(order.contains(x));
    assert(order.contains(y));
    let a = place_of(order, x);
    if runs_after(systems, y, x) {
        lemma_runs_after_is_later(systems, y, x);
    }
}

/// Why a pipeline could not be built.
#[derive(Debug, PartialEq, Eq, Clone, Copy, Structural)]
pub enum ScheduleError {
    /// Two systems of one phase conflict and have no declared order.
    SchedulingAmbiguity { first: SystemId, second: SystemId },
    /// A system was declared to run after one that is not declared, or that
    /// is declared for another phase.
    UnknownOrder,
}

/// Whether the system at `x` runs before the one at `y` in a tick: its
/// phase comes first, or they share a phase and `x` was declared first.
pub open spec fn runs_before(systems: Seq<SystemView>, x: int, y: int) -> bool {
    systems[x].phase.spec_rank() < systems[y].phase.spec_rank() || (systems[x].phase.spec_rank()
        == systems[y].phase.spec_rank() && x < y)
}

/// Whether `order` lists the systems in the order in which a tick runs
/// them: each system once, phase by phase, and within a phase in the order
/// of declaration.
pub open spec fn is_run_order(systems: Seq<SystemView>, order: Seq<int>) -> bool {
    &&& order.len() == systems.len()
    &&& forall|a: int| 0 <= a < order.len() ==> 0 <= #[trigger] order[a] < systems.len()
    &&& forall|a: int, b: int|
        0 <= a < b < order.len() ==> runs_before(systems, #[trigger] order[a], #[trigger] order[b])
    &&& forall|i: int| 0 <= i < systems.len() ==> #[trigger] order.contains(i)
}

/// The systems as they are declared, before the pipeline is built.
pub struct App {
    systems: Vec<SystemDescriptor>,
}

impl View for App {
    type V = Seq<SystemView>;

    closed spec fn view(&self) -> Seq<SystemView> {
        self.systems@.map_values(|s: SystemDescriptor| s@)
    }
}

/// Whether `list` holds `data`.
fn holds(list: &Vec<Data>, data: Data) -> (found: bool)
    ensures
        found == list@.contains(data),
{
    let mut i: usize = 0;
    while i < list.len()
        invariant
            i <= list.len(),
            forall|j: int| 0 <= j < i ==> list@[j] != data,
        decreases list.len() - i,
    {
        if list[i] == data {
            return true;
        }
        i = i + 1;
    }
    false
}

/// Whether two lists of data have an element in common.
fn overlaps(s: &Vec<Data>, t: &Vec<Data>) -> (found: bool)
    ensures
        found == overlap(s@, t@),
{
    let mut i: usize = 0;
    while i < s.len()
        invariant
            i <= s.len(),
            forall|a: int, b: int| 0 <= a < i && 0 <= b < t.len() ==> s@[a] != t@[b],
        decreases s.len() - i,
    {
        if holds(t, s[i]) {
            return true;
        }
        i = i + 1;
    }
    false
}

/// Whether two systems conflict.
fn conflicts(a: &SystemDescriptor, b: &SystemDescriptor) -> (found: bool)
    ensures
        found == conflict(a@, b@),
{
    overlaps(&a.writes, &b.writes) || overlaps(&a.writes, &b.reads) || overlaps(&a.reads, &b.writes)
}

impl App {
    /// Whether every declaration fitted when it joined.
    pub open spec fn wf(&self) -> bool {
        well_ordered(self@)
    }

    /// No systems.
    pub fn new() -> (app: App)
        ensures
            app@ == Seq::<SystemView>::empty(),
            app.wf(),
    {
        let app = App { systems: Vec::new() };
        app
    }

    /// How many systems are declared.
    pub fn len(&self) -> (n: usize)
        ensures
            n == self@.len(),
    {
        self.systems.len()
    }

    /// Declares a system and returns its handle. The declaration is
    /// refused, and nothing changes, if it is to run after a system that
    /// is not declared yet or that belongs to another phase.
    pub fn add_system(&mut self, descriptor: SystemDescriptor) -> (added: Result<SystemId, ScheduleError>)
        requires
            old(self).wf(),
        ensures
            final(self).wf(),
            match added {
                Ok(id) => fits(old(self)@, descriptor@) && id@ == old(self)@.len() && final(self)@
                    == old(self)@.push(descriptor@),
                Err(error) => error == ScheduleError::UnknownOrder && !fits(old(self)@, descriptor@)
                    && final(self)@ == old(self)@,
            },
    {
        let mut k: usize = 0;
        while k < descriptor.after.len()
            invariant
                k <= descriptor.after.len(),
                *self == *old(self),
                self.wf(),
                forall|i: int|
                    0 <= i < k ==> 0 <= #[trigger] descriptor@.after[i] < self@.len()
                        && self@[descriptor@.after[i]].phase == descriptor@.phase,
            decreases descriptor.after.len() - k,
        {
            let earlier = descriptor.after[k];
            assert(descriptor@.after[k as int] == earlier);
            if earlier >= self.systems.len() {
                return Err(ScheduleError::UnknownOrder);
            }
            if self.systems[earlier].phase != descriptor.phase {
                return Err(ScheduleError::UnknownOrder);
            }
            k = k + 1;
        }
        let id = SystemId::from_index(self.systems.len());
        let ghost joined = descriptor@;
        self.systems.push(descriptor);
        proof {
            assert(self@ =~= old(self)@.push(joined));
            assert forall|j: int| 0 <= j < self@.len() implies #[trigger] fits(
                self@.take(j),
                self@[j],
            ) by {
                if j < old(self)@.len() {
                    assert(self@.take(j) =~= old(self)@.take(j));
                }
            }
        }
        Ok(id)
    }

    /// Declares a system that fits, and returns its handle.
    pub fn add(&mut self, descriptor: SystemDescriptor) -> (id: SystemId)
        requires
            old(self).wf(),
            fits(old(self)@, descriptor@),
        ensures
            final(self).wf(),
            id@ == old(self)@.len(),
            final(self)@ == old(self)@.push(descriptor@),
    {
        match self.add_system(descriptor) {
            Ok(id) => id,
            Err(_) => vstd::pervasive::unreached(),
        }
    }

    /// Builds the pipeline. This fails if two systems of one phase
    /// conflict and have no declared order between them; the error names
    /// the first such pair, going by the later system and then by the
    /// earlier one. Otherwise the pipeline holds the systems as they were
    /// declared and lists them in the order in which a tick runs them.
    pub fn build(self) -> (built: Result<Pipeline, ScheduleError>)
        requires
            self.wf(),
        ensures
            match built {
                Ok(pipeline) => {
                    &&& pipeline.systems() == self@
                    &&& pipeline.wf()
                    &&& buildable(self@)
                },
                Err(error) => {
                    &&& error matches ScheduleError::SchedulingAmbiguity { first, second }
                    &&& ambiguous(self@, first@, second@)
                    &&& !buildable(self@)
                    &&& forall|i: int, j: int|
                        j < second@ || (j == second@ && i < first@) ==> !ambiguous(self@, i, j)
                },
            },
    {
        let n = self.systems.len();
        let reach = closure(&self.systems);
        let mut j: usize = 0;
        while j < n
            invariant
                j <= n,
                n == self@.len(),
                self.wf(),
                reaches(self@, reach@),
                forall|x: int, y: int| y < j ==> !ambiguous(self@, x, y),
            decreases n - j,
        {
            let mut i: usize = 0;
            while i < j
                invariant
                    i <= j < n,
                    n == self@.len(),
                    self.wf(),
                    reaches(self@, reach@),
                    forall|x: int, y: int| y < j ==> !ambiguous(self@, x, y),
                    forall|x: int| x < i ==> !ambiguous(self@, x, j as int),
                decreases j - i,
            {
                if self.systems[i].phase == self.systems[j].phase && !reach[j][i] && conflicts(
                    &self.systems[i],
                    &self.systems[j],
                ) {
                    return Err(
                        ScheduleError::SchedulingAmbiguity {
                            first: SystemId::from_index(i),
                            second: SystemId::from_index(j),
                        },
                    );
                }
                i = i + 1;
            }
            j = j + 1;
        }
        let order = run_order(&self.systems);
        Ok(Pipeline { systems: self.systems, order })
    }
}

/// Whether `reach` says of every two systems whether the one is to run
/// after the other.
pub open spec fn reaches(systems: Seq<SystemView>, reach: Seq<Vec<bool>>) -> bool {
    &&& reach.len() == systems.len()
    &&& forall|j: int| 0 <= j < reach.len() ==> (#[trigger] reach[j])@.len() == systems.len()
    &&& forall|j: int, i: int|
        0 <= j < systems.len() && 0 <= i < systems.len() ==> #[trigger] reach[j]@[i] == runs_after(
            systems,
            j,
            i,
        )
}

/// Whether the system at `later` is to run after the one at `earlier` by
/// way of one of the first `m` systems that it names.
pub open spec fn through_first(systems: Seq<SystemView>, later: int, m: int, earlier: int) -> bool {
    exists|k: int| 0 <= k < m && #[trigger] through(systems, later, k, earlier)
}

/// Works out, for every two systems, whether the one is to run after the
/// other.
#[verifier::rlimit(40)]
fn closure(systems: &Vec<SystemDescriptor>) -> (reach: Vec<Vec<bool>>)
    requires
        well_ordered(systems@.map_values(|s: SystemDescriptor| s@)),
    ensures
        reaches(systems@.map_values(|s: SystemDescriptor| s@), reach@),
{
    let ghost view = systems@.map_values(|s: SystemDescriptor| s@);
    let n = systems.len();
    let mut reach: Vec<Vec<bool>> = Vec::new();
    let mut j: usize = 0;
    while j < n
        invariant
            j <= n,
            n == systems@.len(),
            view == systems@.map_values(|s: SystemDescriptor| s@),
            well_ordered(view),
            reach@.len() == j,
            forall|a: int| 0 <= a < j ==> (#[trigger] reach@[a])@.len() == n,
            forall|a: int, i: int|
                0 <= a < j && 0 <= i < n ==> #[trigger] reach@[a]@[i] == runs_after(view, a, i),
        decreases n - j,
    {
        let mut row: Vec<bool> = Vec::new();
        let mut i: usize = 0;
        while i < n
            invariant
                i <= n,
                row@.len() == i,
                forall|x: int| 0 <= x < i ==> !#[trigger] row@[x],
            decreases n - i,
        {
            row.push(false);
            i = i + 1;
        }
        let after = &systems[j].after;
        let mut k: usize = 0;
        while k < after.len()
            invariant
                k <= after.len(),
                j < n,
                n == systems@.len(),
                view == systems@.map_values(|s: SystemDescriptor| s@),
                after@ == systems@[j as int].after@,
                fits(view.take(j as int), view[j as int]),
                reach@.len() == j,
                forall|a: int| 0 <= a < j ==> (#[trigger] reach@[a])@.len() == n,
                forall|a: int, i: int|
                    0 <= a < j && 0 <= i < n ==> #[trigger] reach@[a]@[i] == runs_after(view, a, i),
                row@.len() == n,
                forall|x: int|
                    0 <= x < n ==> #[trigger] row@[x] == through_first(view, j as int, k as int, x),
            decreases after.len() - k,
        {
            let a = after[k];
            assert(view[j as int].after[k as int] == a);
            let mut x: usize = 0;
            while x < n
                invariant
                    x <= n,
                    k < after.len(),
                    a < j < n,
                    n == systems@.len(),
                    view == systems@.map_values(|s: SystemDescriptor| s@),
                    view[j as int].after[k as int] == a,
                    view[j as int].after.len() == after.len(),
                    reach@.len() == j,
                    forall|a: int| 0 <= a < j ==> (#[trigger] reach@[a])@.len() == n,
                    forall|a: int, i: int|
                        0 <= a < j && 0 <= i < n ==> #[trigger] reach@[a]@[i] == runs_after(
                            view,
                            a,
                            i,
                        ),
                    row@.len() == n,
                    forall|y: int|
                        0 <= y < x ==> #[trigger] row@[y] == through_first(
                            view,
                            j as int,
                            k as int + 1,
                            y,
                        ),
                    forall|y: int|
                        x <= y < n ==> #[trigger] row@[y] == through_first(
                            view,
                            j as int,
                            k as int,
                            y,
                        ),
                decreases n - x,
            {
                let direct = x == a || reach[a][x];
                assert(direct == through(view, j as int, k as int, x as int));
                if direct {
                    row.set(x, true);
                }
                assert(row@[x as int] == through_first(view, j as int, k as int + 1, x as int)) by {
                    if through_first(view, j as int, k as int + 1, x as int) {
                        let w = choose|w: int|
                            0 <= w < k + 1 && #[trigger] through(view, j as int, w, x as int);
                    }
                    if through_first(view, j as int, k as int, x as int) {
                        let w = choose|w: int|
                            0 <= w < k && #[trigger] through(view, j as int, w, x as int);
                    }
                }
                x = x + 1;
            }
            k = k + 1;
        }
        proof {
            assert forall|i: int| 0 <= i < n implies #[trigger] row@[i] == runs_after(
                view,
                j as int,
                i,
            ) by {
                lemma_runs_after(view, j as int, i);
                if runs_after(view, j as int, i) {
                    let w = choose|w: int| #[trigger] through(view, j as int, w, i);
                }
                if through_first(view, j as int, after.len() as int, i) {
                    let w = choose|w: int|
                        0 <= w < after.len() && #[trigger] through(view, j as int, w, i);
                }
            }
        }
        reach.push(row);
        j = j + 1;
    }
    reach
}

/// Lists the systems in the order in which a tick runs them.
fn run_order(systems: &Vec<SystemDescriptor>) -> (order: Vec<usize>)
    ensures
        is_run_order(
            systems@.map_values(|s: SystemDescriptor| s@),
            order@.map_values(|i: usize| i as int),
        ),
{
    let ghost view = systems@.map_values(|s: SystemDescriptor| s@);
    let n = systems.len();
    let mut order: Vec<usize> = Vec::new();
    let mut r: u8 = 0;
    while r < PHASE_COUNT
        invariant
            r <= PHASE_COUNT,
            n == systems@.len(),
            view == systems@.map_values(|s: SystemDescriptor| s@),
            placed_upto(view, order@.map_values(|i: usize| i as int), r as int, 0),
        decreases PHASE_COUNT - r,
    {
        let mut i: usize = 0;
        while i < n
            invariant
                i <= n,
                r < PHASE_COUNT,
                n == systems@.len(),
                view == systems@.map_values(|s: SystemDescriptor| s@),
                placed_upto(view, order@.map_values(|i: usize| i as int), r as int, i as int),
            decreases n - i,
        {
            if systems[i].phase.rank() == r {
                let ghost before = order@.map_values(|i: usize| i as int);
                order.push(i);
                proof {
                    let listed = order@.map_values(|i: usize| i as int);
                    assert(listed =~= before.push(i as int));
                    assert forall|x: int|
                        0 <= x < n && (view[x].phase.spec_rank() < r || (view[x].phase.spec_rank()
                            == r && x < i + 1)) implies #[trigger] listed.contains(x) by {
                        if x == i {
                            assert(listed[listed.len() - 1] == x);
                        } else {
                            assert(before.contains(x));
                            let a = choose|a: int| 0 <= a < before.len() && before[a] == x;
                            assert(listed[a] == x);
                        }
                    }
                }
            }
            i = i + 1;
        }
        r = r + 1;
    }
    proof {
        let listed = order@.map_values(|i: usize| i as int);
        lemma_all_placed(view, listed);
    }
    order
}

/// Whether `order` lists, in the order in which a tick runs them, the
/// systems of the phases before place `r` and those of the phase at place
/// `r` that were declared before `i`, and no others.
pub open spec fn placed_upto(systems: Seq<SystemView>, order: Seq<int>, r: int, i: int) -> bool {
    &&& forall|a: int|
        0 <= a < order.len() ==> 0 <= #[trigger] order[a] < systems.len() && (
        systems[order[a]].phase.spec_rank() < r || (systems[order[a]].phase.spec_rank() == r
            && order[a] < i))
    &&& forall|a: int, b: int|
        0 <= a < b < order.len() ==> runs_before(systems, #[trigger] order[a], #[trigger] order[b])
    &&& forall|x: int|
        0 <= x < systems.len() && (systems[x].phase.spec_rank() < r || (
        systems[x].phase.spec_rank() == r && x < i)) ==> #[trigger] order.contains(x)
}

/// A list that holds each system once holds as many as there are.
proof fn lemma_all_placed(systems: Seq<SystemView>, order: Seq<int>)
    requires
        placed_upto(systems, order, PHASE_COUNT as int, 0),
    ensures
        is_run_order(systems, order),
{
    assert forall|i: int| 0 <= i < systems.len() implies #[trigger] order.contains(i) by {
        lemma_phase_order(systems[i].phase, systems[i].phase);
    }
    let all = Set::new(|i: int| 0 <= i < systems.len());
    assert(order.to_set() =~= all);
    order.unique_seq_to_set();
    vstd::set_lib::lemma_int_range(0, systems.len() as int);
    assert(all =~= vstd::set_lib::set_int_range(0, systems.len() as int));
}

/// The systems of a tick, checked, and the order in which they run.
pub struct Pipeline {
    systems: Vec<SystemDescriptor>,
    order: Vec<usize>,
}

impl Pipeline {
    /// The systems, in the order of their declaration.
    pub closed spec fn systems(&self) -> Seq<SystemView> {
        self.systems@.map_values(|s: SystemDescriptor| s@)
    }

    /// The places of the systems in the order in which a tick runs them.
    pub closed spec fn order(&self) -> Seq<int> {
        self.order@.map_values(|i: usize| i as int)
    }

    /// Whether the order is that in which a tick runs the systems.
    pub open spec fn wf(&self) -> bool {
        is_run_order(self.systems(), self.order())
    }

    /// How many systems the pipeline has.
    pub fn len(&self) -> (n: usize)
        ensures
            n == self.systems().len(),
    {
        self.systems.len()
    }

    /// The system that runs at place `at` of a tick.
    pub fn system_at(&self, at: usize) -> (found: Option<(SystemId, System, Phase)>)
        requires
            self.wf(),
        ensures
            found is Some <==> at < self.order().len(),
            found matches Some((id, system, phase)) ==> {
                &&& id@ == self.order()[at as int]
                &&& system == self.systems()[self.order()[at as int]].system
                &&& phase == self.systems()[self.order()[at as int]].phase
            },
    {
        if at < self.order.len() {
            let index = self.order[at];
            Some((SystemId::from_index(index), self.systems[index].system, self.systems[index].phase))
        } else {
            None
        }
    }

    /// The systems that a rollback runs again, in the order in which it
    /// runs them: those of the gameplay rules, and no others. Hydration is
    /// never among them.
    pub fn replay_order(&self) -> (replayed: Vec<SystemId>)
        requires
            self.wf(),
        ensures
            replayed@.map_values(|id: SystemId| id@) == self.order().filter(
                |i: int| self.systems()[i].phase.spec_is_replayed(),
            ),
            forall|a: int|
                0 <= a < replayed@.len() ==> 0 <= (#[trigger] replayed@[a])@ < self.systems().len()
                    && self.systems()[replayed@[a]@].phase == Phase::ExecuteGameLogic,
    {
        let ghost keep = |i: int| self.systems()[i].phase.spec_is_replayed();
        let mut replayed: Vec<SystemId> = Vec::new();
        let mut at: usize = 0;
        while at < self.order.len()
            invariant
                at <= self.order.len(),
                self.wf(),
                self.order().len() == self.order.len(),
                keep == |i: int| self.systems()[i].phase.spec_is_replayed(),
                replayed@.map_values(|id: SystemId| id@) == self.order().take(at as int).filter(keep),
                forall|a: int|
                    0 <= a < replayed@.len() ==> 0 <= (#[trigger] replayed@[a])@
                        < self.systems().len() && self.systems()[replayed@[a]@].phase
                        == Phase::ExecuteGameLogic,
            decreases self.order.len() - at,
        {
            let index = self.order[at];
            proof {
                let longer = self.order().take(at as int + 1);
                assert(longer.drop_last() == self.order().take(at as int));
                assert(longer.last() == index);
                reveal(Seq::filter);
            }
            if self.systems[index].phase.is_replayed() {
                replayed.push(SystemId::from_index(index));
            }
            at = at + 1;
        }
        assert(self.order().take(at as int) == self.order());
        replayed
    }
}

} // verus!
