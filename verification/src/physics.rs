//! What the library needs to know of the physics: the steps of its phase
//! and the contacts that it reports.

use vstd::prelude::*;
use crate::store::Entity;

verus! {

/// The steps of the physics phase, in the order in which they run.
#[derive(Hash, Debug, PartialEq, Eq, Clone, Copy, Structural)]
pub enum PhysicsSet {
    /// Hands the forces from outside, such as the thrusters', to the
    /// simulation.
    Prepare,
    /// Advances the simulation by one fixed step.
    StepSimulation,
    /// Writes the new placements back.
    Sync,
}

impl PhysicsSet {
    /// The position of the step within the phase, from zero.
    pub open spec fn spec_rank(self) -> nat {
        match self {
            PhysicsSet::Prepare => 0,
            PhysicsSet::StepSimulation => 1,
            PhysicsSet::Sync => 2,
        }
    }

    /// The position of the step within the phase, from zero.
    pub fn rank(self) -> (r: u8)
        ensures
            r == self.spec_rank(),
    {
        match self {
            PhysicsSet::Prepare => 0,
            PhysicsSet::StepSimulation => 1,
            PhysicsSet::Sync => 2,
        }
    }
}

/// Two entities that touch.
#[derive(Debug, Clone, Copy, PartialEq, Eq, Structural)]
pub struct Contacts {
    pub entity1: Entity,
    pub entity2: Entity,
}

/// The contacts of one step of the simulation, in the order in which they
/// were found.
pub struct Collisions {
    contacts: Vec<Contacts>,
}

impl View for Collisions {
    type V = Seq<Contacts>;

    closed spec fn view(&self) -> Seq<Contacts> {
        self.contacts@
    }
}

impl Collisions {
    /// No contacts.
    pub fn new() -> (collisions: Collisions)
        ensures
            collisions@ == Seq::<Contacts>::empty(),
    {
        Collisions { contacts: Vec::new() }
    }

    /// Adds a contact behind the others.
    pub fn push(&mut self, contacts: Contacts)
        ensures
            final(self)@ == old(self)@.push(contacts),
    {
        self.contacts.push(contacts);
    }

    /// How many contacts there are.
    pub fn len(&self) -> (n: usize)
        ensures
            n == self@.len(),
    {
        self.contacts.len()
    }

    /// The contact at place `i`.
    pub fn get(&self, i: usize) -> (contacts: Option<Contacts>)
        ensures
            contacts == if i < self@.len() {
                Some(self@[i as int])
            } else {
                None
            },
    {
        if i < self.contacts.len() {
            Some(self.contacts[i])
        } else {
            None
        }
    }

    /// Replaces the contacts by `contacts`.
    pub fn set(&mut self, contacts: Vec<Contacts>)
        ensures
            final(self)@ == contacts@,
    {
        self.contacts = contacts;
    }
}

} // verus!
