//! Handles of entities.

use vstd::prelude::*;

verus! {

/// The handle of an entity: the index of its slot, and the generation of the
/// slot at the time the entity was made. A handle whose generation is not
/// that of its slot is stale. The generation of a handle is never zero.
#[derive(Copy, Clone, Debug, PartialEq, Eq, Structural, Hash)]
pub struct Entity {
    id: u32,
    generation: u32,
}

/// The handle with the given parts, as one number: the generation in the
/// upper half, the index in the lower.
pub open spec fn handle_bits(id: u32, generation: u32) -> u64 {
    (generation as int * 0x1_0000_0000 + id as int) as u64
}

impl Entity {
    /// The index of the slot.
    pub closed spec fn spec_id(self) -> u32 {
        self.id
    }

    /// The generation of the slot when the entity was made.
    pub closed spec fn spec_generation(self) -> u32 {
        self.generation
    }

    /// The handle with the given parts.
    pub closed spec fn with_parts(id: u32, generation: u32) -> Entity {
        Entity { id, generation }
    }

    /// A handle is made of its parts.
    pub broadcast proof fn lemma_with_parts(id: u32, generation: u32)
        ensures
            (#[trigger] Entity::with_parts(id, generation)).spec_id() == id,
            Entity::with_parts(id, generation).spec_generation() == generation,
    {
    }

    /// A handle is the handle with its parts.
    pub broadcast proof fn lemma_parts(self)
        ensures
            #[trigger] Entity::with_parts(self.spec_id(), self.spec_generation()) == self,
    {
    }

    /// The handle that a number stands for: the generation in the upper
    /// half, the index in the lower.
    pub open spec fn of_bits(bits: u64) -> Entity {
        Entity::with_parts((bits % 0x1_0000_0000) as u32, (bits / 0x1_0000_0000) as u32)
    }

    /// The generation is not zero.
    #[verifier::type_invariant]
    pub open spec fn valid(self) -> bool {
        self.spec_generation() != 0
    }

    /// The handle as one number.
    pub open spec fn spec_bits(self) -> u64 {
        handle_bits(self.spec_id(), self.spec_generation())
    }

    /// The handle as one number: the generation in the upper half, the index
    /// in the lower. It is never zero.
    pub fn to_bits(self) -> (bits: u64)
        ensures
            bits == self.spec_bits(),
            self.spec_generation() != 0,
            bits >= 0x1_0000_0000,
            Entity::of_bits(bits) == self,
    {
        proof {
            use_type_invariant(&self);
        }
        (self.generation as u64) * 0x1_0000_0000 + (self.id as u64)
    }

    /// The handle that `bits` stands for, if there is one: there is none
    /// where the upper half is zero.
    pub fn from_bits(bits: u64) -> (handle: Option<Entity>)
        ensures
            handle is Some <==> bits >= 0x1_0000_0000,
            handle matches Some(e) ==> e.spec_bits() == bits && e.spec_generation() != 0
                && e.spec_id() == bits % 0x1_0000_0000 && e.spec_generation() == bits
                / 0x1_0000_0000 && e == Entity::of_bits(bits),
    {
        let generation: u32 = (bits / 0x1_0000_0000) as u32;
        let id: u32 = (bits % 0x1_0000_0000) as u32;
        if generation == 0 {
            None
        } else {
            Some(Entity { id, generation })
        }
    }

    /// The handle with the given parts, if there is one: there is none with
    /// the generation zero.
    pub fn from_parts(id: u32, generation: u32) -> (handle: Option<Entity>)
        ensures
            handle is Some <==> generation != 0,
            handle matches Some(e) ==> e.spec_id() == id && e.spec_generation() == generation
                && e == Entity::with_parts(id, generation),
    {
        if generation == 0 {
            None
        } else {
            Some(Entity { id, generation })
        }
    }

    /// The index of the slot. No two entities that live at the same time
    /// share it.
    pub fn id(self) -> (id: u32)
        ensures
            id == self.spec_id(),
    {
        self.id
    }

    /// The generation of the slot when the entity was made.
    pub fn generation(self) -> (generation: u32)
        ensures
            generation == self.spec_generation(),
            generation != 0,
    {
        proof {
            use_type_invariant(&self);
        }
        self.generation
    }
}

} // verus!
