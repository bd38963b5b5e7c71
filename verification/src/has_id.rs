use vstd::prelude::*;

verus! {

/// The capability every entity stored in the identity-indexed FIFO
/// container must provide: a stable 128-bit identity. The identity of
/// a given logical entity must not change while it sits in a container;
/// in particular, mutating an entity's other fields must leave the
/// value `id` returns untouched.
pub trait HasId {
    /// The identity of this entity, as specifications see it.
    spec fn id_spec(&self) -> u128;

    /// The identity of this entity.
    fn id(&self) -> (r: u128)
        ensures
            r == self.id_spec(),
    ;
}

} // verus!
