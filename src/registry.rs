//! The strategy registry: a slot that holds at most one identity mapping,
//! filled at most once.

use vstd::prelude::*;
use crate::entity::Entity;

verus! {

/// A host's translation between handles and compact external identifiers.
pub trait EntitySerialization: Send + Sync + 'static {
    /// The external identifier of `entity`, or `None` to write it in the
    /// default text form.
    fn entity_to_id(&self, entity: Entity) -> Option<u64>;

    /// The handle that an external identifier stands for, or `None` where
    /// the identifier is not one of the mapping's own.
    fn id_to_entity(&self, id: u64) -> Option<Entity>;

    /// Whether incoming handles are to be read as integers through this
    /// mapping rather than as text.
    fn is_deserializing(&self) -> bool;
}

/// A write-once slot for the identity mapping in force.
pub struct EntityRegistry<T> {
    installed: Option<T>,
}

impl<T> View for EntityRegistry<T> {
    type V = Option<T>;

    closed spec fn view(&self) -> Option<T> {
        self.installed
    }
}

/// Whether an installation into a slot holding `slot` takes effect.
pub open spec fn install_wins<T>(slot: Option<T>) -> bool {
    slot is None
}

/// What a slot holds after `value` is offered to it: the first mapping
/// ever installed stays.
pub open spec fn after_install<T>(slot: Option<T>, value: T) -> Option<T> {
    match slot {
        Some(m) => Some(m),
        None => Some(value),
    }
}

impl<T> EntityRegistry<T> {
    /// A registry with nothing installed.
    pub fn new() -> (r: Self)
        ensures
            r@ is None,
    {
        EntityRegistry { installed: None }
    }

    /// The installed mapping, if any.
    pub fn current(&self) -> (r: Option<&T>)
        ensures
            r is Some <==> self@ is Some,
            r matches Some(m) ==> self@ == Some(*m),
    {
        match &self.installed {
            Some(m) => Some(m),
            None => None,
        }
    }
}

/// Installs `value` if nothing is installed yet; returns whether it was.
/// A mapping once installed is never replaced.
pub fn set_entity_serialization<T: EntitySerialization>(
    registry: &mut EntityRegistry<T>,
    value: T,
) -> (r: bool)
    ensures
        r == install_wins(old(registry)@),
        final(registry)@ == after_install(old(registry)@, value),
{
    if registry.installed.is_some() {
        false
    } else {
        registry.installed = Some(value);
        true
    }
}

/// Into an empty registry the first installation succeeds; every later
/// one fails and leaves the first mapping in place.
pub proof fn lemma_single_install<T>(first: T, second: T)
    ensures
        install_wins(None::<T>),
        after_install(None, first) == Some(first),
        !install_wins(after_install(None, first)),
        after_install(after_install(None, first), second) == Some(first),
{
}

/// A registry that holds a mapping keeps it whatever is offered next.
pub proof fn lemma_installed_is_kept<T>(slot: Option<T>, value: T)
    requires
        slot is Some,
    ensures
        !install_wins(slot),
        after_install(slot, value) == slot,
{
}

} // verus!
