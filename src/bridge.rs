//! The serialization bridge: which external form a handle is written in,
//! and how an external value is read back, given what the installed
//! mapping answers.

use vstd::prelude::*;
use crate::entity::{entity_text, parse_text, unpack_bits, view_opt, Entity, EntityView};
use crate::registry::{EntityRegistry, EntitySerialization};

verus! {

/// A handle as written to an external format.
#[derive(Clone, Debug, PartialEq, Eq)]
pub enum ExternalForm {
    /// A plain unsigned integer: the mapping's identifier.
    Numeric(u64),
    /// The text form `"<slot>v<generation>"`.
    Text(String),
}

/// What an external form holds.
pub enum FormView {
    Numeric(u64),
    Text(Seq<char>),
}

impl View for ExternalForm {
    type V = FormView;

    open spec fn view(&self) -> FormView {
        match self {
            ExternalForm::Numeric(id) => FormView::Numeric(*id),
            ExternalForm::Text(t) => FormView::Text(t@),
        }
    }
}

/// Which form an incoming handle is to be read as.
#[derive(Clone, Copy, Debug, PartialEq, Eq, Structural)]
pub enum DecodeMode {
    Numeric,
    Text,
}

/// Why an external value denotes no handle.
#[derive(Clone, Copy, Debug, PartialEq, Eq, Structural)]
pub enum DecodeError {
    /// A text that is not `"<slot>v<generation>"` with a non-zero generation.
    InvalidEntity,
    /// An integer that the mapping does not know and whose generation
    /// field is zero.
    InvalidEntityId,
}

/// The form a handle is written in: the mapping's identifier where it
/// gave one, else the text form.
pub open spec fn encoded(entity: EntityView, mapped: Option<u64>) -> FormView {
    match mapped {
        Some(id) => FormView::Numeric(id),
        None => FormView::Text(entity_text(entity)),
    }
}

/// The form to read: integers only where a mapping is installed and asks
/// for them. `prefers_numeric` is the installed mapping's answer, `None`
/// where none is installed.
pub open spec fn mode_for(prefers_numeric: Option<bool>) -> DecodeMode {
    if prefers_numeric == Some(true) {
        DecodeMode::Numeric
    } else {
        DecodeMode::Text
    }
}

/// The handle read from an integer: the mapping's answer where it gave
/// one, else the integer as a packed handle.
pub open spec fn decoded_id(id: u64, mapped: Option<EntityView>) -> Result<EntityView, DecodeError> {
    match mapped {
        Some(v) => Ok(v),
        None => match unpack_bits(id) {
            Some(v) => Ok(v),
            None => Err(DecodeError::InvalidEntityId),
        },
    }
}

/// The handle read from a text.
pub open spec fn decoded_text(s: Seq<char>) -> Result<EntityView, DecodeError> {
    match parse_text(s) {
        Some(v) => Ok(v),
        None => Err(DecodeError::InvalidEntity),
    }
}

/// The view of a decoding result.
pub open spec fn view_result(r: Result<Entity, DecodeError>) -> Result<EntityView, DecodeError> {
    match r {
        Ok(e) => Ok(e@),
        Err(err) => Err(err),
    }
}

impl DecodeError {
    /// A human-readable description.
    pub fn message(&self) -> (r: &'static str)
        ensures
            *self == DecodeError::InvalidEntity ==> r@ == "invalid entity"@,
            *self == DecodeError::InvalidEntityId ==> r@ == "invalid hecs entity ID"@,
    {
        match self {
            DecodeError::InvalidEntity => "invalid entity",
            DecodeError::InvalidEntityId => "invalid hecs entity ID",
        }
    }
}

/// The form to read, given the installed mapping's answer to
/// `is_deserializing`, or `None` where no mapping is installed.
pub fn select_mode(prefers_numeric: Option<bool>) -> (r: DecodeMode)
    ensures
        r == mode_for(prefers_numeric),
{
    match prefers_numeric {
        Some(true) => DecodeMode::Numeric,
        _ => DecodeMode::Text,
    }
}

impl Entity {
    /// The external form of this handle, given the mapping's identifier
    /// for it (`None` where there is no mapping or it declined).
    pub fn encode(self, mapped: Option<u64>) -> (r: ExternalForm)
        ensures
            r@ == encoded(self@, mapped),
    {
        match mapped {
            Some(id) => ExternalForm::Numeric(id),
            None => ExternalForm::Text(self.to_text()),
        }
    }

    /// The external form of this handle under the mapping in `registry`.
    /// Without a mapping it is the text form; a text form is always that
    /// of this handle.
    pub fn serialize<T: EntitySerialization>(&self, registry: &EntityRegistry<T>) -> (r:
        ExternalForm)
        ensures
            registry@ is None ==> r@ == encoded(self@, None),
            r@ == encoded(self@, None) || r is Numeric,
    {
        let mapped = match registry.current() {
            Some(m) => m.entity_to_id(*self),
            None => None,
        };
        self.encode(mapped)
    }

    /// The form in which `registry` has incoming handles read. Without a
    /// mapping it is text.
    pub fn decode_mode<T: EntitySerialization>(registry: &EntityRegistry<T>) -> (r: DecodeMode)
        ensures
            registry@ is None ==> r == DecodeMode::Text,
    {
        let prefers = match registry.current() {
            Some(m) => Some(m.is_deserializing()),
            None => None,
        };
        select_mode(prefers)
    }

    /// The handle read from a text.
    pub fn decode_text(label: &str) -> (r: Result<Entity, DecodeError>)
        ensures
            view_result(r) == decoded_text(label@),
    {
        match Entity::parse(label) {
            Some(e) => Ok(e),
            None => Err(DecodeError::InvalidEntity),
        }
    }

    /// The handle read from an integer, given the mapping's answer for it
    /// (`None` where there is no mapping or it does not know the integer).
    pub fn decode_id(id: u64, mapped: Option<Entity>) -> (r: Result<Entity, DecodeError>)
        ensures
            view_result(r) == decoded_id(id, view_opt(mapped)),
            mapped matches Some(e) ==> r == Ok::<Entity, DecodeError>(e),
    {
        match mapped {
            Some(e) => Ok(e),
            None => match Entity::from_bits(id) {
                Some(e) => Ok(e),
                None => Err(DecodeError::InvalidEntityId),
            },
        }
    }

    /// The handle read from an integer under the mapping in `registry`.
    /// Without a mapping the integer is a packed handle; with one, it
    /// fails only where it is no packed handle either.
    pub fn visit_u64<T: EntitySerialization>(registry: &EntityRegistry<T>, id: u64) -> (r: Result<
        Entity,
        DecodeError,
    >)
        ensures
            registry@ is None ==> view_result(r) == decoded_id(id, None),
            r is Err ==> r == Err::<Entity, DecodeError>(DecodeError::InvalidEntityId) && unpack_bits(
                id,
            ) is None,
    {
        let mapped = match registry.current() {
            Some(m) => m.id_to_entity(id),
            None => None,
        };
        Entity::decode_id(id, mapped)
    }
}

/// A handle that the mapping writes as `id`, and reads back from `id`,
/// comes through writing and reading in the numeric form unchanged.
pub proof fn lemma_mapping_round_trip(entity: EntityView, id: u64)
    ensures
        encoded(entity, Some(id)) == FormView::Numeric(id),
        mode_for(Some(true)) == DecodeMode::Numeric,
        decoded_id(id, Some(entity)) == Ok::<EntityView, DecodeError>(entity),
{
}

/// With no mapping installed, handles are written as text and read as
/// text, and a handle comes back from its text unchanged.
pub proof fn lemma_fallback_round_trip(entity: EntityView)
    requires
        entity.generation != 0,
    ensures
        encoded(entity, None) == FormView::Text(entity_text(entity)),
        mode_for(None) == DecodeMode::Text,
        decoded_text(entity_text(entity)) == Ok::<EntityView, DecodeError>(entity),
{
    crate::entity::lemma_text_round_trip(entity.slot, entity.generation);
}

} // verus!
