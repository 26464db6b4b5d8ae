//! Entity handles and the rules for writing them to, and reading them from,
//! an external format: a packed 64-bit integer, a `"<slot>v<generation>"`
//! text, or a compact identifier chosen by an installed mapping.

pub mod bridge;
pub mod entity;
pub mod registry;
pub mod text;

pub use bridge::{DecodeError, DecodeMode, ExternalForm};
pub use entity::Entity;
pub use registry::{set_entity_serialization, EntityRegistry, EntitySerialization};
