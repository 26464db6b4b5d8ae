use entity_wire::{
    set_entity_serialization, DecodeError, DecodeMode, Entity, EntityRegistry, EntitySerialization,
    ExternalForm,
};

fn handle(slot: u32, generation: u32) -> Entity {
    Entity::from_id_generation(slot, generation).unwrap()
}

/// Writes slot `s` with generation 1 as `s + offset`; declines the rest.
struct Offset {
    offset: u64,
    numeric: bool,
}

impl EntitySerialization for Offset {
    fn entity_to_id(&self, entity: Entity) -> Option<u64> {
        if entity.generation() == 1 {
            Some(entity.id() as u64 + self.offset)
        } else {
            None
        }
    }

    fn id_to_entity(&self, id: u64) -> Option<Entity> {
        if id >= self.offset && id - self.offset <= u32::MAX as u64 {
            Entity::from_id_generation((id - self.offset) as u32, 1)
        } else {
            None
        }
    }

    fn is_deserializing(&self) -> bool {
        self.numeric
    }
}

/// Declines every handle and every identifier.
struct Declining;

impl EntitySerialization for Declining {
    fn entity_to_id(&self, _entity: Entity) -> Option<u64> {
        None
    }

    fn id_to_entity(&self, _id: u64) -> Option<Entity> {
        None
    }

    fn is_deserializing(&self) -> bool {
        true
    }
}

#[test]
fn single_install() {
    let mut registry = EntityRegistry::new();
    assert!(registry.current().is_none());
    assert!(set_entity_serialization(&mut registry, Offset { offset: 10, numeric: true }));
    assert!(!set_entity_serialization(&mut registry, Offset { offset: 20, numeric: false }));
    let current = registry.current().unwrap();
    assert_eq!(current.offset, 10);
    assert!(current.numeric);
}

#[test]
fn fallback_without_mapping() {
    let registry: EntityRegistry<Offset> = EntityRegistry::new();
    let e = handle(7, 3);
    assert_eq!(e.serialize(&registry), ExternalForm::Text("7v3".to_string()));
    assert_eq!(Entity::decode_mode(&registry), DecodeMode::Text);
    assert_eq!(Entity::decode_text("7v3"), Ok(e));
}

#[test]
fn fallback_numeric_without_mapping_reads_packed() {
    let registry: EntityRegistry<Offset> = EntityRegistry::new();
    assert_eq!(Entity::visit_u64(&registry, (3u64 << 32) | 7), Ok(handle(7, 3)));
    assert_eq!(Entity::visit_u64(&registry, 7), Err(DecodeError::InvalidEntityId));
}

#[test]
fn mapping_opt_out_writes_text() {
    let mut registry = EntityRegistry::new();
    assert!(set_entity_serialization(&mut registry, Declining));
    assert_eq!(handle(7, 3).serialize(&registry), ExternalForm::Text("7v3".to_string()));
}

#[test]
fn mapping_declines_some_handles() {
    let mut registry = EntityRegistry::new();
    assert!(set_entity_serialization(&mut registry, Offset { offset: 1000, numeric: true }));
    assert_eq!(handle(7, 1).serialize(&registry), ExternalForm::Numeric(1007));
    assert_eq!(handle(7, 3).serialize(&registry), ExternalForm::Text("7v3".to_string()));
}

#[test]
fn mapping_round_trip_is_lossless() {
    let mut registry = EntityRegistry::new();
    assert!(set_entity_serialization(&mut registry, Offset { offset: 1000, numeric: true }));
    assert_eq!(Entity::decode_mode(&registry), DecodeMode::Numeric);
    for &s in &[0u32, 7, 65535, u32::MAX] {
        let e = handle(s, 1);
        match e.serialize(&registry) {
            ExternalForm::Numeric(id) => assert_eq!(Entity::visit_u64(&registry, id), Ok(e)),
            ExternalForm::Text(t) => panic!("expected an integer, got {}", t),
        }
    }
}

#[test]
fn mapping_text_mode_reads_text() {
    let mut registry = EntityRegistry::new();
    assert!(set_entity_serialization(&mut registry, Offset { offset: 1000, numeric: false }));
    assert_eq!(Entity::decode_mode(&registry), DecodeMode::Text);
}

#[test]
fn declined_id_falls_back_to_packed() {
    let mut registry = EntityRegistry::new();
    assert!(set_entity_serialization(&mut registry, Declining));
    assert_eq!(Entity::visit_u64(&registry, (3u64 << 32) | 7), Ok(handle(7, 3)));
    assert_eq!(Entity::visit_u64(&registry, 0), Err(DecodeError::InvalidEntityId));
    assert_eq!(Entity::visit_u64(&registry, 42), Err(DecodeError::InvalidEntityId));
}

#[test]
fn encode_picks_the_form() {
    let e = handle(7, 3);
    assert_eq!(e.encode(Some(42)), ExternalForm::Numeric(42));
    assert_eq!(e.encode(None), ExternalForm::Text("7v3".to_string()));
}

#[test]
fn decode_id_prefers_the_mapping() {
    let e = handle(1, 1);
    assert_eq!(Entity::decode_id(5, Some(e)), Ok(e));
    assert_eq!(Entity::decode_id(5, None), Err(DecodeError::InvalidEntityId));
    assert_eq!(Entity::decode_id((9u64 << 32) | 2, None), Ok(handle(2, 9)));
}

#[test]
fn decode_text_errors() {
    assert_eq!(Entity::decode_text("abc"), Err(DecodeError::InvalidEntity));
    assert_eq!(Entity::decode_text("7v0"), Err(DecodeError::InvalidEntity));
    assert_eq!(Entity::decode_text("12v34"), Ok(handle(12, 34)));
}

#[test]
fn select_mode_table() {
    assert_eq!(entity_wire::bridge::select_mode(None), DecodeMode::Text);
    assert_eq!(entity_wire::bridge::select_mode(Some(false)), DecodeMode::Text);
    assert_eq!(entity_wire::bridge::select_mode(Some(true)), DecodeMode::Numeric);
}

#[test]
fn error_messages() {
    assert_eq!(DecodeError::InvalidEntity.message(), "invalid entity");
    assert_eq!(DecodeError::InvalidEntityId.message(), "invalid hecs entity ID");
}
