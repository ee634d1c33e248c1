use novella::kernel::{Entity, EntityManager, EntityReferencesComponent, NameComponent};
use novella::nvcore::registry::{self, Component, Fields, Names, NamesProp};

#[test]
fn mod_test_add_entity() {
    let mut entity_manager = EntityManager::new();
    let entity_indx = entity_manager.create_entity("test");
    let entity = entity_manager.get_entity(entity_indx).unwrap();
    assert_eq!(entity.name, "test");
}

#[test]
fn test_add_fields_component() {
    let mut entity_manager = EntityManager::new();
    let entity_indx = entity_manager.create_entity("test");
    entity_manager.add_fields_component(entity_indx, "name", "value");
    let _entity = entity_manager.get_entity(entity_indx).unwrap();
    let fields_component = entity_manager.get_fields_component_mut(entity_indx).unwrap();
    fields_component.add_field("name", "value");
    assert_eq!(fields_component.fields[0].name, "name");
}

#[test]
fn test_add_comp_to_entity() {
    let mut e = registry::Entity::new("CompTest");
    e.add_component::<Names>();
    e.add_component::<Fields>();
    assert!(e.has_component::<Names>());
    assert!(e.has_component::<Fields>());
    e.remove_component::<Names>();
    assert!(!e.has_component::<Names>());
    assert!(e.has_component::<Fields>());
}

#[test]
fn test_test_add_entity() {
    let mut entity_manager = registry::EntityManager::new();
    let entity_indx = entity_manager.create_entity(String::from("test"));
    let entity = entity_manager.get_entity(entity_indx).unwrap();
    assert_eq!(entity.entity_class, "test");
}

#[test]
fn test_add_get_component() {
    let mut entity_manager = registry::EntityManager::new();
    let test_entity = entity_manager.create_entity(String::from("Entity1"));
    entity_manager.add_component::<Names>(
        test_entity,
        NamesProp {
            name: vec![String::from("Robert"), String::from("Rob")],
        },
    );
    let comp = entity_manager.get_component::<Names>(test_entity).unwrap();
    assert_eq!(comp.name[0], "Robert");
    assert_eq!(comp.get_owning_entity(), test_entity);
}

#[test]
fn kernel_component_bits_set_and_clear() {
    let mut e = Entity::new("bits");
    let mut refs = EntityReferencesComponent::new_empty();
    e.add_component(&mut refs);
    assert!(e.has_component::<EntityReferencesComponent>());
    assert_eq!(e.get_signature(), 0x2);
    let mut name = NameComponent::new(e.id(), "n");
    e.add_component(&mut name);
    assert_eq!(e.get_signature(), 0x3);
    e.remove_component(&mut refs);
    assert!(!e.has_component::<EntityReferencesComponent>());
    assert_eq!(e.get_signature(), 0x1);
}

#[test]
fn removed_reference_is_gone() {
    let mut em = EntityManager::new();
    let a = em.create_entity("a");
    let b = em.create_entity("b");
    em.add_entity_reference_component(a, b);
    assert_eq!(em.get_entity_references(a), Some(&vec![b]));
    em.remove_entity_reference_component(a, b);
    assert_eq!(em.get_entity_references(a), None);
}
