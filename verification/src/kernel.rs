//! A small entity manager in which an entity's components are marked by bits
//! of a 16 bit signature.
use vstd::prelude::*;
use std::collections::HashMap;
use vstd::std_specs::hash::*;
use crate::common::gen_128;
use crate::common::maps::hash_map_get_mut;

verus! {

broadcast use vstd::std_specs::hash::group_hash_axioms;

/// The identifier of an entity.
pub type EntityIndex = u128;

/// The signature of an entity: the bits of its component types.
pub type EntitySignature = u16;

pub const FIELD_COMPONENT_BITS: u16 = 0x1;
pub const ENTITY_REFERENCE_BITS: u16 = 0x2;
pub const NAME_COMPONENT_BITS: u16 = 0x3;
pub const AUDIO_COMPONENT_BITS: u16 = 0x4;
pub const VIDEO_COMPONENT_BITS: u16 = 0x5;
pub const BINARY_DATA_COMPONENT_BITS: u16 = 0x6;
pub const LOCATION_COMPONENT_BITS: u16 = 0x7;

/// A component type: its bits, and the entity that owns a component.
pub trait Component: Sized {
    spec fn bits_spec() -> u16;

    spec fn owner_spec(&self) -> Option<EntityIndex>;

    /// The same component, owned by `entity`.
    spec fn with_owner(self, entity: Option<EntityIndex>) -> Self;

    fn get_component_bits() -> (r: u16)
        ensures
            r == Self::bits_spec(),
    ;

    fn get_owning_entity(&self) -> (r: Option<EntityIndex>)
        ensures
            r == self.owner_spec(),
    ;

    fn set_owning_entity(&mut self, entity: Option<EntityIndex>)
        ensures
            final(self).owner_spec() == entity,
            *final(self) == old(self).with_owner(entity),
    ;
}

/// An entity: an identifier, a name and a signature.
#[derive(Clone, Copy)]
pub struct Entity {
    _id: EntityIndex,
    pub name: &'static str,
    pub signature: EntitySignature,
}

impl Entity {
    pub closed spec fn spec_id(self) -> EntityIndex {
        self._id
    }

    pub closed spec fn spec_name(self) -> Seq<char> {
        self.name@
    }

    pub closed spec fn spec_signature(self) -> EntitySignature {
        self.signature
    }

    /// A new entity with a random identifier and no components.
    pub fn new(name: &'static str) -> (r: Self)
        ensures
            r.spec_name() == name@,
            r.spec_signature() == 0,
    {
        Entity { _id: gen_128(), name, signature: 0 }
    }

    pub fn id(&self) -> (r: EntityIndex)
        ensures
            r == self.spec_id(),
    {
        self._id
    }

    pub fn get_name(&self) -> (r: &'static str)
        ensures
            r@ == self.spec_name(),
    {
        self.name
    }

    /// Sets the bits of `T` in the signature and makes the entity the owner
    /// of the component.
    pub fn add_component<T: Component>(&mut self, component: &mut T)
        ensures
            final(self).spec_id() == old(self).spec_id(),
            final(self).spec_name() == old(self).spec_name(),
            final(self).spec_signature() == old(self).spec_signature() | T::bits_spec(),
            final(component).owner_spec() == Some(old(self).spec_id()),
            *final(component) == old(component).with_owner(Some(old(self).spec_id())),
    {
        self.signature = self.signature | T::get_component_bits();
        component.set_owning_entity(Some(self.id()));
    }

    /// Clears the bits of `T` in the signature and makes the component an
    /// orphan.
    pub fn remove_component<T: Component>(&mut self, component: &mut T)
        ensures
            final(self).spec_id() == old(self).spec_id(),
            final(self).spec_name() == old(self).spec_name(),
            final(self).spec_signature() == old(self).spec_signature() & !T::bits_spec(),
            final(component).owner_spec() is None,
            *final(component) == old(component).with_owner(None),
    {
        self.signature = self.signature & !T::get_component_bits();
        component.set_owning_entity(None);
    }

    /// Whether the signature shares a bit with those of `T`.
    pub fn has_component<T: Component>(&self) -> (r: bool)
        ensures
            r == (self.spec_signature() & T::bits_spec() != 0),
    {
        self.signature & T::get_component_bits() != 0
    }

    pub fn get_signature(&self) -> (r: EntitySignature)
        ensures
            r == self.spec_signature(),
    {
        self.signature
    }
}

/// `s` without any occurrence of `x`, in order.
pub open spec fn without(s: Seq<EntityIndex>, x: EntityIndex) -> Seq<EntityIndex>
    decreases s.len(),
{
    if s.len() == 0 {
        s
    } else {
        let r = without(s.drop_last(), x);
        if s.last() == x {
            r
        } else {
            r.push(s.last())
        }
    }
}

/// The entities an entity refers to.
pub struct EntityReferencesComponent {
    _entity: Option<EntityIndex>,
    pub entity_references: Vec<EntityIndex>,
}

impl EntityReferencesComponent {
    pub closed spec fn spec_references(self) -> Seq<EntityIndex> {
        self.entity_references@
    }

    pub fn new(_entity: EntityIndex, entity_references: Vec<EntityIndex>) -> (r: Self)
        ensures
            r.owner_spec() == Some(_entity),
            r.spec_references() == entity_references@,
    {
        Self { _entity: Some(_entity), entity_references }
    }

    pub fn new_empty() -> (r: Self)
        ensures
            r.owner_spec() is None,
            r.spec_references() == Seq::<EntityIndex>::empty(),
    {
        Self { _entity: None, entity_references: Vec::new() }
    }

    pub fn add_entity_reference(&mut self, entity_reference: EntityIndex)
        ensures
            final(self).owner_spec() == old(self).owner_spec(),
            final(self).spec_references() == old(self).spec_references().push(entity_reference),
    {
        self.entity_references.push(entity_reference);
    }

    /// Removes every reference to `entity_reference`.
    pub fn remove_entity_reference(&mut self, entity_reference: EntityIndex)
        ensures
            final(self).owner_spec() == old(self).owner_spec(),
            final(self).spec_references() == without(old(self).spec_references(), entity_reference),
    {
        let mut kept: Vec<EntityIndex> = Vec::new();
        let mut i: usize = 0;
        while i < self.entity_references.len()
            invariant
                self.entity_references@ == old(self).spec_references(),
                0 <= i <= self.entity_references@.len(),
                kept@ == without(self.entity_references@.take(i as int), entity_reference),
            decreases self.entity_references@.len() - i,
        {
            let x = self.entity_references[i];
            assert(self.entity_references@.take(i + 1).drop_last() =~= self.entity_references@.take(i as int));
            if x != entity_reference {
                kept.push(x);
            }
            i = i + 1;
        }
        assert(self.entity_references@.take(i as int) =~= self.entity_references@);
        self.entity_references = kept;
    }

    pub fn get_references(&self) -> (r: &Vec<EntityIndex>)
        ensures
            r@ == self.spec_references(),
    {
        &self.entity_references
    }
}

impl Component for EntityReferencesComponent {
    closed spec fn with_owner(self, entity: Option<EntityIndex>) -> Self {
        EntityReferencesComponent { _entity: entity, ..self }
    }

    open spec fn bits_spec() -> u16 {
        ENTITY_REFERENCE_BITS
    }

    closed spec fn owner_spec(&self) -> Option<EntityIndex> {
        self._entity
    }

    fn get_component_bits() -> (r: u16) {
        ENTITY_REFERENCE_BITS
    }

    fn get_owning_entity(&self) -> (r: Option<EntityIndex>) {
        self._entity
    }

    fn set_owning_entity(&mut self, entity: Option<EntityIndex>) {
        self._entity = entity;
    }
}

/// A named field.
#[derive(Clone, Copy)]
pub struct Field {
    pub name: &'static str,
    pub value: &'static str,
}

impl Field {
    pub fn new(name: &'static str, value: &'static str) -> (r: Self)
        ensures
            r.name@ == name@,
            r.value@ == value@,
    {
        Self { name, value }
    }
}

/// The fields of an entity.
pub struct FieldsComponent {
    _entity: Option<EntityIndex>,
    _mask: u16,
    pub fields: Vec<Field>,
}

impl FieldsComponent {
    pub closed spec fn spec_fields(self) -> Seq<Field> {
        self.fields@
    }

    /// A fields component owned by `_entity`, with no fields; the name and
    /// value are not used.
    pub fn new(_entity: EntityIndex, name: &'static str, value: &'static str) -> (r: Self)
        ensures
            r.owner_spec() == Some(_entity),
            r.spec_fields() == Seq::<Field>::empty(),
    {
        FieldsComponent { _entity: Some(_entity), _mask: FIELD_COMPONENT_BITS, fields: Vec::new() }
    }

    pub fn add_field(&mut self, name: &'static str, value: &'static str)
        ensures
            final(self).owner_spec() == old(self).owner_spec(),
            final(self).spec_fields().len() == old(self).spec_fields().len() + 1,
            final(self).spec_fields().drop_last() == old(self).spec_fields(),
            final(self).spec_fields().last().name@ == name@,
            final(self).spec_fields().last().value@ == value@,
    {
        self.fields.push(Field { name, value });
        assert(self.fields@.drop_last() =~= old(self).spec_fields());
    }

    pub fn add_field_struct(&mut self, field: Field)
        ensures
            final(self).owner_spec() == old(self).owner_spec(),
            final(self).spec_fields() == old(self).spec_fields().push(field),
    {
        self.fields.push(field);
    }

    pub fn get_fields(&self) -> (r: &Vec<Field>)
        ensures
            r@ == self.spec_fields(),
    {
        &self.fields
    }
}

impl Component for FieldsComponent {
    closed spec fn with_owner(self, entity: Option<EntityIndex>) -> Self {
        FieldsComponent { _entity: entity, ..self }
    }

    open spec fn bits_spec() -> u16 {
        FIELD_COMPONENT_BITS
    }

    closed spec fn owner_spec(&self) -> Option<EntityIndex> {
        self._entity
    }

    fn get_component_bits() -> (r: u16) {
        FIELD_COMPONENT_BITS
    }

    fn get_owning_entity(&self) -> (r: Option<EntityIndex>) {
        self._entity
    }

    fn set_owning_entity(&mut self, entity: Option<EntityIndex>) {
        self._entity = entity;
    }
}

/// Each entity of `m` is kept under its own identifier.
pub open spec fn indices_match(m: Map<EntityIndex, Entity>) -> bool {
    forall|i: EntityIndex| #[trigger] m.contains_key(i) ==> m[i].spec_id() == i
}

/// The entities and their fields and references, by entity identifier.
pub struct EntityManager {
    entities: HashMap<EntityIndex, Entity>,
    fields_components: HashMap<EntityIndex, FieldsComponent>,
    entity_references_components: HashMap<EntityIndex, EntityReferencesComponent>,
}

impl EntityManager {
    pub closed spec fn spec_entities(self) -> Map<EntityIndex, Entity> {
        self.entities@
    }

    pub closed spec fn spec_fields(self) -> Map<EntityIndex, FieldsComponent> {
        self.fields_components@
    }

    pub closed spec fn spec_references(self) -> Map<EntityIndex, EntityReferencesComponent> {
        self.entity_references_components@
    }

    /// Each entity is kept under its own identifier.
    pub open spec fn wf(self) -> bool {
        indices_match(self.spec_entities())
    }

    pub fn new() -> (r: Self)
        ensures
            r.wf(),
            r.spec_entities() == Map::<EntityIndex, Entity>::empty(),
            r.spec_fields() == Map::<EntityIndex, FieldsComponent>::empty(),
            r.spec_references() == Map::<EntityIndex, EntityReferencesComponent>::empty(),
    {
        EntityManager {
            entities: HashMap::new(),
            fields_components: HashMap::new(),
            entity_references_components: HashMap::new(),
        }
    }

    /// Adds a new entity named `name`, with a random identifier.
    pub fn create_entity(&mut self, name: &'static str) -> (r: EntityIndex)
        requires
            old(self).wf(),
        ensures
            final(self).wf(),
            final(self).spec_entities().contains_key(r),
            final(self).spec_entities() == old(self).spec_entities().insert(r, final(self).spec_entities()[r]),
            final(self).spec_entities()[r].spec_id() == r,
            final(self).spec_entities()[r].spec_name() == name@,
            final(self).spec_entities()[r].spec_signature() == 0,
            final(self).spec_fields() == old(self).spec_fields(),
            final(self).spec_references() == old(self).spec_references(),
    {
        let entity = Entity::new(name);
        self.entities.insert(entity.id(), entity);
        proof {
            assert forall|i: EntityIndex| #[trigger] self.entities@.contains_key(i) implies self.entities@[i].spec_id() == i by {
                if i != entity.spec_id() {
                    assert(old(self).spec_entities().contains_key(i));
                }
            }
        }
        entity.id()
    }

    /// Sets the signature of `entity`, which must exist, as `f` says.
    proof fn lemma_update_keeps_wf(before: Map<EntityIndex, Entity>, after: Map<EntityIndex, Entity>, k: EntityIndex)
        requires
            forall|i: EntityIndex| #[trigger] before.contains_key(i) ==> before[i].spec_id() == i,
            before.contains_key(k),
            after.contains_key(k),
            after == before.insert(k, after[k]),
            after[k].spec_id() == before[k].spec_id(),
        ensures
            forall|i: EntityIndex| #[trigger] after.contains_key(i) ==> after[i].spec_id() == i,
    {
        assert forall|i: EntityIndex| #[trigger] after.contains_key(i) implies after[i].spec_id() == i by {
            assert(before.contains_key(i));
        }
    }

    /// Gives `entity`, which must exist, a fields component with no fields,
    /// replacing the one it has.
    pub fn add_fields_component(&mut self, entity: EntityIndex, name: &'static str, value: &'static str)
        requires
            old(self).wf(),
            old(self).spec_entities().contains_key(entity),
        ensures
            final(self).wf(),
            final(self).spec_entities() == old(self).spec_entities().insert(entity, final(self).spec_entities()[entity]),
            final(self).spec_entities()[entity].spec_id() == entity,
            final(self).spec_entities()[entity].spec_name() == old(self).spec_entities()[entity].spec_name(),
            final(self).spec_entities()[entity].spec_signature() == old(self).spec_entities()[entity].spec_signature()
                | FIELD_COMPONENT_BITS,
            final(self).spec_fields().contains_key(entity),
            final(self).spec_fields() == old(self).spec_fields().insert(entity, final(self).spec_fields()[entity]),
            final(self).spec_fields()[entity].owner_spec() == Some(entity),
            final(self).spec_fields()[entity].spec_fields() == Seq::<Field>::empty(),
            final(self).spec_references() == old(self).spec_references(),
    {
        let mut fields_component = FieldsComponent::new(entity, name, value);
        let e = hash_map_get_mut(&mut self.entities, &entity).unwrap();
        e.add_component(&mut fields_component);
        proof {
            Self::lemma_update_keeps_wf(old(self).spec_entities(), self.entities@, entity);
        }
        self.fields_components.insert(entity, fields_component);
    }

    /// Gives `entity`, which must exist, a references component holding
    /// `entity_reference` alone, replacing the one it has.
    pub fn add_entity_reference_component(&mut self, entity: EntityIndex, entity_reference: EntityIndex)
        requires
            old(self).wf(),
            old(self).spec_entities().contains_key(entity),
        ensures
            final(self).wf(),
            final(self).spec_entities() == old(self).spec_entities().insert(entity, final(self).spec_entities()[entity]),
            final(self).spec_entities()[entity].spec_id() == entity,
            final(self).spec_entities()[entity].spec_name() == old(self).spec_entities()[entity].spec_name(),
            final(self).spec_entities()[entity].spec_signature() == old(self).spec_entities()[entity].spec_signature()
                | ENTITY_REFERENCE_BITS,
            final(self).spec_references().contains_key(entity),
            final(self).spec_references() == old(self).spec_references().insert(
                entity,
                final(self).spec_references()[entity],
            ),
            final(self).spec_references()[entity].owner_spec() == Some(entity),
            final(self).spec_references()[entity].spec_references() == seq![entity_reference],
            final(self).spec_fields() == old(self).spec_fields(),
    {
        let mut refs: Vec<EntityIndex> = Vec::new();
        refs.push(entity_reference);
        let mut c = EntityReferencesComponent::new(entity, refs);
        let e = hash_map_get_mut(&mut self.entities, &entity).unwrap();
        e.add_component(&mut c);
        proof {
            Self::lemma_update_keeps_wf(old(self).spec_entities(), self.entities@, entity);
        }
        self.entity_references_components.insert(entity, c);
    }

    pub fn get_fields_component(&self, entity: EntityIndex) -> (r: Option<&FieldsComponent>)
        ensures
            match r {
                Some(c) => self.spec_fields().contains_key(entity) && *c == self.spec_fields()[entity],
                None => !self.spec_fields().contains_key(entity),
            },
    {
        self.fields_components.get(&entity)
    }

    pub fn get_fields_component_mut(&mut self, entity: EntityIndex) -> (r: Option<&mut FieldsComponent>)
        ensures
            final(self).spec_entities() == old(self).spec_entities(),
            final(self).spec_references() == old(self).spec_references(),
            match r {
                Some(c) => {
                    &&& old(self).spec_fields().contains_key(entity)
                    &&& *c == old(self).spec_fields()[entity]
                    &&& final(self).spec_fields() == old(self).spec_fields().insert(entity, *final(c))
                },
                None => {
                    &&& !old(self).spec_fields().contains_key(entity)
                    &&& final(self).spec_fields() == old(self).spec_fields()
                },
            },
    {
        hash_map_get_mut(&mut self.fields_components, &entity)
    }

    pub fn get_entity_references_component(&self, entity: EntityIndex) -> (r: Option<&EntityReferencesComponent>)
        ensures
            match r {
                Some(c) => self.spec_references().contains_key(entity) && *c == self.spec_references()[entity],
                None => !self.spec_references().contains_key(entity),
            },
    {
        self.entity_references_components.get(&entity)
    }

    pub fn get_entity_references_component_mut(&mut self, entity: EntityIndex) -> (r: Option<&mut EntityReferencesComponent>)
        ensures
            final(self).spec_entities() == old(self).spec_entities(),
            final(self).spec_fields() == old(self).spec_fields(),
            match r {
                Some(c) => {
                    &&& old(self).spec_references().contains_key(entity)
                    &&& *c == old(self).spec_references()[entity]
                    &&& final(self).spec_references() == old(self).spec_references().insert(entity, *final(c))
                },
                None => {
                    &&& !old(self).spec_references().contains_key(entity)
                    &&& final(self).spec_references() == old(self).spec_references()
                },
            },
    {
        hash_map_get_mut(&mut self.entity_references_components, &entity)
    }

    /// Removes every reference to `entity_reference` from the references of
    /// `entity`; where none are left, the component is removed, and the
    /// entity, which must then exist, loses its bits.
    pub fn remove_entity_reference_component(&mut self, entity: EntityIndex, entity_reference: EntityIndex)
        requires
            old(self).wf(),
            old(self).spec_references().contains_key(entity),
            without(old(self).spec_references()[entity].spec_references(), entity_reference).len() == 0
                ==> old(self).spec_entities().contains_key(entity),
        ensures
            final(self).wf(),
            final(self).spec_fields() == old(self).spec_fields(),
            ({
                let left = without(old(self).spec_references()[entity].spec_references(), entity_reference);
                if left.len() == 0 {
                    &&& final(self).spec_references() == old(self).spec_references().remove(entity)
                    &&& final(self).spec_entities() == old(self).spec_entities().insert(
                        entity,
                        final(self).spec_entities()[entity],
                    )
                    &&& final(self).spec_entities()[entity].spec_id() == entity
                    &&& final(self).spec_entities()[entity].spec_name() == old(self).spec_entities()[entity].spec_name()
                    &&& final(self).spec_entities()[entity].spec_signature() == old(self).spec_entities()[entity].spec_signature()
                        & !ENTITY_REFERENCE_BITS
                } else {
                    &&& final(self).spec_entities() == old(self).spec_entities()
                    &&& final(self).spec_references().contains_key(entity)
                    &&& final(self).spec_references() == old(self).spec_references().insert(
                        entity,
                        final(self).spec_references()[entity],
                    )
                    &&& final(self).spec_references()[entity].spec_references() == left
                    &&& final(self).spec_references()[entity].owner_spec() == old(self).spec_references()[entity].owner_spec()
                }
            }),
    {
        let c = hash_map_get_mut(&mut self.entity_references_components, &entity).unwrap();
        c.remove_entity_reference(entity_reference);
        if c.entity_references.len() == 0 {
            let e = hash_map_get_mut(&mut self.entities, &entity).unwrap();
            e.remove_component(c);
            proof {
                Self::lemma_update_keeps_wf(old(self).spec_entities(), self.entities@, entity);
            }
            self.entity_references_components.remove(&entity);
        }
    }

    /// The references of `entity`, which must exist, where its signature
    /// shares a bit with those of the references component.
    pub fn get_entity_references(&self, entity: EntityIndex) -> (r: Option<&Vec<EntityIndex>>)
        requires
            self.wf(),
            self.spec_entities().contains_key(entity),
            self.spec_entities()[entity].spec_signature() & ENTITY_REFERENCE_BITS != 0
                ==> self.spec_references().contains_key(entity),
        ensures
            match r {
                Some(v) => self.spec_entities()[entity].spec_signature() & ENTITY_REFERENCE_BITS != 0
                    && v@ == self.spec_references()[entity].spec_references(),
                None => self.spec_entities()[entity].spec_signature() & ENTITY_REFERENCE_BITS == 0,
            },
    {
        let e = self.entities.get(&entity).unwrap();
        if e.has_component::<EntityReferencesComponent>() {
            let c = self.entity_references_components.get(&e.id()).unwrap();
            Some(&c.entity_references)
        } else {
            None
        }
    }

    /// The fields of `entity`, which must exist, where its signature shares a
    /// bit with those of the fields component.
    pub fn get_fields(&self, entity: EntityIndex) -> (r: Option<&Vec<Field>>)
        requires
            self.wf(),
            self.spec_entities().contains_key(entity),
            self.spec_entities()[entity].spec_signature() & FIELD_COMPONENT_BITS != 0
                ==> self.spec_fields().contains_key(entity),
        ensures
            match r {
                Some(v) => self.spec_entities()[entity].spec_signature() & FIELD_COMPONENT_BITS != 0
                    && v@ == self.spec_fields()[entity].spec_fields(),
                None => self.spec_entities()[entity].spec_signature() & FIELD_COMPONENT_BITS == 0,
            },
    {
        let e = self.entities.get(&entity).unwrap();
        if e.has_component::<FieldsComponent>() {
            let c = self.fields_components.get(&e.id()).unwrap();
            Some(&c.fields)
        } else {
            None
        }
    }

    pub fn get_entity(&self, entity_index: EntityIndex) -> (r: Option<&Entity>)
        ensures
            match r {
                Some(e) => self.spec_entities().contains_key(entity_index) && *e == self.spec_entities()[entity_index],
                None => !self.spec_entities().contains_key(entity_index),
            },
    {
        self.entities.get(&entity_index)
    }

    pub fn get_entity_mut(&mut self, entity_index: EntityIndex) -> (r: Option<&mut Entity>)
        ensures
            final(self).spec_fields() == old(self).spec_fields(),
            final(self).spec_references() == old(self).spec_references(),
            match r {
                Some(e) => {
                    &&& old(self).spec_entities().contains_key(entity_index)
                    &&& *e == old(self).spec_entities()[entity_index]
                    &&& final(self).spec_entities() == old(self).spec_entities().insert(entity_index, *final(e))
                },
                None => {
                    &&& !old(self).spec_entities().contains_key(entity_index)
                    &&& final(self).spec_entities() == old(self).spec_entities()
                },
            },
    {
        hash_map_get_mut(&mut self.entities, &entity_index)
    }
}

/// A timeline of the narrative.
pub struct Timeline {}

/// An arc of the narrative.
pub struct Arc {}

/// A scene of the narrative.
pub struct Scene {}

/// A location.
pub struct LocationComponent {}

/// An event of the narrative.
pub struct Event {}

/// An image.
pub struct Image {}

/// A text file.
pub struct TextFile {}

/// A map of the world of the narrative.
pub struct WorldMap {}

/// A video owned by an entity.
pub struct VideoComponent<'a> {
    _entity: Option<EntityIndex>,
    _mask: u16,
    video_name: &'static str,
    video_type: &'static str,
    video_data: &'a [u8],
}

impl<'a> VideoComponent<'a> {
    pub closed spec fn spec_entity(self) -> Option<EntityIndex> {
        self._entity
    }

    pub closed spec fn spec_mask(self) -> u16 {
        self._mask
    }

    pub closed spec fn spec_name(self) -> Seq<char> {
        self.video_name@
    }

    pub closed spec fn spec_type(self) -> Seq<char> {
        self.video_type@
    }

    pub closed spec fn spec_data(self) -> Seq<u8> {
        self.video_data@
    }

    pub fn new(
        entity: Option<EntityIndex>,
        mask: u16,
        video_name: &'static str,
        video_type: &'static str,
        video_data: &'a [u8],
    ) -> (r: Self)
        ensures
            r.spec_entity() == entity,
            r.spec_mask() == mask,
            r.spec_name() == video_name@,
            r.spec_type() == video_type@,
            r.spec_data() == video_data@,
    {
        VideoComponent { _entity: entity, _mask: mask, video_name, video_type, video_data }
    }
}

/// A piece of audio owned by an entity.
pub struct AudioComponent<'a> {
    _entity: Option<EntityIndex>,
    audio_name: &'static str,
    audio_type: &'static str,
    audio_data: &'a [u8],
}

impl<'a> AudioComponent<'a> {
    pub closed spec fn spec_entity(self) -> Option<EntityIndex> {
        self._entity
    }

    pub closed spec fn spec_name(self) -> Seq<char> {
        self.audio_name@
    }

    pub closed spec fn spec_type(self) -> Seq<char> {
        self.audio_type@
    }

    pub closed spec fn spec_data(self) -> Seq<u8> {
        self.audio_data@
    }

    pub fn new(
        entity: Option<EntityIndex>,
        audio_name: &'static str,
        audio_type: &'static str,
        audio_data: &'a [u8],
    ) -> (r: Self)
        ensures
            r.spec_entity() == entity,
            r.spec_name() == audio_name@,
            r.spec_type() == audio_type@,
            r.spec_data() == audio_data@,
    {
        AudioComponent { _entity: entity, audio_name, audio_type, audio_data }
    }
}

/// The name and aliases of an entity.
pub struct NameComponent {
    _entity: Option<EntityIndex>,
    name: &'static str,
    aliases: Vec<&'static str>,
}

impl NameComponent {
    pub closed spec fn spec_name(self) -> Seq<char> {
        self.name@
    }

    pub closed spec fn spec_aliases(self) -> Seq<&'static str> {
        self.aliases@
    }

    pub fn new(_entity: EntityIndex, name: &'static str) -> (r: Self)
        ensures
            r.owner_spec() == Some(_entity),
            r.spec_name() == name@,
            r.spec_aliases() == Seq::<&'static str>::empty(),
    {
        NameComponent { _entity: Some(_entity), name, aliases: Vec::new() }
    }

    pub fn add_alias(&mut self, alias: &'static str)
        ensures
            final(self).owner_spec() == old(self).owner_spec(),
            final(self).spec_name() == old(self).spec_name(),
            final(self).spec_aliases() == old(self).spec_aliases().push(alias),
    {
        self.aliases.push(alias);
    }

    pub fn get_name(&self) -> (r: &'static str)
        ensures
            r@ == self.spec_name(),
    {
        self.name
    }

    pub fn get_aliases(&self) -> (r: &Vec<&'static str>)
        ensures
            r@ == self.spec_aliases(),
    {
        &self.aliases
    }
}

impl Component for NameComponent {
    closed spec fn with_owner(self, entity: Option<EntityIndex>) -> Self {
        NameComponent { _entity: entity, ..self }
    }

    open spec fn bits_spec() -> u16 {
        NAME_COMPONENT_BITS
    }

    closed spec fn owner_spec(&self) -> Option<EntityIndex> {
        self._entity
    }

    fn get_component_bits() -> (r: u16) {
        NAME_COMPONENT_BITS
    }

    fn get_owning_entity(&self) -> (r: Option<EntityIndex>) {
        self._entity
    }

    fn set_owning_entity(&mut self, entity: Option<EntityIndex>) {
        self._entity = entity;
    }
}

/// Binary data owned by an entity.
pub struct BinaryDataComponent {
    _entity: Option<EntityIndex>,
    data: Vec<u8>,
}

impl BinaryDataComponent {
    pub closed spec fn spec_data(self) -> Seq<u8> {
        self.data@
    }

    pub fn new(_entity: EntityIndex, data: Vec<u8>) -> (r: Self)
        ensures
            r.owner_spec() == Some(_entity),
            r.spec_data() == data@,
    {
        BinaryDataComponent { _entity: Some(_entity), data }
    }

    pub fn get_data(&self) -> (r: &Vec<u8>)
        ensures
            r@ == self.spec_data(),
    {
        &self.data
    }
}

impl Component for BinaryDataComponent {
    closed spec fn with_owner(self, entity: Option<EntityIndex>) -> Self {
        BinaryDataComponent { _entity: entity, ..self }
    }

    open spec fn bits_spec() -> u16 {
        BINARY_DATA_COMPONENT_BITS
    }

    closed spec fn owner_spec(&self) -> Option<EntityIndex> {
        self._entity
    }

    fn get_component_bits() -> (r: u16) {
        BINARY_DATA_COMPONENT_BITS
    }

    fn get_owning_entity(&self) -> (r: Option<EntityIndex>) {
        self._entity
    }

    fn set_owning_entity(&mut self, entity: Option<EntityIndex>) {
        self._entity = entity;
    }
}

/// Adding a component type sets its bits: the entity then has it, where
/// the type has any bits. Removing it clears them: the entity then lacks
/// it. Removing right after adding leaves the bits outside the type's as
/// they were.
pub proof fn law_component_bits(sig: u16, bits: u16)
    ensures
        bits != 0 ==> (sig | bits) & bits != 0,
        (sig & !bits) & bits == 0,
        ((sig | bits) & !bits) == (sig & !bits),
{
    assert(bits != 0 ==> (sig | bits) & bits != 0) by (bit_vector);
    assert((sig & !bits) & bits == 0) by (bit_vector);
    assert(((sig | bits) & !bits) == (sig & !bits)) by (bit_vector);
}

} // verus!
