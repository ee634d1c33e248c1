//! A simple entity manager: each entity carries the set of the kinds of its
//! components, and the components of each kind are kept by entity.
use vstd::prelude::*;
use std::collections::{BTreeSet, HashMap};
use vstd::std_specs::btree::*;
use vstd::std_specs::hash::*;
use vstd::std_specs::iter::IteratorSpec;
use vstd::string::*;
use crate::common::gen_128;
use crate::common::maps::hash_map_get_mut;

verus! {

broadcast use {vstd::std_specs::hash::group_hash_axioms, vstd::std_specs::btree::group_btree_axioms};

/// The identifier of an entity.
pub type IndexType = u128;

/// The kinds of components.
#[derive(Clone, Copy, Debug, PartialEq, Eq, Structural)]
pub enum ComponentType {
    Fields,
    Video,
    Audio,
    Name,
    BinaryData,
    Image,
    References,
    Names,
}

impl ComponentType {
    /// The number of the kind, which orders the kinds.
    pub open spec fn spec_code(self) -> u32 {
        match self {
            ComponentType::Fields => 0,
            ComponentType::Video => 1,
            ComponentType::Audio => 2,
            ComponentType::Name => 3,
            ComponentType::BinaryData => 4,
            ComponentType::Image => 5,
            ComponentType::References => 6,
            ComponentType::Names => 7,
        }
    }

    pub fn code(&self) -> (r: u32)
        ensures
            r == self.spec_code(),
    {
        match self {
            ComponentType::Fields => 0,
            ComponentType::Video => 1,
            ComponentType::Audio => 2,
            ComponentType::Name => 3,
            ComponentType::BinaryData => 4,
            ComponentType::Image => 5,
            ComponentType::References => 6,
            ComponentType::Names => 7,
        }
    }

    /// The kind of number `c`, for `c` at most 7.
    pub open spec fn spec_from_code(c: u32) -> Self {
        if c == 0 {
            ComponentType::Fields
        } else if c == 1 {
            ComponentType::Video
        } else if c == 2 {
            ComponentType::Audio
        } else if c == 3 {
            ComponentType::Name
        } else if c == 4 {
            ComponentType::BinaryData
        } else if c == 5 {
            ComponentType::Image
        } else if c == 6 {
            ComponentType::References
        } else {
            ComponentType::Names
        }
    }

    /// The kind of number `c`.
    pub fn from_code(c: u32) -> (r: Option<Self>)
        ensures
            match r {
                Some(t) => t.spec_code() == c,
                None => c > 7,
            },
    {
        if c == 0 {
            Some(ComponentType::Fields)
        } else if c == 1 {
            Some(ComponentType::Video)
        } else if c == 2 {
            Some(ComponentType::Audio)
        } else if c == 3 {
            Some(ComponentType::Name)
        } else if c == 4 {
            Some(ComponentType::BinaryData)
        } else if c == 5 {
            Some(ComponentType::Image)
        } else if c == 6 {
            Some(ComponentType::References)
        } else if c == 7 {
            Some(ComponentType::Names)
        } else {
            None
        }
    }
}

/// A named field.
#[derive(Clone, Copy, Debug)]
pub struct Field {
    pub name: &'static str,
    pub value: &'static str,
}

impl Field {
    pub fn new(name: &'static str, value: &'static str) -> (r: Self)
        ensures
            r.name@ == name@,
            r.value@ == value@,
    {
        Self { name, value }
    }
}

/// A component type: what it is made from, and its kind.
pub trait Component: Sized {
    /// What a component is made from.
    type Properties;

    spec fn kind_spec() -> ComponentType;

    spec fn owner_spec(&self) -> IndexType;

    spec fn deleted_spec(&self) -> bool;

    /// The component holds what `props` gives it.
    spec fn made_from(&self, props: Self::Properties) -> bool;

    fn new(owning_entity: IndexType, props: Self::Properties) -> (r: Self)
        ensures
            r.owner_spec() == owning_entity,
            !r.deleted_spec(),
            r.made_from(props),
    ;

    fn get_owning_entity(&self) -> (r: IndexType)
        ensures
            r == self.owner_spec(),
    ;

    fn set_owning_entity(&mut self, entity: IndexType)
        ensures
            final(self).owner_spec() == entity,
            final(self).deleted_spec() == old(self).deleted_spec(),
    ;

    fn set_is_deleted(&mut self, is_deleted: bool)
        ensures
            final(self).deleted_spec() == is_deleted,
            final(self).owner_spec() == old(self).owner_spec(),
    ;

    fn get_is_deleted(&self) -> (r: bool)
        ensures
            r == self.deleted_spec(),
    ;

    fn get_type() -> (r: ComponentType)
        ensures
            r == Self::kind_spec(),
    ;
}

/// The names of an entity.
pub struct Names {
    owner: IndexType,
    deleted: bool,
    pub name: Vec<String>,
}

/// What a [`Names`] component is made from.
pub struct NamesProp {
    pub name: Vec<String>,
}

impl Names {
    pub closed spec fn spec_names(self) -> Seq<String> {
        self.name@
    }

    pub fn get_names(&self) -> (r: &Vec<String>)
        ensures
            r@ == self.spec_names(),
    {
        &self.name
    }
}

impl Component for Names {
    type Properties = NamesProp;

    open spec fn kind_spec() -> ComponentType {
        ComponentType::Names
    }

    closed spec fn owner_spec(&self) -> IndexType {
        self.owner
    }

    closed spec fn deleted_spec(&self) -> bool {
        self.deleted
    }

    /// The names are those of `props`.
    open spec fn made_from(&self, props: NamesProp) -> bool {
        self.spec_names() == props.name@
    }

    fn new(owning_entity: IndexType, props: NamesProp) -> (r: Self) {
        Names { owner: owning_entity, deleted: false, name: props.name }
    }

    fn get_owning_entity(&self) -> (r: IndexType) {
        self.owner
    }

    fn set_owning_entity(&mut self, entity: IndexType) {
        self.owner = entity;
    }

    fn set_is_deleted(&mut self, is_deleted: bool) {
        self.deleted = is_deleted;
    }

    fn get_is_deleted(&self) -> (r: bool) {
        self.deleted
    }

    fn get_type() -> (r: ComponentType) {
        ComponentType::Names
    }
}

/// The fields of an entity.
pub struct Fields {
    owner: IndexType,
    deleted: bool,
    pub name: String,
    pub fields: Vec<Field>,
}

impl Fields {
    pub closed spec fn spec_name(self) -> Seq<char> {
        self.name@
    }

    pub closed spec fn spec_fields(self) -> Seq<Field> {
        self.fields@
    }
}

/// What a [`Fields`] component is made from.
pub struct FieldsProp {
    pub name: String,
    pub fields: Vec<Field>,
}

impl Component for Fields {
    type Properties = FieldsProp;

    open spec fn kind_spec() -> ComponentType {
        ComponentType::Fields
    }

    closed spec fn owner_spec(&self) -> IndexType {
        self.owner
    }

    closed spec fn deleted_spec(&self) -> bool {
        self.deleted
    }

    /// The name and fields are those of `props`.
    open spec fn made_from(&self, props: FieldsProp) -> bool {
        self.spec_name() == props.name@ && self.spec_fields() == props.fields@
    }

    fn new(owning_entity: IndexType, props: FieldsProp) -> (r: Self) {
        Fields { owner: owning_entity, deleted: false, name: props.name, fields: props.fields }
    }

    fn get_owning_entity(&self) -> (r: IndexType) {
        self.owner
    }

    fn set_owning_entity(&mut self, entity: IndexType) {
        self.owner = entity;
    }

    fn set_is_deleted(&mut self, is_deleted: bool) {
        self.deleted = is_deleted;
    }

    fn get_is_deleted(&self) -> (r: bool) {
        self.deleted
    }

    fn get_type() -> (r: ComponentType) {
        ComponentType::Fields
    }
}

/// A video.
pub struct Video {
    pub description: String,
    pub video_name: String,
    pub video_type: String,
    pub video_data: Vec<u8>,
}

/// A piece of audio.
pub struct Audio {
    pub description: String,
    pub audio_name: String,
    pub audio_type: String,
    pub audio_data: Vec<u8>,
}

/// A name and its aliases.
pub struct Name {
    name: &'static str,
    aliases: Vec<&'static str>,
}

impl Name {
    pub closed spec fn spec_name(self) -> Seq<char> {
        self.name@
    }

    pub closed spec fn spec_aliases(self) -> Seq<&'static str> {
        self.aliases@
    }

    pub fn new(name: &'static str) -> (r: Self)
        ensures
            r.spec_name() == name@,
            r.spec_aliases().len() == 0,
    {
        Name { name, aliases: Vec::new() }
    }

    pub fn add_alias(&mut self, alias: &'static str)
        ensures
            final(self).spec_name() == old(self).spec_name(),
            final(self).spec_aliases() == old(self).spec_aliases().push(alias),
    {
        self.aliases.push(alias);
    }
}

/// Binary data.
pub struct BinaryData {
    pub data: Vec<u8>,
}

/// An image.
pub struct Image {
    pub name: String,
    pub description: String,
    pub image_data: Vec<u8>,
}

/// The references of an entity.
pub struct References {}

/// A moment of the narrative.
pub struct Time {}

/// A kind of event.
pub trait EventType {

}

/// An entity: an identifier, a class and the kinds of its components.
pub struct Entity {
    _id: IndexType,
    pub entity_class: String,
    signature: BTreeSet<u32>,
}

impl Entity {
    pub closed spec fn spec_id(self) -> IndexType {
        self._id
    }

    pub closed spec fn spec_class(self) -> Seq<char> {
        self.entity_class@
    }

    /// The numbers of the kinds of the components.
    pub closed spec fn spec_signature(self) -> Set<u32> {
        self.signature@
    }

    /// An entity of class `entity_class`, with a random identifier and no
    /// components.
    pub fn new(entity_class: &str) -> (r: Self)
        ensures
            r.spec_class() == entity_class@,
            r.spec_signature() == Set::<u32>::empty(),
    {
        Entity { _id: gen_128(), entity_class: String::from_str(entity_class), signature: BTreeSet::new() }
    }

    pub fn id(&self) -> (r: IndexType)
        ensures
            r == self.spec_id(),
    {
        self._id
    }

    pub fn get_class(&self) -> (r: &str)
        ensures
            r@ == self.spec_class(),
    {
        self.entity_class.as_str()
    }

    pub fn add_component<T: Component>(&mut self)
        ensures
            final(self).spec_id() == old(self).spec_id(),
            final(self).spec_class() == old(self).spec_class(),
            final(self).spec_signature() == old(self).spec_signature().insert(T::kind_spec().spec_code()),
    {
        let c = T::get_type().code();
        self.signature.insert(c);
    }

    pub fn remove_component<T: Component>(&mut self)
        ensures
            final(self).spec_id() == old(self).spec_id(),
            final(self).spec_class() == old(self).spec_class(),
            final(self).spec_signature() == old(self).spec_signature().remove(T::kind_spec().spec_code()),
    {
        let c = T::get_type().code();
        self.signature.remove(&c);
    }

    pub fn has_component<T: Component>(&self) -> (r: bool)
        ensures
            r == self.spec_signature().contains(T::kind_spec().spec_code()),
    {
        let c = T::get_type().code();
        self.signature.contains(&c)
    }

    /// The kinds of the components, in order.
    pub fn get_signature(&self) -> (r: Vec<ComponentType>)
        requires
            forall|c: u32| #[trigger] self.spec_signature().contains(c) ==> c <= 7,
        ensures
            r@.len() == self.spec_signature().len(),
            forall|t: ComponentType| r@.contains(t) <==> self.spec_signature().contains(t.spec_code()),
            forall|i: int, j: int| 0 <= i < j < r@.len() ==> r@[i].spec_code() < r@[j].spec_code(),
    {
        let mut r: Vec<ComponentType> = Vec::new();
        let mut code: u32 = 0;
        while code < 8
            invariant
                0 <= code <= 8,
                forall|c: u32| #[trigger] self.spec_signature().contains(c) ==> c <= 7,
                forall|t: ComponentType| r@.contains(t) <==> t.spec_code() < code && self.spec_signature().contains(
                    t.spec_code(),
                ),
                forall|i: int, j: int| 0 <= i < j < r@.len() ==> r@[i].spec_code() < r@[j].spec_code(),
                forall|i: int| 0 <= i < r@.len() ==> (#[trigger] r@[i]).spec_code() < code,
            decreases 8 - code,
        {
            let ghost before = r@;
            if self.signature.contains(&code) {
                let t = ComponentType::from_code(code).unwrap();
                r.push(t);
                proof {
                    assert(self.spec_signature().contains(code));
                    assert(t.spec_code() == code);
                    assert forall|x: ComponentType| r@.contains(x) <==> x.spec_code() < code + 1
                        && self.spec_signature().contains(x.spec_code()) by {
                        if r@.contains(x) && x != t {
                            let k = choose|k: int| 0 <= k < r@.len() && r@[k] == x;
                            assert(k < before.len());
                            assert(before[k] == x);
                            assert(before.contains(x));
                        }
                        if x.spec_code() < code && self.spec_signature().contains(x.spec_code()) {
                            assert(before.contains(x));
                            let k = choose|k: int| 0 <= k < before.len() && before[k] == x;
                            assert(r@[k] == x);
                        }
                        if x.spec_code() == code {
                            assert(x == t);
                            assert(r@[r@.len() - 1] == t);
                        }
                    }
                }
            }
            code = code + 1;
        }
        proof {
            let codes = r@.map_values(|t: ComponentType| t.spec_code());
            assert forall|a: int, b: int| 0 <= a < codes.len() && 0 <= b < codes.len() && a != b implies codes[a] != codes[b] by {
                if a < b {
                    assert(r@[a].spec_code() < r@[b].spec_code());
                } else {
                    assert(r@[b].spec_code() < r@[a].spec_code());
                }
            }
            assert forall|c: u32| codes.to_set().contains(c) <==> self.spec_signature().contains(c) by {
                if self.spec_signature().contains(c) {
                    let t = ComponentType::spec_from_code(c);
                    assert(t.spec_code() == c);
                    assert(r@.contains(t));
                    let k = choose|k: int| 0 <= k < r@.len() && r@[k] == t;
                    assert(codes[k] == c);
                }
                if codes.to_set().contains(c) {
                    let k = choose|k: int| 0 <= k < codes.len() && codes[k] == c;
                    assert(r@.contains(r@[k]));
                }
            }
            assert(codes.to_set() =~= self.spec_signature());
            codes.unique_seq_to_set();
        }
        r
    }
}

/// The components, by entity, of each kind kept.
pub struct Components {
    pub names: HashMap<IndexType, Names>,
    pub fields: HashMap<IndexType, Fields>,
}

impl Components {
    pub fn new() -> (r: Self)
        ensures
            r.names@ == Map::<IndexType, Names>::empty(),
            r.fields@ == Map::<IndexType, Fields>::empty(),
    {
        Components { names: HashMap::new(), fields: HashMap::new() }
    }
}

/// A component type kept by [`Components`].
pub trait StoredComponent: Component {
    /// The component of `entity`, if there is one.
    spec fn stored(c: Components, entity: IndexType) -> Option<Self>;

    /// The other kinds are those of `a`.
    spec fn others_same(a: Components, b: Components) -> bool;

    fn store(self, c: &mut Components, entity: IndexType)
        ensures
            Self::stored(*final(c), entity) == Some(self),
            forall|e: IndexType| e != entity ==> #[trigger] Self::stored(*final(c), e) == Self::stored(*old(c), e),
            Self::others_same(*old(c), *final(c)),
    ;

    fn fetch(c: &Components, entity: IndexType) -> (r: Option<&Self>)
        ensures
            match r {
                Some(x) => Self::stored(*c, entity) == Some(*x),
                None => Self::stored(*c, entity) is None,
            },
    ;
}

impl StoredComponent for Names {
    open spec fn stored(c: Components, entity: IndexType) -> Option<Self> {
        if c.names@.contains_key(entity) {
            Some(c.names@[entity])
        } else {
            None
        }
    }

    open spec fn others_same(a: Components, b: Components) -> bool {
        a.fields@ == b.fields@
    }

    fn store(self, c: &mut Components, entity: IndexType) {
        c.names.insert(entity, self);
    }

    fn fetch(c: &Components, entity: IndexType) -> (r: Option<&Self>) {
        c.names.get(&entity)
    }
}

impl StoredComponent for Fields {
    open spec fn stored(c: Components, entity: IndexType) -> Option<Self> {
        if c.fields@.contains_key(entity) {
            Some(c.fields@[entity])
        } else {
            None
        }
    }

    open spec fn others_same(a: Components, b: Components) -> bool {
        a.names@ == b.names@
    }

    fn store(self, c: &mut Components, entity: IndexType) {
        c.fields.insert(entity, self);
    }

    fn fetch(c: &Components, entity: IndexType) -> (r: Option<&Self>) {
        c.fields.get(&entity)
    }
}

/// The entities, by identifier, and their components.
pub struct EntityManager {
    entities: HashMap<IndexType, Entity>,
    components: Components,
}

impl EntityManager {
    pub closed spec fn spec_entities(self) -> Map<IndexType, Entity> {
        self.entities@
    }

    pub closed spec fn spec_components(self) -> Components {
        self.components
    }

    /// Each entity is kept under its own identifier.
    pub open spec fn wf(self) -> bool {
        forall|i: IndexType| #[trigger] self.spec_entities().contains_key(i) ==> self.spec_entities()[i].spec_id() == i
    }

    pub fn new() -> (r: Self)
        ensures
            r.wf(),
            r.spec_entities() == Map::<IndexType, Entity>::empty(),
    {
        EntityManager { entities: HashMap::new(), components: Components::new() }
    }

    /// Adds a new entity of class `name`, with a random identifier.
    pub fn create_entity(&mut self, name: String) -> (r: IndexType)
        requires
            old(self).wf(),
        ensures
            final(self).wf(),
            final(self).spec_entities().contains_key(r),
            final(self).spec_entities() == old(self).spec_entities().insert(r, final(self).spec_entities()[r]),
            final(self).spec_entities()[r].spec_class() == name@,
            final(self).spec_entities()[r].spec_signature() == Set::<u32>::empty(),
            final(self).spec_components() == old(self).spec_components(),
    {
        let entity = Entity::new(name.as_str());
        let id = entity.id();
        self.entities.insert(id, entity);
        proof {
            assert forall|i: IndexType| #[trigger] self.entities@.contains_key(i) implies self.entities@[i].spec_id() == i by {
                if i != id {
                    assert(old(self).spec_entities().contains_key(i));
                }
            }
        }
        id
    }

    /// Adds a component of type `T`, made from `props`, to `entity`, which
    /// must exist; it replaces the one the entity had.
    pub fn add_component<T: StoredComponent>(&mut self, entity: IndexType, props: T::Properties)
        requires
            old(self).wf(),
            old(self).spec_entities().contains_key(entity),
        ensures
            final(self).wf(),
            final(self).spec_entities() == old(self).spec_entities().insert(entity, final(self).spec_entities()[entity]),
            final(self).spec_entities()[entity].spec_class() == old(self).spec_entities()[entity].spec_class(),
            final(self).spec_entities()[entity].spec_signature() == old(self).spec_entities()[entity].spec_signature().insert(
                T::kind_spec().spec_code(),
            ),
            T::stored(final(self).spec_components(), entity) matches Some(c) && c.owner_spec() == entity
                && !c.deleted_spec() && c.made_from(props),
            forall|e: IndexType| e != entity ==> #[trigger] T::stored(final(self).spec_components(), e) == T::stored(
                old(self).spec_components(),
                e,
            ),
            T::others_same(old(self).spec_components(), final(self).spec_components()),
    {
        let e = hash_map_get_mut(&mut self.entities, &entity).unwrap();
        e.add_component::<T>();
        let id = e.id();
        proof {
            assert forall|i: IndexType| #[trigger] self.entities@.contains_key(i) implies self.entities@[i].spec_id() == i by {
                assert(old(self).spec_entities().contains_key(i));
            }
        }
        let component = T::new(id, props);
        component.store(&mut self.components, entity);
    }

    /// The component of type `T` of `entity`.
    pub fn get_component<T: StoredComponent>(&self, entity: IndexType) -> (r: Option<&T>)
        ensures
            match r {
                Some(c) => T::stored(self.spec_components(), entity) == Some(*c),
                None => T::stored(self.spec_components(), entity) is None,
            },
    {
        T::fetch(&self.components, entity)
    }

    pub fn get_entity(&self, entity_index: IndexType) -> (r: Option<&Entity>)
        ensures
            match r {
                Some(e) => self.spec_entities().contains_key(entity_index) && *e == self.spec_entities()[entity_index],
                None => !self.spec_entities().contains_key(entity_index),
            },
    {
        self.entities.get(&entity_index)
    }

    pub fn get_entity_mut(&mut self, entity_index: IndexType) -> (r: Option<&mut Entity>)
        ensures
            final(self).spec_components() == old(self).spec_components(),
            match r {
                Some(e) => {
                    &&& old(self).spec_entities().contains_key(entity_index)
                    &&& *e == old(self).spec_entities()[entity_index]
                    &&& final(self).spec_entities() == old(self).spec_entities().insert(entity_index, *final(e))
                },
                None => {
                    &&& !old(self).spec_entities().contains_key(entity_index)
                    &&& final(self).spec_entities() == old(self).spec_entities()
                },
            },
    {
        hash_map_get_mut(&mut self.entities, &entity_index)
    }
}

} // verus!
