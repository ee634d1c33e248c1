//! Archetypes: predefined sets of components an entity can be made from.
use vstd::prelude::*;
use crate::common::{TypeId, TypeIdTy};
use crate::nvcore::ecs::{ComponentTypeId, ComponentTypeIdTy, Signature};
use crate::nvcore::ecs::component::{
    CharacterNameComponent, CharacterNameFormat, EComponentGraphTypes, NumericalFieldComponent,
    RelationshipComponent, StringFieldComponent,
};
use crate::nvcore::ecs::component::relationship::{Child, ERelationship, Major, Minor, Parent, Relationship};

verus! {

/// The type identifiers of a sequence of components.
pub open spec fn type_ids_of(components: Seq<EComponentGraphTypes>) -> Seq<TypeId> {
    components.map_values(|c: EComponentGraphTypes| TypeId { id: c.kind().type_id_spec() })
}

/// Stands for the component type `T` in a signature.
pub struct SigType<T: ComponentTypeIdTy> {
    phantom: std::marker::PhantomData<T>,
}

impl<T: ComponentTypeIdTy> SigType<T> {
    pub fn new() -> (r: Self) {
        SigType { phantom: std::marker::PhantomData }
    }

    /// The type identifier of `T`.
    pub fn into_type_id(self) -> (r: ComponentTypeId)
        ensures
            r.0.id == T::type_id_spec(),
    {
        ComponentTypeId(TypeId::of::<T>())
    }
}

/// The signature and name of an archetype, as plain strings.
pub struct ArchetypeGraph {
    pub sig: Vec<String>,
    pub name: String,
}

/// What an archetype is made of: a name, a signature and the components an
/// entity of the archetype starts with.
pub struct ArchetypeDescriptor {
    name: String,
    signature: Signature,
    components: Vec<EComponentGraphTypes>,
}

impl ArchetypeDescriptor {
    pub closed spec fn spec_name(self) -> Seq<char> {
        self.name@
    }

    pub closed spec fn spec_signature(self) -> Seq<TypeId> {
        self.signature@
    }

    pub closed spec fn spec_components(self) -> Seq<EComponentGraphTypes> {
        self.components@
    }

    /// An archetype with no name, no signature and no components.
    pub fn new_empty() -> (r: Self)
        ensures
            r.spec_name() == Seq::<char>::empty(),
            r.spec_signature() == Seq::<TypeId>::empty(),
            r.spec_components() == Seq::<EComponentGraphTypes>::empty(),
    {
        Self { name: String::new(), signature: Signature::new(), components: Vec::new() }
    }

    /// An archetype whose signature lists the type of each component, in order.
    pub fn new(name: String, components: Vec<EComponentGraphTypes>) -> (r: Self)
        ensures
            r.spec_name() == name@,
            r.spec_components() == components@,
            r.spec_signature() == type_ids_of(components@),
    {
        let mut ids: Vec<TypeId> = Vec::new();
        let mut i: usize = 0;
        while i < components.len()
            invariant
                0 <= i <= components@.len(),
                ids@ == type_ids_of(components@.take(i as int)),
            decreases components@.len() - i,
        {
            ids.push(components[i].get_type_id_ref());
            assert(components@.take(i + 1) =~= components@.take(i as int).push(components@[i as int]));
            i = i + 1;
        }
        assert(components@.take(components@.len() as int) =~= components@);
        Self { name, signature: Signature::from(ids), components }
    }

    /// The same archetype with the type `T` added to its signature, unless it
    /// is there.
    pub fn with_component<T: ComponentTypeIdTy>(self) -> (r: Self)
        ensures
            r.spec_name() == self.spec_name(),
            r.spec_components() == self.spec_components(),
            r.spec_signature() == if self.spec_signature().contains(TypeId { id: T::type_id_spec() }) {
                self.spec_signature()
            } else {
                self.spec_signature().push(TypeId { id: T::type_id_spec() })
            },
    {
        let mut s = self;
        s.signature.add(TypeId::of::<T>());
        s
    }

    /// An archetype with the given name, signature and components, as
    /// they were stored.
    pub fn from_parts(name: String, signature: Signature, components: Vec<EComponentGraphTypes>) -> (r: Self)
        ensures
            r.spec_name() == name@,
            r.spec_signature() == signature@,
            r.spec_components() == components@,
    {
        Self { name, signature, components }
    }

    /// The components an entity of the archetype starts with, to read.
    pub fn get_components(&self) -> (r: &Vec<EComponentGraphTypes>)
        ensures
            r@ == self.spec_components(),
    {
        &self.components
    }

    /// The components an entity of the archetype starts with.
    pub fn take_components(self) -> (r: Vec<EComponentGraphTypes>)
        ensures
            r@ == self.spec_components(),
    {
        self.components
    }

    pub fn get_signature(&self) -> (r: Signature)
        ensures
            r@ == self.spec_signature(),
    {
        self.signature.clone_sig()
    }

    pub fn get_signature_ref(&self) -> (r: &Signature)
        ensures
            r@ == self.spec_signature(),
    {
        &self.signature
    }

    pub fn get_name(&self) -> (r: &str)
        ensures
            r@ == self.spec_name(),
    {
        self.name.as_str()
    }
}

/// A type that describes an archetype.
pub trait ArchetypeTy {
    /// Whether `d` is the descriptor of this archetype.
    spec fn describes(&self, d: ArchetypeDescriptor) -> bool;

    /// The descriptor of this archetype.
    fn describe(&self) -> (r: ArchetypeDescriptor)
        ensures
            self.describes(r),
    ;
}

/// The archetype of a character: a name, age, height, weight, mother,
/// father and description.
#[derive(Clone, Copy, Debug)]
pub struct CharacterArchetype {}

/// An archetype held in a value of another archetype type.
pub struct Archetype<T: ArchetypeTy> {
    archetype: T,
}

impl<T: ArchetypeTy> Archetype<T> {
    pub closed spec fn spec_archetype(self) -> T {
        self.archetype
    }

    pub fn new(archetype: T) -> (r: Self)
        ensures
            r.spec_archetype() == archetype,
    {
        Archetype { archetype }
    }
}

/// A parent relationship of a son, between no entities yet.
fn parent_of_son(name: &str, parent: Parent) -> (r: Relationship)
    ensures
        r.spec_name() == name@,
        r.spec_relation() == ERelationship::MajorMinor(Major::Parent(parent), Minor::Child(Child::Son)),
        r.spec_pairs() == (0u128, 0u128),
{
    Relationship::new(String::from_str(name), ERelationship::parent_child(parent, Child::Son), (0, 0))
}

/// A numerical field of value zero.
fn zero_field(name: &str) -> (r: EComponentGraphTypes)
    ensures
        r matches EComponentGraphTypes::NumericalFieldComponent(c) && c.name@ == name@ && c.value == 0,
{
    EComponentGraphTypes::NumericalFieldComponent(
        NumericalFieldComponent { name: String::from_str(name), value: 0 },
    )
}

/// A numerical field named `name` of value zero.
pub open spec fn is_zero_field(c: EComponentGraphTypes, name: Seq<char>) -> bool {
    c matches EComponentGraphTypes::NumericalFieldComponent(f) && f.name@ == name && f.value == 0
}

/// A relationship component holding one relationship named `name`, from a
/// parent of kind `parent` to a son, between no entities yet.
pub open spec fn is_parent_field(c: EComponentGraphTypes, name: Seq<char>, parent: Parent) -> bool {
    c matches EComponentGraphTypes::RelationshipComponent(rc) && rc.relationships@.len() == 1
        && rc.relationships@[0].spec_name() == name && rc.relationships@[0].spec_relation()
        == ERelationship::MajorMinor(Major::Parent(parent), Minor::Child(Child::Son))
        && rc.relationships@[0].spec_pairs() == (0u128, 0u128)
}

/// The components a character starts with, in order: a name ("Given name",
/// no other names, "Family name", no aliases); the numerical fields "Age",
/// "Height" and "Weight", each zero; the relationships "Mother" and
/// "Father"; and an empty text field "Description".
pub open spec fn character_components(cs: Seq<EComponentGraphTypes>) -> bool {
    &&& cs.len() == 7
    &&& cs[0] matches EComponentGraphTypes::CharacterNameComponent(n) && n.name.given_name@ == "Given name"@
        && n.name.other_names@.len() == 0 && n.name.family_name@ == "Family name"@ && n.aliases@.len() == 0
    &&& is_zero_field(cs[1], "Age"@)
    &&& is_zero_field(cs[2], "Height"@)
    &&& is_zero_field(cs[3], "Weight"@)
    &&& is_parent_field(cs[4], "Mother"@, Parent::Mother)
    &&& is_parent_field(cs[5], "Father"@, Parent::Father)
    &&& cs[6] matches EComponentGraphTypes::StringFieldComponent(f) && f.name@ == "Description"@
        && f.value@.len() == 0
}

impl CharacterArchetype {
    /// The description of a character.
    pub fn describe_character(&self) -> (r: ArchetypeDescriptor)
        ensures
            Self::is_character_descriptor(r),
    {
        let name = CharacterNameComponent {
            name: CharacterNameFormat {
                given_name: String::from_str("Given name"),
                other_names: Vec::new(),
                family_name: String::from_str("Family name"),
            },
            aliases: Vec::new(),
        };
        let mut components: Vec<EComponentGraphTypes> = Vec::new();
        components.push(EComponentGraphTypes::CharacterNameComponent(name));
        components.push(zero_field("Age"));
        components.push(zero_field("Height"));
        components.push(zero_field("Weight"));
        let mut mother: Vec<Relationship> = Vec::new();
        mother.push(parent_of_son("Mother", Parent::Mother));
        components.push(
            EComponentGraphTypes::RelationshipComponent(RelationshipComponent { relationships: mother }),
        );
        let mut father: Vec<Relationship> = Vec::new();
        father.push(parent_of_son("Father", Parent::Father));
        components.push(
            EComponentGraphTypes::RelationshipComponent(RelationshipComponent { relationships: father }),
        );
        components.push(
            EComponentGraphTypes::StringFieldComponent(
                StringFieldComponent {
                    name: String::from_str("Description"),
                    value: String::new(),
                },
            ),
        );
        ArchetypeDescriptor::new(String::from_str("Character"), components)
    }
}

impl CharacterArchetype {
    /// Whether `d` is the descriptor of a character: named "Character", with
    /// the components of [`character_components`], and the types of those
    /// components as its signature.
    pub open spec fn is_character_descriptor(d: ArchetypeDescriptor) -> bool {
        &&& d.spec_name() == "Character"@
        &&& character_components(d.spec_components())
        &&& d.spec_signature() == type_ids_of(d.spec_components())
    }
}

impl ArchetypeTy for CharacterArchetype {
    open spec fn describes(&self, d: ArchetypeDescriptor) -> bool {
        Self::is_character_descriptor(d)
    }

    fn describe(&self) -> (r: ArchetypeDescriptor) {
        self.describe_character()
    }
}

impl<T: ArchetypeTy> ArchetypeTy for Archetype<T> {
    /// The held archetype's descriptor.
    open spec fn describes(&self, d: ArchetypeDescriptor) -> bool {
        self.spec_archetype().describes(d)
    }

    fn describe(&self) -> (r: ArchetypeDescriptor) {
        self.archetype.describe()
    }
}

/// An archetype given as JSON text; app/ reads the text into a descriptor.
pub struct JsonArchetype {
    archetype_name: String,
    pub json_string: String,
}

impl JsonArchetype {
    pub closed spec fn spec_archetype_name(self) -> Seq<char> {
        self.archetype_name@
    }

    pub closed spec fn spec_json(self) -> Seq<char> {
        self.json_string@
    }

    pub fn new(archetype_name: String, json_string: String) -> (r: Self)
        ensures
            r.spec_archetype_name() == archetype_name@,
            r.spec_json() == json_string@,
    {
        Self { archetype_name, json_string }
    }

    pub fn get_json(&self) -> (r: &str)
        ensures
            r@ == self.spec_json(),
    {
        self.json_string.as_str()
    }

    pub fn get_archetype_name(&self) -> (r: &str)
        ensures
            r@ == self.spec_archetype_name(),
    {
        self.archetype_name.as_str()
    }
}

} // verus!
