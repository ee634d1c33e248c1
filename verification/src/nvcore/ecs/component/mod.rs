//! The component types of the kernel, and the enums that list them.
pub mod archetypes;
pub mod relationship;

use vstd::prelude::*;
use crate::common::{TypeId, TypeIdTy};
use crate::common::text::str_equals;
use crate::nvcore::Event;
use crate::nvcore::ecs::{AnyComponentStore, CommonComponentStore, ComponentTy, ComponentTyReqs, ComponentTypeIdTy};
use crate::nvcore::ecs::component::relationship::Relationship;

verus! {

/// A general location, the basic tracking of where things are.
#[derive(Debug, Clone)]
pub struct GenericLocation {
    pub name: String,
    pub description: String,
}

/// The kinds of location.
#[derive(Debug, Clone)]
pub enum ELocation {
    Generic(GenericLocation),
}

impl Default for ELocation {
    fn default() -> (r: Self)
        ensures
            r matches ELocation::Generic(g) && g.name@ == Seq::<char>::empty() && g.description@
                == Seq::<char>::empty(),
    {
        ELocation::Generic(GenericLocation { name: String::new(), description: String::new() })
    }
}

/// Where an entity is.
#[derive(Debug, Clone)]
pub struct LocationComponent {
    pub location: ELocation,
}

/// The archetype an entity was made from.
#[derive(Debug, Clone)]
pub struct ArchetypeComponent {
    pub archetype_name: String,
}

/// Data that can be written out as bytes.
pub trait BinaryTy {
    fn to_bytes(&self) -> Vec<u8>;
}

/// A named text field.
#[derive(Debug, Clone)]
pub struct StringFieldComponent {
    pub name: String,
    pub value: String,
}

/// A named numeric field. The value is the bit pattern of an `f32`
/// (`f32::to_bits`); nothing here reads it as a number.
#[derive(Debug, Clone)]
pub struct NumericalFieldComponent {
    pub name: String,
    pub value: u32,
}

/// The sexes.
#[derive(Debug, Clone, Copy, PartialEq, Eq, Structural)]
pub enum ESex {
    Male,
    Female,
}

impl Default for ESex {
    fn default() -> (r: Self)
        ensures
            r == ESex::Male,
    {
        ESex::Male
    }
}

/// The age of an entity, as the bit pattern of an `f32`.
#[derive(Debug, Clone)]
pub struct AgeComponent {
    age: u32,
}

impl AgeComponent {
    pub closed spec fn spec_age(self) -> u32 {
        self.age
    }

    /// The bit pattern of the age.
    pub fn age_bits(&self) -> (r: u32)
        ensures
            r == self.spec_age(),
    {
        self.age
    }

    /// The age whose bits are `bits`.
    pub fn from_age_bits(bits: u32) -> (r: Self)
        ensures
            r.spec_age() == bits,
    {
        AgeComponent { age: bits }
    }
}

/// The sex of an entity.
#[derive(Debug, Clone)]
pub struct Sex {
    pub sex: ESex,
}

/// A name and its aliases.
#[derive(Debug, Clone)]
pub struct NameComponent {
    pub name: String,
    pub aliases: Vec<String>,
}

/// The parts of a character's name.
#[derive(Debug, Clone)]
pub struct CharacterNameFormat {
    pub given_name: String,
    pub other_names: Vec<String>,
    pub family_name: String,
}

impl Default for CharacterNameFormat {
    fn default() -> (r: Self)
        ensures
            r.given_name@ == Seq::<char>::empty(),
            r.other_names@ == Seq::<String>::empty(),
            r.family_name@ == Seq::<char>::empty(),
    {
        CharacterNameFormat {
            given_name: String::new(),
            other_names: Vec::new(),
            family_name: String::new(),
        }
    }
}

/// The name of a character.
#[derive(Debug, Clone)]
pub struct CharacterNameComponent {
    pub name: CharacterNameFormat,
    pub aliases: Vec<String>,
}

/// The kinds of binary data.
#[derive(Debug, Clone, Copy, PartialEq, Eq, Structural)]
pub enum BinaryDataType {
    Video,
    Audio,
    Image,
    Binary,
}

impl Default for BinaryDataType {
    fn default() -> (r: Self)
        ensures
            r == BinaryDataType::Image,
    {
        BinaryDataType::Image
    }
}

/// One piece of binary data and the path of the file that holds it.
#[derive(Debug, Clone)]
pub struct BinaryComponentElement {
    pub name: String,
    pub description: String,
    pub data_type: BinaryDataType,
    data: String,
}

impl BinaryComponentElement {
    pub closed spec fn spec_name(self) -> Seq<char> {
        self.name@
    }

    pub closed spec fn spec_description(self) -> Seq<char> {
        self.description@
    }

    pub closed spec fn spec_data_type(self) -> BinaryDataType {
        self.data_type
    }

    /// The path of the file that holds the data.
    pub closed spec fn spec_data(self) -> Seq<char> {
        self.data@
    }

    pub fn new(name: String, description: String, data_type: BinaryDataType, data: String) -> (r:
        Self)
        ensures
            r.spec_name() == name@,
            r.spec_description() == description@,
            r.spec_data_type() == data_type,
            r.spec_data() == data@,
    {
        BinaryComponentElement { name, description, data_type, data }
    }

    pub fn get_data(&self) -> (r: &str)
        ensures
            r@ == self.spec_data(),
    {
        self.data.as_str()
    }
}

/// The binary data of an entity.
#[derive(Debug, Clone)]
pub struct BinaryComponent {
    elements: Vec<BinaryComponentElement>,
}

impl BinaryComponent {
    pub closed spec fn spec_elements(self) -> Seq<BinaryComponentElement> {
        self.elements@
    }

    pub fn new(elements: Vec<BinaryComponentElement>) -> (r: Self)
        ensures
            r.spec_elements() == elements@,
    {
        BinaryComponent { elements }
    }

    pub fn get_elements(&self) -> (r: &Vec<BinaryComponentElement>)
        ensures
            r@ == self.spec_elements(),
    {
        &self.elements
    }
}

/// The relationships of an entity.
#[derive(Debug, Clone)]
pub struct RelationshipComponent {
    pub relationships: Vec<Relationship>,
}

/// An arc is a series of events related to a single entity, tracing its
/// development over the course of the narrative.
#[derive(Debug, Clone)]
pub struct ArcComponent {
    pub arc_name: String,
    pub arc_description: String,
    pub arc_events: Vec<Event>,
}

impl Default for LocationComponent {
    fn default() -> (r: Self)
        ensures
            r.location matches ELocation::Generic(g) && g.name@ == Seq::<char>::empty() && g.description@ == Seq::<char>::empty(),
    {
        LocationComponent { location: ELocation::default() }
    }
}

impl Default for StringFieldComponent {
    fn default() -> (r: Self)
        ensures
            r.name@ == Seq::<char>::empty() && r.value@ == Seq::<char>::empty(),
    {
        StringFieldComponent { name: String::new(), value: String::new() }
    }
}

impl Default for NumericalFieldComponent {
    fn default() -> (r: Self)
        ensures
            r.name@ == Seq::<char>::empty() && r.value == 0,
    {
        NumericalFieldComponent { name: String::new(), value: 0 }
    }
}

impl Default for AgeComponent {
    fn default() -> (r: Self)
        ensures
            r.spec_age() == 0,
    {
        AgeComponent { age: 0 }
    }
}

impl Default for Sex {
    fn default() -> (r: Self)
        ensures
            r.sex == ESex::Male,
    {
        Sex { sex: ESex::default() }
    }
}

impl Default for NameComponent {
    fn default() -> (r: Self)
        ensures
            r.name@ == Seq::<char>::empty() && r.aliases@ == Seq::<String>::empty(),
    {
        NameComponent { name: String::new(), aliases: Vec::new() }
    }
}

impl Default for CharacterNameComponent {
    fn default() -> (r: Self)
        ensures
            r.name.given_name@ == Seq::<char>::empty() && r.name.other_names@ == Seq::<String>::empty() && r.name.family_name@ == Seq::<char>::empty() && r.aliases@ == Seq::<String>::empty(),
    {
        CharacterNameComponent { name: CharacterNameFormat::default(), aliases: Vec::new() }
    }
}

impl Default for BinaryComponent {
    fn default() -> (r: Self)
        ensures
            r.spec_elements() == Seq::<BinaryComponentElement>::empty(),
    {
        BinaryComponent { elements: Vec::new() }
    }
}

impl Default for RelationshipComponent {
    fn default() -> (r: Self)
        ensures
            r.relationships@ == Seq::<Relationship>::empty(),
    {
        RelationshipComponent { relationships: Vec::new() }
    }
}

impl Default for ArcComponent {
    fn default() -> (r: Self)
        ensures
            r.arc_name@ == Seq::<char>::empty() && r.arc_description@ == Seq::<char>::empty() && r.arc_events@ == Seq::<Event>::empty(),
    {
        ArcComponent { arc_name: String::new(), arc_description: String::new(), arc_events: Vec::new() }
    }
}

/// The component types.
#[derive(Debug, Clone, Copy, PartialEq, Eq, Structural)]
pub enum EComponentTypes {
    LocationComponent,
    StringFieldComponent,
    NumericalFieldComponent,
    AgeComponent,
    Sex,
    NameComponent,
    CharacterNameComponent,
    BinaryComponent,
    RelationshipComponent,
    ArcComponent,
}

impl EComponentTypes {
    /// The type identifier of the component type.
    pub open spec fn type_id_spec(self) -> u64 {
        match self {
            EComponentTypes::LocationComponent => 1,
            EComponentTypes::StringFieldComponent => 2,
            EComponentTypes::NumericalFieldComponent => 3,
            EComponentTypes::AgeComponent => 4,
            EComponentTypes::Sex => 5,
            EComponentTypes::NameComponent => 6,
            EComponentTypes::CharacterNameComponent => 7,
            EComponentTypes::BinaryComponent => 8,
            EComponentTypes::RelationshipComponent => 9,
            EComponentTypes::ArcComponent => 10,
        }
    }

    /// The name of the component type.
    pub open spec fn name_spec(self) -> Seq<char> {
        match self {
            EComponentTypes::LocationComponent => "LocationComponent"@,
            EComponentTypes::StringFieldComponent => "StringFieldComponent"@,
            EComponentTypes::NumericalFieldComponent => "NumericalFieldComponent"@,
            EComponentTypes::AgeComponent => "AgeComponent"@,
            EComponentTypes::Sex => "Sex"@,
            EComponentTypes::NameComponent => "NameComponent"@,
            EComponentTypes::CharacterNameComponent => "CharacterNameComponent"@,
            EComponentTypes::BinaryComponent => "BinaryComponent"@,
            EComponentTypes::RelationshipComponent => "RelationshipComponent"@,
            EComponentTypes::ArcComponent => "ArcComponent"@,
        }
    }

    /// The component type with the given name, if there is one.
    pub fn from_name(name: &str) -> (r: Option<Self>)
        ensures
            match r {
                Some(k) => k.name_spec() == name@,
                None => forall|k: EComponentTypes| k.name_spec() != name@,
            },
    {
        if str_equals(name, "LocationComponent") {
            return Some(EComponentTypes::LocationComponent);
        }
        if str_equals(name, "StringFieldComponent") {
            return Some(EComponentTypes::StringFieldComponent);
        }
        if str_equals(name, "NumericalFieldComponent") {
            return Some(EComponentTypes::NumericalFieldComponent);
        }
        if str_equals(name, "AgeComponent") {
            return Some(EComponentTypes::AgeComponent);
        }
        if str_equals(name, "Sex") {
            return Some(EComponentTypes::Sex);
        }
        if str_equals(name, "NameComponent") {
            return Some(EComponentTypes::NameComponent);
        }
        if str_equals(name, "CharacterNameComponent") {
            return Some(EComponentTypes::CharacterNameComponent);
        }
        if str_equals(name, "BinaryComponent") {
            return Some(EComponentTypes::BinaryComponent);
        }
        if str_equals(name, "RelationshipComponent") {
            return Some(EComponentTypes::RelationshipComponent);
        }
        if str_equals(name, "ArcComponent") {
            return Some(EComponentTypes::ArcComponent);
        }
        proof {
            reveal_strlit("LocationComponent");
            reveal_strlit("StringFieldComponent");
            reveal_strlit("NumericalFieldComponent");
            reveal_strlit("AgeComponent");
            reveal_strlit("Sex");
            reveal_strlit("NameComponent");
            reveal_strlit("CharacterNameComponent");
            reveal_strlit("BinaryComponent");
            reveal_strlit("RelationshipComponent");
            reveal_strlit("ArcComponent");
        }
        assert forall|k: EComponentTypes| k.name_spec() != name@ by {
            match k {
                EComponentTypes::LocationComponent => {},
                EComponentTypes::StringFieldComponent => {},
                EComponentTypes::NumericalFieldComponent => {},
                EComponentTypes::AgeComponent => {},
                EComponentTypes::Sex => {},
                EComponentTypes::NameComponent => {},
                EComponentTypes::CharacterNameComponent => {},
                EComponentTypes::BinaryComponent => {},
                EComponentTypes::RelationshipComponent => {},
                EComponentTypes::ArcComponent => {},
            }
        }
        None
    }

    /// The type identifier of the component type.
    pub fn get_type_id(&self) -> (r: TypeId)
        ensures
            r.id == self.type_id_spec(),
    {
        match self {
            EComponentTypes::LocationComponent => TypeId::new(1),
            EComponentTypes::StringFieldComponent => TypeId::new(2),
            EComponentTypes::NumericalFieldComponent => TypeId::new(3),
            EComponentTypes::AgeComponent => TypeId::new(4),
            EComponentTypes::Sex => TypeId::new(5),
            EComponentTypes::NameComponent => TypeId::new(6),
            EComponentTypes::CharacterNameComponent => TypeId::new(7),
            EComponentTypes::BinaryComponent => TypeId::new(8),
            EComponentTypes::RelationshipComponent => TypeId::new(9),
            EComponentTypes::ArcComponent => TypeId::new(10),
        }
    }
}

/// A component of any of the component types.
#[derive(Debug, Clone)]
pub enum EComponentGraphTypes {
    LocationComponent(LocationComponent),
    StringFieldComponent(StringFieldComponent),
    NumericalFieldComponent(NumericalFieldComponent),
    AgeComponent(AgeComponent),
    Sex(Sex),
    NameComponent(NameComponent),
    CharacterNameComponent(CharacterNameComponent),
    BinaryComponent(BinaryComponent),
    RelationshipComponent(RelationshipComponent),
    ArcComponent(ArcComponent),
}

impl EComponentGraphTypes {
    /// The type of the component.
    pub open spec fn kind(self) -> EComponentTypes {
        match self {
            EComponentGraphTypes::LocationComponent(_) => EComponentTypes::LocationComponent,
            EComponentGraphTypes::StringFieldComponent(_) => EComponentTypes::StringFieldComponent,
            EComponentGraphTypes::NumericalFieldComponent(_) => EComponentTypes::NumericalFieldComponent,
            EComponentGraphTypes::AgeComponent(_) => EComponentTypes::AgeComponent,
            EComponentGraphTypes::Sex(_) => EComponentTypes::Sex,
            EComponentGraphTypes::NameComponent(_) => EComponentTypes::NameComponent,
            EComponentGraphTypes::CharacterNameComponent(_) => EComponentTypes::CharacterNameComponent,
            EComponentGraphTypes::BinaryComponent(_) => EComponentTypes::BinaryComponent,
            EComponentGraphTypes::RelationshipComponent(_) => EComponentTypes::RelationshipComponent,
            EComponentGraphTypes::ArcComponent(_) => EComponentTypes::ArcComponent,
        }
    }

    /// The type identifier of the component it holds.
    pub fn get_type_id_ref(&self) -> (r: TypeId)
        ensures
            r.id == self.kind().type_id_spec(),
    {
        match self {
            EComponentGraphTypes::LocationComponent(_) => TypeId::new(1),
            EComponentGraphTypes::StringFieldComponent(_) => TypeId::new(2),
            EComponentGraphTypes::NumericalFieldComponent(_) => TypeId::new(3),
            EComponentGraphTypes::AgeComponent(_) => TypeId::new(4),
            EComponentGraphTypes::Sex(_) => TypeId::new(5),
            EComponentGraphTypes::NameComponent(_) => TypeId::new(6),
            EComponentGraphTypes::CharacterNameComponent(_) => TypeId::new(7),
            EComponentGraphTypes::BinaryComponent(_) => TypeId::new(8),
            EComponentGraphTypes::RelationshipComponent(_) => TypeId::new(9),
            EComponentGraphTypes::ArcComponent(_) => TypeId::new(10),
        }
    }

    /// The type of the component it holds.
    pub fn get_kind(&self) -> (r: EComponentTypes)
        ensures
            r == self.kind(),
    {
        match self {
            EComponentGraphTypes::LocationComponent(_) => EComponentTypes::LocationComponent,
            EComponentGraphTypes::StringFieldComponent(_) => EComponentTypes::StringFieldComponent,
            EComponentGraphTypes::NumericalFieldComponent(_) => EComponentTypes::NumericalFieldComponent,
            EComponentGraphTypes::AgeComponent(_) => EComponentTypes::AgeComponent,
            EComponentGraphTypes::Sex(_) => EComponentTypes::Sex,
            EComponentGraphTypes::NameComponent(_) => EComponentTypes::NameComponent,
            EComponentGraphTypes::CharacterNameComponent(_) => EComponentTypes::CharacterNameComponent,
            EComponentGraphTypes::BinaryComponent(_) => EComponentTypes::BinaryComponent,
            EComponentGraphTypes::RelationshipComponent(_) => EComponentTypes::RelationshipComponent,
            EComponentGraphTypes::ArcComponent(_) => EComponentTypes::ArcComponent,
        }
    }
}

/// A reference to a component of any of the component types.
#[derive(Clone, Copy)]
pub enum ComponentRef<'a> {
    LocationComponent(&'a LocationComponent),
    StringFieldComponent(&'a StringFieldComponent),
    NumericalFieldComponent(&'a NumericalFieldComponent),
    AgeComponent(&'a AgeComponent),
    Sex(&'a Sex),
    NameComponent(&'a NameComponent),
    CharacterNameComponent(&'a CharacterNameComponent),
    BinaryComponent(&'a BinaryComponent),
    RelationshipComponent(&'a RelationshipComponent),
    ArcComponent(&'a ArcComponent),
}

impl<'a> ComponentRef<'a> {
    /// The component referred to.
    pub open spec fn graph(self) -> EComponentGraphTypes {
        match self {
            ComponentRef::LocationComponent(c) => EComponentGraphTypes::LocationComponent(*c),
            ComponentRef::StringFieldComponent(c) => EComponentGraphTypes::StringFieldComponent(*c),
            ComponentRef::NumericalFieldComponent(c) => EComponentGraphTypes::NumericalFieldComponent(*c),
            ComponentRef::AgeComponent(c) => EComponentGraphTypes::AgeComponent(*c),
            ComponentRef::Sex(c) => EComponentGraphTypes::Sex(*c),
            ComponentRef::NameComponent(c) => EComponentGraphTypes::NameComponent(*c),
            ComponentRef::CharacterNameComponent(c) => EComponentGraphTypes::CharacterNameComponent(*c),
            ComponentRef::BinaryComponent(c) => EComponentGraphTypes::BinaryComponent(*c),
            ComponentRef::RelationshipComponent(c) => EComponentGraphTypes::RelationshipComponent(*c),
            ComponentRef::ArcComponent(c) => EComponentGraphTypes::ArcComponent(*c),
        }
    }

    /// The type identifier of the component referred to.
    pub fn get_component_type_id(&self) -> (r: TypeId)
        ensures
            r.id == self.graph().kind().type_id_spec(),
    {
        match self {
            ComponentRef::LocationComponent(_) => TypeId::new(1),
            ComponentRef::StringFieldComponent(_) => TypeId::new(2),
            ComponentRef::NumericalFieldComponent(_) => TypeId::new(3),
            ComponentRef::AgeComponent(_) => TypeId::new(4),
            ComponentRef::Sex(_) => TypeId::new(5),
            ComponentRef::NameComponent(_) => TypeId::new(6),
            ComponentRef::CharacterNameComponent(_) => TypeId::new(7),
            ComponentRef::BinaryComponent(_) => TypeId::new(8),
            ComponentRef::RelationshipComponent(_) => TypeId::new(9),
            ComponentRef::ArcComponent(_) => TypeId::new(10),
        }
    }
}

impl ComponentTypeIdTy for LocationComponent {

}

impl TypeIdTy for LocationComponent {
    open spec fn type_id_spec() -> u64 {
        EComponentTypes::LocationComponent.type_id_spec()
    }

    open spec fn type_name_spec() -> Seq<char> {
        EComponentTypes::LocationComponent.name_spec()
    }

    fn get_type_id() -> (r: TypeId) {
        TypeId::new(1)
    }

    fn get_type_id_ref(&self) -> (r: TypeId) {
        TypeId::new(1)
    }

    fn get_name() -> (r: &'static str) {
        "LocationComponent"
    }

    fn get_name_ref(&self) -> (r: &'static str) {
        "LocationComponent"
    }
}

impl ComponentTy for LocationComponent {
    open spec fn kind_spec() -> EComponentTypes {
        EComponentTypes::LocationComponent
    }

    open spec fn graph_spec(self) -> EComponentGraphTypes {
        EComponentGraphTypes::LocationComponent(self)
    }

    open spec fn store_of(a: AnyComponentStore) -> Option<CommonComponentStore<Self>> {
        match a {
            AnyComponentStore::LocationComponent(s) => Some(s),
            _ => None,
        }
    }

    open spec fn ref_of(r: ComponentRef) -> Option<Self> {
        match r {
            ComponentRef::LocationComponent(c) => Some(*c),
            _ => None,
        }
    }

    proof fn lemma_component_kind() {
    }

    fn get_component_name(&self) -> (r: &'static str) {
        "LocationComponent"
    }

    fn get_component_type(&self) -> (r: EComponentTypes) {
        EComponentTypes::LocationComponent
    }

    fn into_graph(self) -> (r: EComponentGraphTypes) {
        EComponentGraphTypes::LocationComponent(self)
    }

    fn from_graph(g: EComponentGraphTypes) -> (r: Option<Self>) {
        match g {
            EComponentGraphTypes::LocationComponent(c) => Some(c),
            _ => None,
        }
    }

    fn as_component_ref(&self) -> (r: ComponentRef<'_>) {
        ComponentRef::LocationComponent(self)
    }

    fn from_component_ref<'a>(r: ComponentRef<'a>) -> (res: Option<&'a Self>) {
        match r {
            ComponentRef::LocationComponent(c) => Some(c),
            _ => None,
        }
    }

    fn wrap_store(s: CommonComponentStore<Self>) -> (r: AnyComponentStore) {
        AnyComponentStore::LocationComponent(s)
    }

    fn unwrap_store(a: AnyComponentStore) -> (r: Result<CommonComponentStore<Self>, AnyComponentStore>) {
        match a {
            AnyComponentStore::LocationComponent(s) => Ok(s),
            other => Err(other),
        }
    }

    fn store_ref(a: &AnyComponentStore) -> (r: Option<&CommonComponentStore<Self>>) {
        match a {
            AnyComponentStore::LocationComponent(s) => Some(s),
            _ => None,
        }
    }

    fn store_mut(a: &mut AnyComponentStore) -> (r: Option<&mut CommonComponentStore<Self>>) {
        match a {
            AnyComponentStore::LocationComponent(s) => Some(s),
            _ => None,
        }
    }
}

impl ComponentTypeIdTy for StringFieldComponent {

}

impl TypeIdTy for StringFieldComponent {
    open spec fn type_id_spec() -> u64 {
        EComponentTypes::StringFieldComponent.type_id_spec()
    }

    open spec fn type_name_spec() -> Seq<char> {
        EComponentTypes::StringFieldComponent.name_spec()
    }

    fn get_type_id() -> (r: TypeId) {
        TypeId::new(2)
    }

    fn get_type_id_ref(&self) -> (r: TypeId) {
        TypeId::new(2)
    }

    fn get_name() -> (r: &'static str) {
        "StringFieldComponent"
    }

    fn get_name_ref(&self) -> (r: &'static str) {
        "StringFieldComponent"
    }
}

impl ComponentTy for StringFieldComponent {
    open spec fn kind_spec() -> EComponentTypes {
        EComponentTypes::StringFieldComponent
    }

    open spec fn graph_spec(self) -> EComponentGraphTypes {
        EComponentGraphTypes::StringFieldComponent(self)
    }

    open spec fn store_of(a: AnyComponentStore) -> Option<CommonComponentStore<Self>> {
        match a {
            AnyComponentStore::StringFieldComponent(s) => Some(s),
            _ => None,
        }
    }

    open spec fn ref_of(r: ComponentRef) -> Option<Self> {
        match r {
            ComponentRef::StringFieldComponent(c) => Some(*c),
            _ => None,
        }
    }

    proof fn lemma_component_kind() {
    }

    fn get_component_name(&self) -> (r: &'static str) {
        "StringFieldComponent"
    }

    fn get_component_type(&self) -> (r: EComponentTypes) {
        EComponentTypes::StringFieldComponent
    }

    fn into_graph(self) -> (r: EComponentGraphTypes) {
        EComponentGraphTypes::StringFieldComponent(self)
    }

    fn from_graph(g: EComponentGraphTypes) -> (r: Option<Self>) {
        match g {
            EComponentGraphTypes::StringFieldComponent(c) => Some(c),
            _ => None,
        }
    }

    fn as_component_ref(&self) -> (r: ComponentRef<'_>) {
        ComponentRef::StringFieldComponent(self)
    }

    fn from_component_ref<'a>(r: ComponentRef<'a>) -> (res: Option<&'a Self>) {
        match r {
            ComponentRef::StringFieldComponent(c) => Some(c),
            _ => None,
        }
    }

    fn wrap_store(s: CommonComponentStore<Self>) -> (r: AnyComponentStore) {
        AnyComponentStore::StringFieldComponent(s)
    }

    fn unwrap_store(a: AnyComponentStore) -> (r: Result<CommonComponentStore<Self>, AnyComponentStore>) {
        match a {
            AnyComponentStore::StringFieldComponent(s) => Ok(s),
            other => Err(other),
        }
    }

    fn store_ref(a: &AnyComponentStore) -> (r: Option<&CommonComponentStore<Self>>) {
        match a {
            AnyComponentStore::StringFieldComponent(s) => Some(s),
            _ => None,
        }
    }

    fn store_mut(a: &mut AnyComponentStore) -> (r: Option<&mut CommonComponentStore<Self>>) {
        match a {
            AnyComponentStore::StringFieldComponent(s) => Some(s),
            _ => None,
        }
    }
}

impl ComponentTypeIdTy for NumericalFieldComponent {

}

impl TypeIdTy for NumericalFieldComponent {
    open spec fn type_id_spec() -> u64 {
        EComponentTypes::NumericalFieldComponent.type_id_spec()
    }

    open spec fn type_name_spec() -> Seq<char> {
        EComponentTypes::NumericalFieldComponent.name_spec()
    }

    fn get_type_id() -> (r: TypeId) {
        TypeId::new(3)
    }

    fn get_type_id_ref(&self) -> (r: TypeId) {
        TypeId::new(3)
    }

    fn get_name() -> (r: &'static str) {
        "NumericalFieldComponent"
    }

    fn get_name_ref(&self) -> (r: &'static str) {
        "NumericalFieldComponent"
    }
}

impl ComponentTy for NumericalFieldComponent {
    open spec fn kind_spec() -> EComponentTypes {
        EComponentTypes::NumericalFieldComponent
    }

    open spec fn graph_spec(self) -> EComponentGraphTypes {
        EComponentGraphTypes::NumericalFieldComponent(self)
    }

    open spec fn store_of(a: AnyComponentStore) -> Option<CommonComponentStore<Self>> {
        match a {
            AnyComponentStore::NumericalFieldComponent(s) => Some(s),
            _ => None,
        }
    }

    open spec fn ref_of(r: ComponentRef) -> Option<Self> {
        match r {
            ComponentRef::NumericalFieldComponent(c) => Some(*c),
            _ => None,
        }
    }

    proof fn lemma_component_kind() {
    }

    fn get_component_name(&self) -> (r: &'static str) {
        "NumericalFieldComponent"
    }

    fn get_component_type(&self) -> (r: EComponentTypes) {
        EComponentTypes::NumericalFieldComponent
    }

    fn into_graph(self) -> (r: EComponentGraphTypes) {
        EComponentGraphTypes::NumericalFieldComponent(self)
    }

    fn from_graph(g: EComponentGraphTypes) -> (r: Option<Self>) {
        match g {
            EComponentGraphTypes::NumericalFieldComponent(c) => Some(c),
            _ => None,
        }
    }

    fn as_component_ref(&self) -> (r: ComponentRef<'_>) {
        ComponentRef::NumericalFieldComponent(self)
    }

    fn from_component_ref<'a>(r: ComponentRef<'a>) -> (res: Option<&'a Self>) {
        match r {
            ComponentRef::NumericalFieldComponent(c) => Some(c),
            _ => None,
        }
    }

    fn wrap_store(s: CommonComponentStore<Self>) -> (r: AnyComponentStore) {
        AnyComponentStore::NumericalFieldComponent(s)
    }

    fn unwrap_store(a: AnyComponentStore) -> (r: Result<CommonComponentStore<Self>, AnyComponentStore>) {
        match a {
            AnyComponentStore::NumericalFieldComponent(s) => Ok(s),
            other => Err(other),
        }
    }

    fn store_ref(a: &AnyComponentStore) -> (r: Option<&CommonComponentStore<Self>>) {
        match a {
            AnyComponentStore::NumericalFieldComponent(s) => Some(s),
            _ => None,
        }
    }

    fn store_mut(a: &mut AnyComponentStore) -> (r: Option<&mut CommonComponentStore<Self>>) {
        match a {
            AnyComponentStore::NumericalFieldComponent(s) => Some(s),
            _ => None,
        }
    }
}

impl ComponentTypeIdTy for AgeComponent {

}

impl TypeIdTy for AgeComponent {
    open spec fn type_id_spec() -> u64 {
        EComponentTypes::AgeComponent.type_id_spec()
    }

    open spec fn type_name_spec() -> Seq<char> {
        EComponentTypes::AgeComponent.name_spec()
    }

    fn get_type_id() -> (r: TypeId) {
        TypeId::new(4)
    }

    fn get_type_id_ref(&self) -> (r: TypeId) {
        TypeId::new(4)
    }

    fn get_name() -> (r: &'static str) {
        "AgeComponent"
    }

    fn get_name_ref(&self) -> (r: &'static str) {
        "AgeComponent"
    }
}

impl ComponentTy for AgeComponent {
    open spec fn kind_spec() -> EComponentTypes {
        EComponentTypes::AgeComponent
    }

    open spec fn graph_spec(self) -> EComponentGraphTypes {
        EComponentGraphTypes::AgeComponent(self)
    }

    open spec fn store_of(a: AnyComponentStore) -> Option<CommonComponentStore<Self>> {
        match a {
            AnyComponentStore::AgeComponent(s) => Some(s),
            _ => None,
        }
    }

    open spec fn ref_of(r: ComponentRef) -> Option<Self> {
        match r {
            ComponentRef::AgeComponent(c) => Some(*c),
            _ => None,
        }
    }

    proof fn lemma_component_kind() {
    }

    fn get_component_name(&self) -> (r: &'static str) {
        "AgeComponent"
    }

    fn get_component_type(&self) -> (r: EComponentTypes) {
        EComponentTypes::AgeComponent
    }

    fn into_graph(self) -> (r: EComponentGraphTypes) {
        EComponentGraphTypes::AgeComponent(self)
    }

    fn from_graph(g: EComponentGraphTypes) -> (r: Option<Self>) {
        match g {
            EComponentGraphTypes::AgeComponent(c) => Some(c),
            _ => None,
        }
    }

    fn as_component_ref(&self) -> (r: ComponentRef<'_>) {
        ComponentRef::AgeComponent(self)
    }

    fn from_component_ref<'a>(r: ComponentRef<'a>) -> (res: Option<&'a Self>) {
        match r {
            ComponentRef::AgeComponent(c) => Some(c),
            _ => None,
        }
    }

    fn wrap_store(s: CommonComponentStore<Self>) -> (r: AnyComponentStore) {
        AnyComponentStore::AgeComponent(s)
    }

    fn unwrap_store(a: AnyComponentStore) -> (r: Result<CommonComponentStore<Self>, AnyComponentStore>) {
        match a {
            AnyComponentStore::AgeComponent(s) => Ok(s),
            other => Err(other),
        }
    }

    fn store_ref(a: &AnyComponentStore) -> (r: Option<&CommonComponentStore<Self>>) {
        match a {
            AnyComponentStore::AgeComponent(s) => Some(s),
            _ => None,
        }
    }

    fn store_mut(a: &mut AnyComponentStore) -> (r: Option<&mut CommonComponentStore<Self>>) {
        match a {
            AnyComponentStore::AgeComponent(s) => Some(s),
            _ => None,
        }
    }
}

impl ComponentTypeIdTy for Sex {

}

impl TypeIdTy for Sex {
    open spec fn type_id_spec() -> u64 {
        EComponentTypes::Sex.type_id_spec()
    }

    open spec fn type_name_spec() -> Seq<char> {
        EComponentTypes::Sex.name_spec()
    }

    fn get_type_id() -> (r: TypeId) {
        TypeId::new(5)
    }

    fn get_type_id_ref(&self) -> (r: TypeId) {
        TypeId::new(5)
    }

    fn get_name() -> (r: &'static str) {
        "Sex"
    }

    fn get_name_ref(&self) -> (r: &'static str) {
        "Sex"
    }
}

impl ComponentTy for Sex {
    open spec fn kind_spec() -> EComponentTypes {
        EComponentTypes::Sex
    }

    open spec fn graph_spec(self) -> EComponentGraphTypes {
        EComponentGraphTypes::Sex(self)
    }

    open spec fn store_of(a: AnyComponentStore) -> Option<CommonComponentStore<Self>> {
        match a {
            AnyComponentStore::Sex(s) => Some(s),
            _ => None,
        }
    }

    open spec fn ref_of(r: ComponentRef) -> Option<Self> {
        match r {
            ComponentRef::Sex(c) => Some(*c),
            _ => None,
        }
    }

    proof fn lemma_component_kind() {
    }

    fn get_component_name(&self) -> (r: &'static str) {
        "Sex"
    }

    fn get_component_type(&self) -> (r: EComponentTypes) {
        EComponentTypes::Sex
    }

    fn into_graph(self) -> (r: EComponentGraphTypes) {
        EComponentGraphTypes::Sex(self)
    }

    fn from_graph(g: EComponentGraphTypes) -> (r: Option<Self>) {
        match g {
            EComponentGraphTypes::Sex(c) => Some(c),
            _ => None,
        }
    }

    fn as_component_ref(&self) -> (r: ComponentRef<'_>) {
        ComponentRef::Sex(self)
    }

    fn from_component_ref<'a>(r: ComponentRef<'a>) -> (res: Option<&'a Self>) {
        match r {
            ComponentRef::Sex(c) => Some(c),
            _ => None,
        }
    }

    fn wrap_store(s: CommonComponentStore<Self>) -> (r: AnyComponentStore) {
        AnyComponentStore::Sex(s)
    }

    fn unwrap_store(a: AnyComponentStore) -> (r: Result<CommonComponentStore<Self>, AnyComponentStore>) {
        match a {
            AnyComponentStore::Sex(s) => Ok(s),
            other => Err(other),
        }
    }

    fn store_ref(a: &AnyComponentStore) -> (r: Option<&CommonComponentStore<Self>>) {
        match a {
            AnyComponentStore::Sex(s) => Some(s),
            _ => None,
        }
    }

    fn store_mut(a: &mut AnyComponentStore) -> (r: Option<&mut CommonComponentStore<Self>>) {
        match a {
            AnyComponentStore::Sex(s) => Some(s),
            _ => None,
        }
    }
}

impl ComponentTypeIdTy for NameComponent {

}

impl TypeIdTy for NameComponent {
    open spec fn type_id_spec() -> u64 {
        EComponentTypes::NameComponent.type_id_spec()
    }

    open spec fn type_name_spec() -> Seq<char> {
        EComponentTypes::NameComponent.name_spec()
    }

    fn get_type_id() -> (r: TypeId) {
        TypeId::new(6)
    }

    fn get_type_id_ref(&self) -> (r: TypeId) {
        TypeId::new(6)
    }

    fn get_name() -> (r: &'static str) {
        "NameComponent"
    }

    fn get_name_ref(&self) -> (r: &'static str) {
        "NameComponent"
    }
}

impl ComponentTy for NameComponent {
    open spec fn kind_spec() -> EComponentTypes {
        EComponentTypes::NameComponent
    }

    open spec fn graph_spec(self) -> EComponentGraphTypes {
        EComponentGraphTypes::NameComponent(self)
    }

    open spec fn store_of(a: AnyComponentStore) -> Option<CommonComponentStore<Self>> {
        match a {
            AnyComponentStore::NameComponent(s) => Some(s),
            _ => None,
        }
    }

    open spec fn ref_of(r: ComponentRef) -> Option<Self> {
        match r {
            ComponentRef::NameComponent(c) => Some(*c),
            _ => None,
        }
    }

    proof fn lemma_component_kind() {
    }

    fn get_component_name(&self) -> (r: &'static str) {
        "NameComponent"
    }

    fn get_component_type(&self) -> (r: EComponentTypes) {
        EComponentTypes::NameComponent
    }

    fn into_graph(self) -> (r: EComponentGraphTypes) {
        EComponentGraphTypes::NameComponent(self)
    }

    fn from_graph(g: EComponentGraphTypes) -> (r: Option<Self>) {
        match g {
            EComponentGraphTypes::NameComponent(c) => Some(c),
            _ => None,
        }
    }

    fn as_component_ref(&self) -> (r: ComponentRef<'_>) {
        ComponentRef::NameComponent(self)
    }

    fn from_component_ref<'a>(r: ComponentRef<'a>) -> (res: Option<&'a Self>) {
        match r {
            ComponentRef::NameComponent(c) => Some(c),
            _ => None,
        }
    }

    fn wrap_store(s: CommonComponentStore<Self>) -> (r: AnyComponentStore) {
        AnyComponentStore::NameComponent(s)
    }

    fn unwrap_store(a: AnyComponentStore) -> (r: Result<CommonComponentStore<Self>, AnyComponentStore>) {
        match a {
            AnyComponentStore::NameComponent(s) => Ok(s),
            other => Err(other),
        }
    }

    fn store_ref(a: &AnyComponentStore) -> (r: Option<&CommonComponentStore<Self>>) {
        match a {
            AnyComponentStore::NameComponent(s) => Some(s),
            _ => None,
        }
    }

    fn store_mut(a: &mut AnyComponentStore) -> (r: Option<&mut CommonComponentStore<Self>>) {
        match a {
            AnyComponentStore::NameComponent(s) => Some(s),
            _ => None,
        }
    }
}

impl ComponentTypeIdTy for CharacterNameComponent {

}

impl TypeIdTy for CharacterNameComponent {
    open spec fn type_id_spec() -> u64 {
        EComponentTypes::CharacterNameComponent.type_id_spec()
    }

    open spec fn type_name_spec() -> Seq<char> {
        EComponentTypes::CharacterNameComponent.name_spec()
    }

    fn get_type_id() -> (r: TypeId) {
        TypeId::new(7)
    }

    fn get_type_id_ref(&self) -> (r: TypeId) {
        TypeId::new(7)
    }

    fn get_name() -> (r: &'static str) {
        "CharacterNameComponent"
    }

    fn get_name_ref(&self) -> (r: &'static str) {
        "CharacterNameComponent"
    }
}

impl ComponentTy for CharacterNameComponent {
    open spec fn kind_spec() -> EComponentTypes {
        EComponentTypes::CharacterNameComponent
    }

    open spec fn graph_spec(self) -> EComponentGraphTypes {
        EComponentGraphTypes::CharacterNameComponent(self)
    }

    open spec fn store_of(a: AnyComponentStore) -> Option<CommonComponentStore<Self>> {
        match a {
            AnyComponentStore::CharacterNameComponent(s) => Some(s),
            _ => None,
        }
    }

    open spec fn ref_of(r: ComponentRef) -> Option<Self> {
        match r {
            ComponentRef::CharacterNameComponent(c) => Some(*c),
            _ => None,
        }
    }

    proof fn lemma_component_kind() {
    }

    fn get_component_name(&self) -> (r: &'static str) {
        "CharacterNameComponent"
    }

    fn get_component_type(&self) -> (r: EComponentTypes) {
        EComponentTypes::CharacterNameComponent
    }

    fn into_graph(self) -> (r: EComponentGraphTypes) {
        EComponentGraphTypes::CharacterNameComponent(self)
    }

    fn from_graph(g: EComponentGraphTypes) -> (r: Option<Self>) {
        match g {
            EComponentGraphTypes::CharacterNameComponent(c) => Some(c),
            _ => None,
        }
    }

    fn as_component_ref(&self) -> (r: ComponentRef<'_>) {
        ComponentRef::CharacterNameComponent(self)
    }

    fn from_component_ref<'a>(r: ComponentRef<'a>) -> (res: Option<&'a Self>) {
        match r {
            ComponentRef::CharacterNameComponent(c) => Some(c),
            _ => None,
        }
    }

    fn wrap_store(s: CommonComponentStore<Self>) -> (r: AnyComponentStore) {
        AnyComponentStore::CharacterNameComponent(s)
    }

    fn unwrap_store(a: AnyComponentStore) -> (r: Result<CommonComponentStore<Self>, AnyComponentStore>) {
        match a {
            AnyComponentStore::CharacterNameComponent(s) => Ok(s),
            other => Err(other),
        }
    }

    fn store_ref(a: &AnyComponentStore) -> (r: Option<&CommonComponentStore<Self>>) {
        match a {
            AnyComponentStore::CharacterNameComponent(s) => Some(s),
            _ => None,
        }
    }

    fn store_mut(a: &mut AnyComponentStore) -> (r: Option<&mut CommonComponentStore<Self>>) {
        match a {
            AnyComponentStore::CharacterNameComponent(s) => Some(s),
            _ => None,
        }
    }
}

impl ComponentTypeIdTy for BinaryComponent {

}

impl TypeIdTy for BinaryComponent {
    open spec fn type_id_spec() -> u64 {
        EComponentTypes::BinaryComponent.type_id_spec()
    }

    open spec fn type_name_spec() -> Seq<char> {
        EComponentTypes::BinaryComponent.name_spec()
    }

    fn get_type_id() -> (r: TypeId) {
        TypeId::new(8)
    }

    fn get_type_id_ref(&self) -> (r: TypeId) {
        TypeId::new(8)
    }

    fn get_name() -> (r: &'static str) {
        "BinaryComponent"
    }

    fn get_name_ref(&self) -> (r: &'static str) {
        "BinaryComponent"
    }
}

impl ComponentTy for BinaryComponent {
    open spec fn kind_spec() -> EComponentTypes {
        EComponentTypes::BinaryComponent
    }

    open spec fn graph_spec(self) -> EComponentGraphTypes {
        EComponentGraphTypes::BinaryComponent(self)
    }

    open spec fn store_of(a: AnyComponentStore) -> Option<CommonComponentStore<Self>> {
        match a {
            AnyComponentStore::BinaryComponent(s) => Some(s),
            _ => None,
        }
    }

    open spec fn ref_of(r: ComponentRef) -> Option<Self> {
        match r {
            ComponentRef::BinaryComponent(c) => Some(*c),
            _ => None,
        }
    }

    proof fn lemma_component_kind() {
    }

    fn get_component_name(&self) -> (r: &'static str) {
        "BinaryComponent"
    }

    fn get_component_type(&self) -> (r: EComponentTypes) {
        EComponentTypes::BinaryComponent
    }

    fn into_graph(self) -> (r: EComponentGraphTypes) {
        EComponentGraphTypes::BinaryComponent(self)
    }

    fn from_graph(g: EComponentGraphTypes) -> (r: Option<Self>) {
        match g {
            EComponentGraphTypes::BinaryComponent(c) => Some(c),
            _ => None,
        }
    }

    fn as_component_ref(&self) -> (r: ComponentRef<'_>) {
        ComponentRef::BinaryComponent(self)
    }

    fn from_component_ref<'a>(r: ComponentRef<'a>) -> (res: Option<&'a Self>) {
        match r {
            ComponentRef::BinaryComponent(c) => Some(c),
            _ => None,
        }
    }

    fn wrap_store(s: CommonComponentStore<Self>) -> (r: AnyComponentStore) {
        AnyComponentStore::BinaryComponent(s)
    }

    fn unwrap_store(a: AnyComponentStore) -> (r: Result<CommonComponentStore<Self>, AnyComponentStore>) {
        match a {
            AnyComponentStore::BinaryComponent(s) => Ok(s),
            other => Err(other),
        }
    }

    fn store_ref(a: &AnyComponentStore) -> (r: Option<&CommonComponentStore<Self>>) {
        match a {
            AnyComponentStore::BinaryComponent(s) => Some(s),
            _ => None,
        }
    }

    fn store_mut(a: &mut AnyComponentStore) -> (r: Option<&mut CommonComponentStore<Self>>) {
        match a {
            AnyComponentStore::BinaryComponent(s) => Some(s),
            _ => None,
        }
    }
}

impl ComponentTypeIdTy for RelationshipComponent {

}

impl TypeIdTy for RelationshipComponent {
    open spec fn type_id_spec() -> u64 {
        EComponentTypes::RelationshipComponent.type_id_spec()
    }

    open spec fn type_name_spec() -> Seq<char> {
        EComponentTypes::RelationshipComponent.name_spec()
    }

    fn get_type_id() -> (r: TypeId) {
        TypeId::new(9)
    }

    fn get_type_id_ref(&self) -> (r: TypeId) {
        TypeId::new(9)
    }

    fn get_name() -> (r: &'static str) {
        "RelationshipComponent"
    }

    fn get_name_ref(&self) -> (r: &'static str) {
        "RelationshipComponent"
    }
}

impl ComponentTy for RelationshipComponent {
    open spec fn kind_spec() -> EComponentTypes {
        EComponentTypes::RelationshipComponent
    }

    open spec fn graph_spec(self) -> EComponentGraphTypes {
        EComponentGraphTypes::RelationshipComponent(self)
    }

    open spec fn store_of(a: AnyComponentStore) -> Option<CommonComponentStore<Self>> {
        match a {
            AnyComponentStore::RelationshipComponent(s) => Some(s),
            _ => None,
        }
    }

    open spec fn ref_of(r: ComponentRef) -> Option<Self> {
        match r {
            ComponentRef::RelationshipComponent(c) => Some(*c),
            _ => None,
        }
    }

    proof fn lemma_component_kind() {
    }

    fn get_component_name(&self) -> (r: &'static str) {
        "RelationshipComponent"
    }

    fn get_component_type(&self) -> (r: EComponentTypes) {
        EComponentTypes::RelationshipComponent
    }

    fn into_graph(self) -> (r: EComponentGraphTypes) {
        EComponentGraphTypes::RelationshipComponent(self)
    }

    fn from_graph(g: EComponentGraphTypes) -> (r: Option<Self>) {
        match g {
            EComponentGraphTypes::RelationshipComponent(c) => Some(c),
            _ => None,
        }
    }

    fn as_component_ref(&self) -> (r: ComponentRef<'_>) {
        ComponentRef::RelationshipComponent(self)
    }

    fn from_component_ref<'a>(r: ComponentRef<'a>) -> (res: Option<&'a Self>) {
        match r {
            ComponentRef::RelationshipComponent(c) => Some(c),
            _ => None,
        }
    }

    fn wrap_store(s: CommonComponentStore<Self>) -> (r: AnyComponentStore) {
        AnyComponentStore::RelationshipComponent(s)
    }

    fn unwrap_store(a: AnyComponentStore) -> (r: Result<CommonComponentStore<Self>, AnyComponentStore>) {
        match a {
            AnyComponentStore::RelationshipComponent(s) => Ok(s),
            other => Err(other),
        }
    }

    fn store_ref(a: &AnyComponentStore) -> (r: Option<&CommonComponentStore<Self>>) {
        match a {
            AnyComponentStore::RelationshipComponent(s) => Some(s),
            _ => None,
        }
    }

    fn store_mut(a: &mut AnyComponentStore) -> (r: Option<&mut CommonComponentStore<Self>>) {
        match a {
            AnyComponentStore::RelationshipComponent(s) => Some(s),
            _ => None,
        }
    }
}

impl ComponentTypeIdTy for ArcComponent {

}

impl TypeIdTy for ArcComponent {
    open spec fn type_id_spec() -> u64 {
        EComponentTypes::ArcComponent.type_id_spec()
    }

    open spec fn type_name_spec() -> Seq<char> {
        EComponentTypes::ArcComponent.name_spec()
    }

    fn get_type_id() -> (r: TypeId) {
        TypeId::new(10)
    }

    fn get_type_id_ref(&self) -> (r: TypeId) {
        TypeId::new(10)
    }

    fn get_name() -> (r: &'static str) {
        "ArcComponent"
    }

    fn get_name_ref(&self) -> (r: &'static str) {
        "ArcComponent"
    }
}

impl ComponentTy for ArcComponent {
    open spec fn kind_spec() -> EComponentTypes {
        EComponentTypes::ArcComponent
    }

    open spec fn graph_spec(self) -> EComponentGraphTypes {
        EComponentGraphTypes::ArcComponent(self)
    }

    open spec fn store_of(a: AnyComponentStore) -> Option<CommonComponentStore<Self>> {
        match a {
            AnyComponentStore::ArcComponent(s) => Some(s),
            _ => None,
        }
    }

    open spec fn ref_of(r: ComponentRef) -> Option<Self> {
        match r {
            ComponentRef::ArcComponent(c) => Some(*c),
            _ => None,
        }
    }

    proof fn lemma_component_kind() {
    }

    fn get_component_name(&self) -> (r: &'static str) {
        "ArcComponent"
    }

    fn get_component_type(&self) -> (r: EComponentTypes) {
        EComponentTypes::ArcComponent
    }

    fn into_graph(self) -> (r: EComponentGraphTypes) {
        EComponentGraphTypes::ArcComponent(self)
    }

    fn from_graph(g: EComponentGraphTypes) -> (r: Option<Self>) {
        match g {
            EComponentGraphTypes::ArcComponent(c) => Some(c),
            _ => None,
        }
    }

    fn as_component_ref(&self) -> (r: ComponentRef<'_>) {
        ComponentRef::ArcComponent(self)
    }

    fn from_component_ref<'a>(r: ComponentRef<'a>) -> (res: Option<&'a Self>) {
        match r {
            ComponentRef::ArcComponent(c) => Some(c),
            _ => None,
        }
    }

    fn wrap_store(s: CommonComponentStore<Self>) -> (r: AnyComponentStore) {
        AnyComponentStore::ArcComponent(s)
    }

    fn unwrap_store(a: AnyComponentStore) -> (r: Result<CommonComponentStore<Self>, AnyComponentStore>) {
        match a {
            AnyComponentStore::ArcComponent(s) => Ok(s),
            other => Err(other),
        }
    }

    fn store_ref(a: &AnyComponentStore) -> (r: Option<&CommonComponentStore<Self>>) {
        match a {
            AnyComponentStore::ArcComponent(s) => Some(s),
            _ => None,
        }
    }

    fn store_mut(a: &mut AnyComponentStore) -> (r: Option<&mut CommonComponentStore<Self>>) {
        match a {
            AnyComponentStore::ArcComponent(s) => Some(s),
            _ => None,
        }
    }
}

} // verus!

verus! {

impl ComponentTyReqs for LocationComponent {
    proof fn lemma_store_of() {
    }
}

impl ComponentTyReqs for StringFieldComponent {
    proof fn lemma_store_of() {
    }
}

impl ComponentTyReqs for NumericalFieldComponent {
    proof fn lemma_store_of() {
    }
}

impl ComponentTyReqs for AgeComponent {
    proof fn lemma_store_of() {
    }
}

impl ComponentTyReqs for Sex {
    proof fn lemma_store_of() {
    }
}

impl ComponentTyReqs for NameComponent {
    proof fn lemma_store_of() {
    }
}

impl ComponentTyReqs for CharacterNameComponent {
    proof fn lemma_store_of() {
    }
}

impl ComponentTyReqs for BinaryComponent {
    proof fn lemma_store_of() {
    }
}

impl ComponentTyReqs for RelationshipComponent {
    proof fn lemma_store_of() {
    }
}

impl ComponentTyReqs for ArcComponent {
    proof fn lemma_store_of() {
    }
}

impl EComponentTypes {
    /// The number of characters of the name of the component type.
    pub open spec fn name_len(self) -> nat {
        match self {
            EComponentTypes::LocationComponent => 17,
            EComponentTypes::StringFieldComponent => 20,
            EComponentTypes::NumericalFieldComponent => 23,
            EComponentTypes::AgeComponent => 12,
            EComponentTypes::Sex => 3,
            EComponentTypes::NameComponent => 13,
            EComponentTypes::CharacterNameComponent => 22,
            EComponentTypes::BinaryComponent => 15,
            EComponentTypes::RelationshipComponent => 21,
            EComponentTypes::ArcComponent => 12,
        }
    }

    proof fn lemma_name_len(self)
        ensures
            self.name_spec().len() == self.name_len(),
    {
        match self {
            EComponentTypes::LocationComponent => reveal_strlit("LocationComponent"),
            EComponentTypes::StringFieldComponent => reveal_strlit("StringFieldComponent"),
            EComponentTypes::NumericalFieldComponent => reveal_strlit("NumericalFieldComponent"),
            EComponentTypes::AgeComponent => reveal_strlit("AgeComponent"),
            EComponentTypes::Sex => reveal_strlit("Sex"),
            EComponentTypes::NameComponent => reveal_strlit("NameComponent"),
            EComponentTypes::CharacterNameComponent => reveal_strlit("CharacterNameComponent"),
            EComponentTypes::BinaryComponent => reveal_strlit("BinaryComponent"),
            EComponentTypes::RelationshipComponent => reveal_strlit("RelationshipComponent"),
            EComponentTypes::ArcComponent => reveal_strlit("ArcComponent"),
        }
    }

    /// Different component types have different names.
    pub proof fn lemma_name_injective(self, other: Self)
        requires
            self.name_spec() == other.name_spec(),
        ensures
            self == other,
    {
        self.lemma_name_len();
        other.lemma_name_len();
        reveal_strlit("AgeComponent");
        reveal_strlit("ArcComponent");
        if self == EComponentTypes::AgeComponent && other == EComponentTypes::ArcComponent {
            assert("AgeComponent"@[1] != "ArcComponent"@[1]);
        }
        if self == EComponentTypes::ArcComponent && other == EComponentTypes::AgeComponent {
            assert("AgeComponent"@[1] != "ArcComponent"@[1]);
        }
    }
}

} // verus!
