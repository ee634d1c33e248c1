//! The entity component system: entities, their signatures, the stores that
//! hold their components, and the entity manager.
pub mod component;
pub mod storage;
pub mod entman;
pub mod query;
pub mod kin;

pub use storage::{Storage, TypeIdInternal};
pub use entman::{Entman, EntityRef, EntityRefMut, EntityOwned};


use vstd::prelude::*;
use std::collections::HashMap;
use vstd::std_specs::hash::*;
use crate::common::{TypeId, TypeIdTy, gen_128};
use crate::common::maps::{keys_of, hash_map_get_mut};
use crate::nvcore::ecs::component::{
    ComponentRef, EComponentGraphTypes, EComponentTypes, LocationComponent, StringFieldComponent,
    NumericalFieldComponent, AgeComponent, Sex, NameComponent, CharacterNameComponent,
    BinaryComponent, RelationshipComponent, ArcComponent,
};

verus! {

broadcast use vstd::std_specs::hash::group_hash_axioms;

/// The identifier of an entity.
pub type Id = u128;

/// The errors of the entity component system.
#[derive(Debug, Clone, Copy, PartialEq, Eq, Structural)]
pub enum EcsError {
    /// The type is already part of the signature.
    TypeIdAlreadyInSignature,
    /// The signature does not hold the type.
    TypeIdNotInSignature(TypeId),
    /// The entity already has a component of the type.
    EntityAlreadyHasComponent(TypeId),
    /// The entity does not have a component of the type.
    EntityLacksComponent(TypeId),
    /// No store of components of the type has been created yet.
    NoStoreForType(TypeId),
    /// No component has the identifier.
    ComponentNotFound(ComponentId),
    /// No entity has the identifier.
    EntityNotFound(Id),
    /// The name is not the name of a component type.
    UnknownComponentType,
    /// The component type is not among the types of the query.
    ComponentNotInQuery(TypeId),
}

/// The identifier of a component.
#[derive(Clone, Copy, Debug, Default, PartialEq, Eq, Hash, PartialOrd, Ord, Structural)]
pub struct ComponentId {
    id: u128,
}

impl View for ComponentId {
    type V = u128;

    closed spec fn view(&self) -> u128 {
        self.id
    }
}

impl ComponentId {
    /// The number the identifier holds.
    pub fn get(&self) -> (r: u128)
        ensures
            r == self@,
    {
        self.id
    }
}

impl From<u128> for ComponentId {
    fn from(id: u128) -> (r: Self)
        ensures
            r@ == id,
    {
        ComponentId { id }
    }
}

impl vstd::std_specs::convert::FromSpecImpl<u128> for ComponentId {
    open spec fn obeys_from_spec() -> bool {
        true
    }

    closed spec fn from_spec(v: u128) -> Self {
        ComponentId { id: v }
    }
}

/// A type whose values are components.
pub trait ComponentTypeIdTy: TypeIdTy {

}

/// The type identifier of a component type.
pub struct ComponentTypeId(pub TypeId);

/// The record of a component that the stores keep: its identifier, the
/// entity that owns it, and its value.
pub struct ComponentRecord {
    pub id: u128,
    pub owner: Option<Id>,
    pub value: EComponentGraphTypes,
}

/// A component type.
pub trait ComponentTy: TypeIdTy + Sized + Clone {
    /// The type of the component, as a variant of [`EComponentTypes`].
    spec fn kind_spec() -> EComponentTypes;

    /// The component as a variant of [`EComponentGraphTypes`].
    spec fn graph_spec(self) -> EComponentGraphTypes;

    /// The store of components of this type that `a` holds, if it holds one.
    spec fn store_of(a: AnyComponentStore) -> Option<CommonComponentStore<Self>>;

    /// The component of this type that `r` refers to, if it refers to one.
    spec fn ref_of(r: ComponentRef) -> Option<Self>;

    proof fn lemma_component_kind()
        ensures
            Self::type_id_spec() == Self::kind_spec().type_id_spec(),
            Self::type_name_spec() == Self::kind_spec().name_spec(),
            forall|c: Self| (#[trigger] c.graph_spec()).kind() == Self::kind_spec(),
            forall|r: ComponentRef|
                (#[trigger] Self::ref_of(r)) matches Some(c) ==> r.graph() == c.graph_spec(),
            forall|r: ComponentRef|
                #![trigger Self::ref_of(r)]
                #![trigger r.graph()]
                Self::ref_of(r) is None <==> r.graph().kind() != Self::kind_spec(),
    ;

    fn get_component_type_id(&self) -> (r: TypeId)
        ensures
            r.id == Self::type_id_spec(),
    {
        self.get_type_id_ref()
    }

    fn get_component_type_name(&self) -> (r: &'static str)
        ensures
            r@ == Self::type_name_spec(),
    {
        self.get_name_ref()
    }

    fn get_component_name(&self) -> (r: &'static str)
        ensures
            r@ == Self::type_name_spec(),
    ;

    fn get_component_type(&self) -> (r: EComponentTypes)
        ensures
            r == Self::kind_spec(),
    ;

    fn into_graph(self) -> (r: EComponentGraphTypes)
        ensures
            r == self.graph_spec(),
    ;

    fn from_graph(g: EComponentGraphTypes) -> (r: Option<Self>)
        ensures
            match r {
                Some(c) => c.graph_spec() == g,
                None => g.kind() != Self::kind_spec(),
            },
    ;

    fn as_component_ref(&self) -> (r: ComponentRef<'_>)
        ensures
            Self::ref_of(r) == Some(*self),
    ;

    fn from_component_ref<'a>(r: ComponentRef<'a>) -> (res: Option<&'a Self>)
        ensures
            match res {
                Some(c) => Self::ref_of(r) == Some(*c),
                None => Self::ref_of(r) is None,
            },
    ;

    fn wrap_store(s: CommonComponentStore<Self>) -> (r: AnyComponentStore)
        ensures
            Self::store_of(r) == Some(s),
    ;

    fn unwrap_store(a: AnyComponentStore) -> (r: Result<CommonComponentStore<Self>, AnyComponentStore>)
        ensures
            match r {
                Ok(s) => Self::store_of(a) == Some(s),
                Err(b) => Self::store_of(a) is None && b == a,
            },
    ;

    fn store_ref(a: &AnyComponentStore) -> (r: Option<&CommonComponentStore<Self>>)
        ensures
            match r {
                Some(s) => Self::store_of(*a) == Some(*s),
                None => Self::store_of(*a) is None,
            },
    ;

    fn store_mut(a: &mut AnyComponentStore) -> (r: Option<&mut CommonComponentStore<Self>>)
        ensures
            match r {
                Some(s) => Self::store_of(*old(a)) == Some(*s) && Self::store_of(*final(a))
                    == Some(*final(s)),
                None => Self::store_of(*old(a)) is None && *final(a) == *old(a),
            },
    ;
}

/// What a type needs to be stored as a component.
pub trait ComponentTyReqs: ComponentTy {
    proof fn lemma_store_of()
        ensures
            forall|a: AnyComponentStore|
                (#[trigger] Self::store_of(a)) matches Some(s) ==> {
                    &&& a.kind() == Self::kind_spec()
                    &&& a.records() == s.records()
                    &&& a.spec_type_id() == s.spec_type_id()
                    &&& a.spec_type_name() == s.spec_type_name()
                    &&& a.spec_wf() == s.wf()
                },
            forall|a: AnyComponentStore|
                #![trigger Self::store_of(a)]
                #![trigger a.kind()]
                Self::store_of(a) is None <==> a.kind() != Self::kind_spec(),
    ;

    fn get_req_component_type_id() -> (r: TypeId)
        ensures
            r.id == Self::type_id_spec(),
    {
        Self::get_type_id()
    }

    fn get_req_type_name() -> (r: &'static str)
        ensures
            r@ == Self::type_name_spec(),
    {
        Self::get_name()
    }
}


/// Conversion of a reference to a component into a reference to its type.
pub trait IntoComponentRef<T: ComponentTy> {
    fn into_ref(&self) -> &T;
}

/// The signature of an entity: the types of its components, in the order
/// they were added. An entity can only have one component of each type.
#[derive(Debug, PartialEq, Eq, Hash)]
pub struct Signature(Vec<TypeId>);

impl View for Signature {
    type V = Seq<TypeId>;

    closed spec fn view(&self) -> Seq<TypeId> {
        self.0@
    }
}

/// The index of the first occurrence of `t` in `s`.
pub open spec fn first_index_of(s: Seq<TypeId>, t: TypeId) -> int
    decreases s.len(),
{
    if s.len() == 0 {
        0
    } else if s.last() == t && !s.drop_last().contains(t) {
        s.len() - 1
    } else {
        first_index_of(s.drop_last(), t)
    }
}

pub proof fn lemma_first_index_of(s: Seq<TypeId>, t: TypeId)
    requires
        s.contains(t),
    ensures
        0 <= first_index_of(s, t) < s.len(),
        s[first_index_of(s, t)] == t,
        forall|j: int| 0 <= j < first_index_of(s, t) ==> s[j] != t,
    decreases s.len(),
{
    if s.last() == t && !s.drop_last().contains(t) {
        assert forall|j: int| 0 <= j < s.len() - 1 implies s[j] != t by {
            if s[j] == t {
                assert(s.drop_last()[j] == t);
            }
        }
    } else {
        assert(s.drop_last().contains(t)) by {
            let k = choose|k: int| 0 <= k < s.len() && s[k] == t;
            if k == s.len() - 1 {
            } else {
                assert(s.drop_last()[k] == t);
            }
        }
        lemma_first_index_of(s.drop_last(), t);
        assert forall|j: int| 0 <= j < first_index_of(s, t) implies s[j] != t by {
            assert(s.drop_last()[j] == s[j]);
        }
    }
}

/// `s` without repeated types: each type where it first occurs.
pub open spec fn dedup(s: Seq<TypeId>) -> Seq<TypeId>
    decreases s.len(),
{
    if s.len() == 0 {
        Seq::<TypeId>::empty()
    } else {
        let d = dedup(s.drop_last());
        if d.contains(s.last()) {
            d
        } else {
            d.push(s.last())
        }
    }
}

/// The concatenation of the signatures, in order.
pub open spec fn concat_sigs(v: Seq<Seq<TypeId>>) -> Seq<TypeId>
    decreases v.len(),
{
    if v.len() == 0 {
        Seq::<TypeId>::empty()
    } else {
        concat_sigs(v.drop_last()) + v.last()
    }
}

impl Signature {
    pub fn new() -> (r: Self)
        ensures
            r@ == Seq::<TypeId>::empty(),
    {
        Signature(Vec::new())
    }

    /// Inserts the type id into the signature. If the type id is already in
    /// the signature, it is ignored.
    pub fn insert(&mut self, type_id: TypeId)
        ensures
            final(self)@ == if old(self)@.contains(type_id) {
                old(self)@
            } else {
                old(self)@.push(type_id)
            },
    {
        if !self.contains(type_id) {
            self.0.push(type_id);
        }
    }

    /// Inserts the type id into the signature, but returns an error if the
    /// type id is already in the signature.
    pub fn insert_checked(&mut self, type_id: TypeId) -> (r: Result<(), EcsError>)
        ensures
            match r {
                Ok(()) => !old(self)@.contains(type_id) && final(self)@ == old(self)@.push(type_id),
                Err(e) => old(self)@.contains(type_id) && final(self)@ == old(self)@ && e
                    == EcsError::TypeIdAlreadyInSignature,
            },
    {
        if self.contains(type_id) {
            Err(EcsError::TypeIdAlreadyInSignature)
        } else {
            self.0.push(type_id);
            Ok(())
        }
    }

    pub fn get_type_ids(&self) -> (r: &Vec<TypeId>)
        ensures
            r@ == self@,
    {
        &self.0
    }

    pub fn get_type_ids_mut(&mut self) -> (r: &mut Vec<TypeId>)
        ensures
            r@ == old(self)@,
            final(self)@ == final(r)@,
    {
        &mut self.0
    }

    /// Removes the first occurrence of the type id.
    pub fn remove_component(&mut self, type_id: TypeId) -> (r: Result<(), EcsError>)
        ensures
            match r {
                Ok(()) => old(self)@.contains(type_id) && final(self)@ == old(self)@.remove(
                    first_index_of(old(self)@, type_id),
                ),
                Err(e) => !old(self)@.contains(type_id) && final(self)@ == old(self)@ && e
                    == EcsError::TypeIdNotInSignature(type_id),
            },
    {
        let mut i: usize = 0;
        while i < self.0.len()
            invariant
                0 <= i <= self.0@.len(),
                self@ == old(self)@,
                forall|j: int| 0 <= j < i ==> self.0@[j] != type_id,
            decreases self.0@.len() - i,
        {
            if self.0[i] == type_id {
                proof {
                    lemma_first_index_of(self@, type_id);
                }
                self.0.remove(i);
                return Ok(());
            }
            i = i + 1;
        }
        Err(EcsError::TypeIdNotInSignature(type_id))
    }

    pub fn contains(&self, type_id: TypeId) -> (r: bool)
        ensures
            r == self@.contains(type_id),
    {
        let mut i: usize = 0;
        while i < self.0.len()
            invariant
                0 <= i <= self.0@.len(),
                forall|j: int| 0 <= j < i ==> self.0@[j] != type_id,
            decreases self.0@.len() - i,
        {
            if self.0[i] == type_id {
                return true;
            }
            i = i + 1;
        }
        false
    }

    /// Appends the types of `other`.
    pub fn merge(&mut self, other: &Signature)
        ensures
            final(self)@ == old(self)@ + other@,
    {
        let mut i: usize = 0;
        while i < other.0.len()
            invariant
                0 <= i <= other.0@.len(),
                self@ == old(self)@ + other@.take(i as int),
            decreases other.0@.len() - i,
        {
            self.0.push(other.0[i]);
            i = i + 1;
            assert(self@ =~= old(self)@ + other@.take(i as int));
        }
        assert(other@.take(other@.len() as int) =~= other@);
    }

    /// Returns a [Signature] with no duplicate components: each type of the
    /// signature once, in the order in which the types first occur.
    pub fn get_singular_signature(&self) -> (r: Signature)
        ensures
            r@ == dedup(self@),
            r@.no_duplicates(),
            forall|t: TypeId| #[trigger] r@.contains(t) <==> self@.contains(t),
            forall|i: int, j: int|
                0 <= i < j < r@.len() ==> first_index_of(self@, #[trigger] r@[i]) < first_index_of(
                    self@,
                    #[trigger] r@[j],
                ),
    {
        proof {
            law_dedup_holds_each_type_once(self@);
            law_dedup_keeps_first_occurrence_order(self@);
        }
        let mut sig = Signature::new();
        let mut i: usize = 0;
        assert(self@.take(0) =~= Seq::<TypeId>::empty());
        while i < self.0.len()
            invariant
                0 <= i <= self.0@.len(),
                sig@ == dedup(self@.take(i as int)),
            decreases self.0@.len() - i,
        {
            let t = self.0[i];
            assert(self@.take(i + 1).drop_last() =~= self@.take(i as int));
            if !sig.contains(t) {
                sig.insert(t);
            }
            i = i + 1;
        }
        assert(self@.take(self@.len() as int) =~= self@);
        sig
    }

    /// Whether two signatures hold the same types in the same order.
    pub fn same_as(&self, other: &Signature) -> (r: bool)
        ensures
            r == (self@ == other@),
    {
        if self.0.len() != other.0.len() {
            return false;
        }
        let mut i: usize = 0;
        while i < self.0.len()
            invariant
                0 <= i <= self.0@.len(),
                self.0@.len() == other.0@.len(),
                forall|j: int| 0 <= j < i ==> self.0@[j] == other.0@[j],
            decreases self.0@.len() - i,
        {
            if self.0[i] != other.0[i] {
                return false;
            }
            i = i + 1;
        }
        assert(self@ =~= other@);
        true
    }

    /// A signature with the same types.
    pub fn clone_sig(&self) -> (r: Signature)
        ensures
            r@ == self@,
    {
        let mut v: Vec<TypeId> = Vec::new();
        let mut i: usize = 0;
        while i < self.0.len()
            invariant
                0 <= i <= self.0@.len(),
                v@ == self@.take(i as int),
            decreases self.0@.len() - i,
        {
            v.push(self.0[i]);
            i = i + 1;
            assert(v@ =~= self@.take(i as int));
        }
        assert(self@.take(self@.len() as int) =~= self@);
        Signature(v)
    }

    /// Same as [`Signature::add`] in the archetype descriptors: inserts the
    /// type id unless it is already there.
    pub fn add(&mut self, type_id: TypeId)
        ensures
            final(self)@ == if old(self)@.contains(type_id) {
                old(self)@
            } else {
                old(self)@.push(type_id)
            },
    {
        self.insert(type_id)
    }
}

impl Clone for Signature {
    fn clone(&self) -> (r: Self)
        ensures
            r@ == self@,
    {
        self.clone_sig()
    }
}

impl From<Vec<TypeId>> for Signature {
    fn from(vec: Vec<TypeId>) -> (r: Self)
        ensures
            r@ == vec@,
    {
        Signature(vec)
    }
}

impl vstd::std_specs::convert::FromSpecImpl<Vec<TypeId>> for Signature {
    open spec fn obeys_from_spec() -> bool {
        true
    }

    closed spec fn from_spec(v: Vec<TypeId>) -> Self {
        Signature(v)
    }
}

impl From<TypeId> for Signature {
    fn from(type_id: TypeId) -> (r: Self)
        ensures
            r@ == seq![type_id],
    {
        let mut v: Vec<TypeId> = Vec::new();
        v.push(type_id);
        assert(v@ =~= seq![type_id]);
        Signature(v)
    }
}

impl vstd::std_specs::convert::FromSpecImpl<TypeId> for Signature {
    open spec fn obeys_from_spec() -> bool {
        false
    }

    closed spec fn from_spec(v: TypeId) -> Self {
        arbitrary()
    }
}

impl From<Vec<Signature>> for Signature {
    /// The signatures merged one after the other.
    fn from(vec: Vec<Signature>) -> (r: Self)
        ensures
            r@ == concat_sigs(vec@.map_values(|s: Signature| s@)),
    {
        let mut sig = Signature::new();
        let mut i: usize = 0;
        let ghost views = vec@.map_values(|s: Signature| s@);
        assert(views.take(0) =~= Seq::<Seq<TypeId>>::empty());
        while i < vec.len()
            invariant
                0 <= i <= vec@.len(),
                views == vec@.map_values(|s: Signature| s@),
                sig@ == concat_sigs(views.take(i as int)),
            decreases vec@.len() - i,
        {
            assert(views.take(i + 1).drop_last() =~= views.take(i as int));
            sig.merge(&vec[i]);
            i = i + 1;
        }
        assert(views.take(vec@.len() as int) =~= views);
        sig
    }
}

impl vstd::std_specs::convert::FromSpecImpl<Vec<Signature>> for Signature {
    open spec fn obeys_from_spec() -> bool {
        false
    }

    closed spec fn from_spec(v: Vec<Signature>) -> Self {
        arbitrary()
    }
}

} // verus!

verus! {

/// An entity: an identifier, whether it is alive, and its signature.
#[derive(Debug)]
pub struct Entity {
    id: Id,
    is_alive: bool,
    sig: Signature,
}

impl Entity {
    pub closed spec fn spec_id(self) -> Id {
        self.id
    }

    pub closed spec fn spec_alive(self) -> bool {
        self.is_alive
    }

    pub closed spec fn spec_sig(self) -> Seq<TypeId> {
        self.sig@
    }

    pub fn new(id: Id) -> (r: Self)
        ensures
            r.spec_id() == id,
            r.spec_alive(),
            r.spec_sig() == Seq::<TypeId>::empty(),
    {
        Self { id, is_alive: true, sig: Signature::new() }
    }

    pub fn from_sig(id: Id, sig: Signature) -> (r: Self)
        ensures
            r.spec_id() == id,
            r.spec_alive(),
            r.spec_sig() == sig@,
    {
        Self { id, is_alive: true, sig }
    }

    pub fn is_valid(&self) -> (r: bool)
        ensures
            r == self.spec_alive(),
    {
        self.is_alive
    }

    pub fn get_id(&self) -> (r: Id)
        ensures
            r == self.spec_id(),
    {
        self.id
    }

    /// Adds the component type `T` to the signature, unless it is there.
    pub fn add_component<T: ComponentTyReqs>(&mut self) -> (r: Result<(), EcsError>)
        ensures
            r is Ok,
            final(self).spec_id() == old(self).spec_id(),
            final(self).spec_alive() == old(self).spec_alive(),
            final(self).spec_sig() == if old(self).spec_sig().contains(
                TypeId { id: T::type_id_spec() },
            ) {
                old(self).spec_sig()
            } else {
                old(self).spec_sig().push(TypeId { id: T::type_id_spec() })
            },
    {
        let tid = TypeId::of::<T>();
        self.sig.insert(tid);
        Ok(())
    }

    /// Removes the component type `T` from the signature.
    pub fn remove_component<T: ComponentTyReqs>(&mut self) -> (r: Result<(), EcsError>)
        ensures
            final(self).spec_id() == old(self).spec_id(),
            final(self).spec_alive() == old(self).spec_alive(),
            match r {
                Ok(()) => old(self).spec_sig().contains(TypeId { id: T::type_id_spec() })
                    && final(self).spec_sig() == old(self).spec_sig().remove(
                    first_index_of(old(self).spec_sig(), TypeId { id: T::type_id_spec() }),
                ),
                Err(e) => !old(self).spec_sig().contains(TypeId { id: T::type_id_spec() })
                    && final(self).spec_sig() == old(self).spec_sig() && e
                    == EcsError::TypeIdNotInSignature(TypeId { id: T::type_id_spec() }),
            },
    {
        let tid = TypeId::of::<T>();
        self.sig.remove_component(tid)
    }

    pub fn has_component<T: ComponentTyReqs>(&self) -> (r: bool)
        ensures
            r == self.spec_sig().contains(TypeId { id: T::type_id_spec() }),
    {
        let tid = TypeId::of::<T>();
        self.sig.contains(tid)
    }

    pub fn get_signature(&self) -> (r: Signature)
        ensures
            r@ == self.spec_sig(),
    {
        self.sig.clone_sig()
    }

    pub fn get_signature_ref(&self) -> (r: &Signature)
        ensures
            r@ == self.spec_sig(),
    {
        &self.sig
    }
}

impl Clone for Entity {
    fn clone(&self) -> (r: Self)
        ensures
            r.spec_id() == self.spec_id(),
            r.spec_alive() == self.spec_alive(),
            r.spec_sig() == self.spec_sig(),
    {
        Entity { id: self.id, is_alive: self.is_alive, sig: self.sig.clone_sig() }
    }
}

/// A component of type `T`: its identifier, the entity that owns it, and
/// the component itself.
#[derive(Debug, Clone)]
pub struct Component<T: ComponentTy> {
    id: ComponentId,
    pub owning_entity: Option<Id>,
    pub component: T,
}

impl<T: ComponentTy> Component<T> {
    pub closed spec fn spec_id(self) -> ComponentId {
        self.id
    }

    /// The entity that owns the component.
    pub closed spec fn spec_owner(self) -> Option<Id> {
        self.owning_entity
    }

    /// The component itself.
    pub closed spec fn spec_component(self) -> T {
        self.component
    }

    /// The record the stores keep of the component.
    pub open spec fn record(self) -> ComponentRecord {
        ComponentRecord {
            id: self.spec_id()@,
            owner: self.spec_owner(),
            value: self.spec_component().graph_spec(),
        }
    }

    /// A component owned by `entity`, with a fresh random identifier.
    pub fn from(entity: Id, component: T) -> (r: Self)
        ensures
            r.spec_owner() == Some(entity),
            r.spec_component() == component,
    {
        Self { id: ComponentId { id: gen_128() }, owning_entity: Some(entity), component }
    }

    /// A component that no entity owns, with a fresh random identifier.
    pub fn from_orphan(component: T) -> (r: Self)
        ensures
            r.spec_owner() is None,
            r.spec_component() == component,
    {
        Self { id: ComponentId { id: gen_128() }, owning_entity: None, component }
    }

    /// The component of type `T` that a dynamic component holds.
    pub fn from_dynamic(component: DynamicComponent) -> (r: Self)
        requires
            component.spec_value().kind() == T::kind_spec(),
        ensures
            r.spec_id() == component.spec_id(),
            r.spec_owner() == component.spec_owner(),
            r.spec_component().graph_spec() == component.spec_value(),
    {
        let DynamicComponent { id, owning_entity, component, type_id } = component;
        let c = T::from_graph(component);
        Self { id, owning_entity, component: c.unwrap() }
    }

    /// The same component, of no particular type.
    pub fn into_dynamic(self) -> (r: DynamicComponent)
        ensures
            r.spec_id() == self.spec_id(),
            r.spec_owner() == self.spec_owner(),
            r.spec_value() == self.spec_component().graph_spec(),
            r.spec_type_id().id == T::type_id_spec(),
            r.wf(),
    {
        proof {
            T::lemma_component_kind();
        }
        DynamicComponent {
            id: self.id,
            owning_entity: self.owning_entity,
            component: self.component.into_graph(),
            type_id: T::get_type_id(),
        }
    }

    /// An orphan component has no owning entity.
    pub fn new_orphan(component: T) -> (r: Self)
        ensures
            r.spec_owner() is None,
            r.spec_component() == component,
    {
        Self::from_orphan(component)
    }

    pub fn into(self) -> (r: T)
        ensures
            r == self.spec_component(),
    {
        self.component
    }

    pub fn get_id(&self) -> (r: ComponentId)
        ensures
            r == self.spec_id(),
    {
        self.id
    }

    pub fn set_owning_entity(&mut self, entity: Id)
        ensures
            final(self).spec_owner() == Some(entity),
            final(self).spec_id() == old(self).spec_id(),
            final(self).spec_component() == old(self).spec_component(),
    {
        self.owning_entity = Some(entity);
    }

    /// Makes this component an orphan.
    pub fn orphan(&mut self)
        ensures
            final(self).spec_owner() is None,
            final(self).spec_id() == old(self).spec_id(),
            final(self).spec_component() == old(self).spec_component(),
    {
        self.owning_entity = None;
    }

    pub fn get_inner(&self) -> (r: &T)
        ensures
            *r == self.spec_component(),
    {
        &self.component
    }

    pub fn get_inner_mut(&mut self) -> (r: &mut T)
        ensures
            *r == old(self).spec_component(),
            final(self).spec_component() == *final(r),
            final(self).spec_id() == old(self).spec_id(),
            final(self).spec_owner() == old(self).spec_owner(),
    {
        &mut self.component
    }

    pub fn into_inner(self) -> (r: T)
        ensures
            r == self.spec_component(),
    {
        self.component
    }
}

impl<T: ComponentTy + Default> Component<T> {
    /// A default component owned by `entity`, with a fresh random identifier.
    pub fn new(entity: Id) -> (r: Self)
        ensures
            r.spec_owner() == Some(entity),
    {
        Self { id: ComponentId { id: gen_128() }, owning_entity: Some(entity), component: T::default() }
    }
}

/// A component of any type, with the identifier of its type.
#[derive(Debug, Clone)]
pub struct DynamicComponent {
    id: ComponentId,
    pub owning_entity: Option<Id>,
    component: EComponentGraphTypes,
    type_id: TypeId,
}

impl DynamicComponent {
    pub closed spec fn spec_id(self) -> ComponentId {
        self.id
    }

    pub closed spec fn spec_owner(self) -> Option<Id> {
        self.owning_entity
    }

    pub closed spec fn spec_value(self) -> EComponentGraphTypes {
        self.component
    }

    pub closed spec fn spec_type_id(self) -> TypeId {
        self.type_id
    }

    /// The type identifier is that of the type of the component held.
    pub open spec fn wf(self) -> bool {
        self.spec_type_id().id == self.spec_value().kind().type_id_spec()
    }

    pub fn from_component<T: ComponentTyReqs>(component: Component<T>) -> (r: Self)
        ensures
            r.spec_id() == component.spec_id(),
            r.spec_owner() == component.spec_owner(),
            r.spec_value() == component.spec_component().graph_spec(),
            r.spec_type_id().id == T::type_id_spec(),
            r.wf(),
    {
        component.into_dynamic()
    }

    pub fn get_type_id(&self) -> (r: TypeId)
        ensures
            r == self.spec_type_id(),
    {
        self.type_id
    }

    /// The component this holds.
    pub fn get_value(&self) -> (r: &EComponentGraphTypes)
        ensures
            *r == self.spec_value(),
    {
        &self.component
    }
}

/// What is known of a component apart from its value.
pub struct ComponentInfo {
    pub id: Id,
    pub owning_entity: Option<Id>,
}

/// A component that lost its owner.
#[derive(Clone, Copy, PartialEq, Eq, PartialOrd, Ord, Debug)]
pub struct OrphanComponent {
    id: ComponentId,
    previous_owner: Id,
}

/// Stores all components of one type, by the entity that owns them; each
/// entity has at most one component of a type.
#[derive(Debug, Clone)]
pub struct CommonComponentStore<T: ComponentTy> {
    type_id: TypeId,
    common_name: String,
    components: HashMap<Id, Component<T>>,
}

impl<T: ComponentTy> CommonComponentStore<T> {
    pub closed spec fn spec_type_id(self) -> TypeId {
        self.type_id
    }

    pub closed spec fn spec_type_name(self) -> Seq<char> {
        self.common_name@
    }

    /// The components, by the entity that owns them.
    pub closed spec fn spec_components(self) -> Map<Id, Component<T>> {
        self.components@
    }

    /// The records of the components, by the entity that owns them.
    pub open spec fn records(self) -> Map<Id, ComponentRecord> {
        self.spec_components().map_values(|c: Component<T>| c.record())
    }

    /// The store is of type `T`, and each component is owned by the entity it
    /// is stored under.
    pub open spec fn wf(self) -> bool {
        &&& self.spec_type_id().id == T::type_id_spec()
        &&& self.spec_type_name() == T::type_name_spec()
        &&& forall|e: Id| #[trigger]
            self.spec_components().contains_key(e) ==> self.spec_components()[e].spec_owner()
                == Some(e)
    }

}

impl<T: ComponentTyReqs> CommonComponentStore<T> {
    pub fn new() -> (r: Self)
        ensures
            r.wf(),
            r.spec_components() == Map::<Id, Component<T>>::empty(),
    {
        proof {
            T::lemma_component_kind();
        }
        Self {
            type_id: T::get_type_id(),
            common_name: String::from_str(T::get_name()),
            components: HashMap::new(),
        }
    }

    pub fn get_type_id(&self) -> (r: TypeId)
        ensures
            r == self.spec_type_id(),
    {
        self.type_id
    }

    /// Whether `entity` has a component in this store.
    pub fn contains_entity(&self, entity: Id) -> (r: bool)
        ensures
            r == self.spec_components().contains_key(entity),
    {
        self.components.contains_key(&entity)
    }

    /// Adds `component` as the component of `owning_entity`, with a fresh
    /// identifier; an error where the entity has one already.
    pub fn insert(&mut self, owning_entity: Id, component: T) -> (r: Result<(), EcsError>)
        requires
            old(self).wf(),
        ensures
            final(self).wf(),
            final(self).spec_type_id() == old(self).spec_type_id(),
            final(self).spec_type_name() == old(self).spec_type_name(),
            match r {
                Ok(()) => !old(self).spec_components().contains_key(owning_entity) && exists|
                    c: Component<T>,
                | {
                    &&& final(self).spec_components() == old(self).spec_components().insert(
                        owning_entity,
                        c,
                    )
                    &&& c.spec_owner() == Some(owning_entity)
                    &&& c.spec_component() == component
                },
                Err(e) => old(self).spec_components().contains_key(owning_entity)
                    && final(self).spec_components() == old(self).spec_components() && e
                    == EcsError::EntityAlreadyHasComponent(old(self).spec_type_id()),
            },
    {
        if self.components.contains_key(&owning_entity) {
            Err(EcsError::EntityAlreadyHasComponent(self.type_id))
        } else {
            let c = Component::from(owning_entity, component);
            self.components.insert(owning_entity, c);
            Ok(())
        }
    }

    /// Adds the dynamic component under its owner; an error where the owner
    /// has a component of this type already.
    pub fn insert_dynamic(&mut self, component: DynamicComponent) -> (r: Result<(), EcsError>)
        requires
            old(self).wf(),
            component.spec_owner() is Some,
            component.spec_value().kind() == T::kind_spec(),
        ensures
            final(self).wf(),
            final(self).spec_type_id() == old(self).spec_type_id(),
            final(self).spec_type_name() == old(self).spec_type_name(),
            ({
                let e = component.spec_owner()->0;
                match r {
                    Ok(()) => !old(self).spec_components().contains_key(e) && exists|
                        c: Component<T>,
                    | {
                        &&& final(self).spec_components() == old(self).spec_components().insert(
                            e,
                            c,
                        )
                        &&& c.record() == ComponentRecord {
                            id: component.spec_id()@,
                            owner: Some(e),
                            value: component.spec_value(),
                        }
                    },
                    Err(err) => old(self).spec_components().contains_key(e)
                        && final(self).spec_components() == old(self).spec_components() && err
                        == EcsError::EntityAlreadyHasComponent(old(self).spec_type_id()),
                }
            }),
    {
        let e = component.owning_entity.unwrap();
        if self.components.contains_key(&e) {
            Err(EcsError::EntityAlreadyHasComponent(self.type_id))
        } else {
            let ghost cid = component.spec_id();
            let c = Component::<T>::from_dynamic(component);
            let ghost gc = c;
            self.components.insert(e, c);
            assert(gc.record() == ComponentRecord {
                id: cid@,
                owner: Some(e),
                value: gc.spec_component().graph_spec(),
            });
            Ok(())
        }
    }

    /// The component of `entity`.
    pub fn get(&self, entity: Id) -> (r: Option<&Component<T>>)
        ensures
            match r {
                Some(c) => self.spec_components().contains_key(entity) && *c
                    == self.spec_components()[entity],
                None => !self.spec_components().contains_key(entity),
            },
    {
        self.components.get(&entity)
    }

    /// A mutable reference to the component of `entity`.
    pub fn get_mut(&mut self, entity: Id) -> (r: Option<&mut Component<T>>)
        ensures
            final(self).spec_type_id() == old(self).spec_type_id(),
            final(self).spec_type_name() == old(self).spec_type_name(),
            match r {
                Some(c) => {
                    &&& old(self).spec_components().contains_key(entity)
                    &&& *c == old(self).spec_components()[entity]
                    &&& final(self).spec_components() == old(self).spec_components().insert(entity, *final(c))
                },
                None => {
                    &&& !old(self).spec_components().contains_key(entity)
                    &&& final(self).spec_components() == old(self).spec_components()
                },
            },
    {
        hash_map_get_mut(&mut self.components, &entity)
    }

    /// The component with identifier `id`.
    pub fn get_component_by_id_ref(&self, id: ComponentId) -> (r: Result<&Component<T>, EcsError>)
        ensures
            match r {
                Ok(c) => c.spec_id() == id && self.spec_components().values().contains(*c),
                Err(e) => e == EcsError::ComponentNotFound(id) && forall|k: Id| #[trigger]
                    self.spec_components().contains_key(k) ==> self.spec_components()[k].spec_id()
                        != id,
            },
    {
        let keys = keys_of(&self.components);
        let mut i: usize = 0;
        while i < keys.len()
            invariant
                0 <= i <= keys@.len(),
                keys@.to_set() == self.components@.dom(),
                forall|j: int| 0 <= j < i ==> self.components@[#[trigger] keys@[j]].spec_id() != id,
            decreases keys@.len() - i,
        {
            assert(keys@.to_set().contains(keys@[i as int]));
            let c = self.components.get(&keys[i]).unwrap();
            if c.id == id {
                assert(self.spec_components().contains_key(keys@[i as int]));
                return Ok(c);
            }
            i = i + 1;
        }
        assert forall|k: Id| #[trigger] self.spec_components().contains_key(k) implies self.spec_components()[k].spec_id() != id by {
            assert(keys@.to_set().contains(k));
        }
        Err(EcsError::ComponentNotFound(id))
    }

    /// The type of this store: the component type named by the store's
    /// component name.
    pub fn get_common_type(&self) -> (r: Result<EComponentTypes, EcsError>)
        requires
            self.wf(),
        ensures
            r == Ok::<EComponentTypes, EcsError>(T::kind_spec()),
    {
        proof {
            T::lemma_component_kind();
        }
        match EComponentTypes::from_name(self.common_name.as_str()) {
            Some(k) => {
                proof {
                    k.lemma_name_injective(T::kind_spec());
                }
                Ok(k)
            },
            None => {
                proof {
                    assert(T::kind_spec().name_spec() == self.common_name@);
                }
                Err(EcsError::UnknownComponentType)
            },
        }
    }

    /// The name of the type of the components.
    pub fn get_common_type_name(&self) -> (r: &str)
        ensures
            r@ == self.spec_type_name(),
    {
        self.common_name.as_str()
    }

    /// Deletes the component of `owning_entity` from this store.
    pub fn remove(&mut self, owning_entity: Id) -> (r: Result<(), EcsError>)
        requires
            old(self).wf(),
        ensures
            r is Ok,
            final(self).wf(),
            final(self).spec_type_id() == old(self).spec_type_id(),
            final(self).spec_type_name() == old(self).spec_type_name(),
            final(self).spec_components() == old(self).spec_components().remove(owning_entity),
    {
        self.components.remove(&owning_entity);
        Ok(())
    }

    /// A copy of the component of `owning_entity`, of no particular type.
    pub fn get_owned_entity_component(&self, owning_entity: Id) -> (r: DynamicComponent)
        requires
            self.spec_components().contains_key(owning_entity),
        ensures
            r.spec_id() == self.spec_components()[owning_entity].spec_id(),
            r.spec_owner() == self.spec_components()[owning_entity].spec_owner(),
            r.spec_value().kind() == T::kind_spec(),
            r.spec_type_id().id == T::type_id_spec(),
    {
        proof {
            T::lemma_component_kind();
        }
        let comp = self.components.get(&owning_entity).unwrap();
        let copy = Component { id: comp.id, owning_entity: comp.owning_entity, component: comp.component.clone() };
        DynamicComponent::from_component(copy)
    }

    /// A reference to the component of `owning_entity`.
    pub fn get_component_ref_dyn(&self, owning_entity: Id) -> (r: ComponentRef<'_>)
        requires
            self.spec_components().contains_key(owning_entity),
        ensures
            r.graph() == self.spec_components()[owning_entity].spec_component().graph_spec(),
    {
        proof {
            T::lemma_component_kind();
        }
        let comp = self.components.get(&owning_entity).unwrap();
        comp.component.as_component_ref()
    }

    /// A copy of this store, held as a store of any type.
    pub fn get_any_owned(&self) -> (r: AnyComponentStore)
        ensures
            T::store_of(r) matches Some(s) && s.spec_type_id() == self.spec_type_id()
                && s.spec_type_name() == self.spec_type_name() && s.spec_components()
                == self.spec_components(),
    {
        let copy = CommonComponentStore {
            type_id: self.type_id,
            common_name: self.common_name.clone(),
            components: self.components.clone(),
        };
        T::wrap_store(copy)
    }
}

impl<T: ComponentTyReqs + Default> CommonComponentStore<T> {
    /// Adds a default component for `owning_entity`, replacing the one it
    /// has; an error where it had one.
    pub fn insert_default(&mut self, owning_entity: Id) -> (r: Result<(), EcsError>)
        requires
            old(self).wf(),
        ensures
            final(self).wf(),
            final(self).spec_type_id() == old(self).spec_type_id(),
            final(self).spec_type_name() == old(self).spec_type_name(),
            exists|c: Component<T>|
                {
                    &&& final(self).spec_components() == old(self).spec_components().insert(
                        owning_entity,
                        c,
                    )
                    &&& c.spec_owner() == Some(owning_entity)
                },
            match r {
                Ok(()) => !old(self).spec_components().contains_key(owning_entity),
                Err(e) => old(self).spec_components().contains_key(owning_entity) && e
                    == EcsError::EntityAlreadyHasComponent(old(self).spec_type_id()),
            },
    {
        let component = Component::new(owning_entity);
        match self.components.insert(owning_entity, component) {
            Some(_) => Err(EcsError::EntityAlreadyHasComponent(self.type_id)),
            None => Ok(()),
        }
    }
}

/// A store of components of any of the component types.
#[derive(Debug, Clone)]
pub enum AnyComponentStore {
    LocationComponent(CommonComponentStore<LocationComponent>),
    StringFieldComponent(CommonComponentStore<StringFieldComponent>),
    NumericalFieldComponent(CommonComponentStore<NumericalFieldComponent>),
    AgeComponent(CommonComponentStore<AgeComponent>),
    Sex(CommonComponentStore<Sex>),
    NameComponent(CommonComponentStore<NameComponent>),
    CharacterNameComponent(CommonComponentStore<CharacterNameComponent>),
    BinaryComponent(CommonComponentStore<BinaryComponent>),
    RelationshipComponent(CommonComponentStore<RelationshipComponent>),
    ArcComponent(CommonComponentStore<ArcComponent>),
}

impl AnyComponentStore {
    /// The type of the components of the store.
    pub open spec fn kind(self) -> EComponentTypes {
        match self {
            AnyComponentStore::LocationComponent(_) => EComponentTypes::LocationComponent,
            AnyComponentStore::StringFieldComponent(_) => EComponentTypes::StringFieldComponent,
            AnyComponentStore::NumericalFieldComponent(_) => EComponentTypes::NumericalFieldComponent,
            AnyComponentStore::AgeComponent(_) => EComponentTypes::AgeComponent,
            AnyComponentStore::Sex(_) => EComponentTypes::Sex,
            AnyComponentStore::NameComponent(_) => EComponentTypes::NameComponent,
            AnyComponentStore::CharacterNameComponent(_) => EComponentTypes::CharacterNameComponent,
            AnyComponentStore::BinaryComponent(_) => EComponentTypes::BinaryComponent,
            AnyComponentStore::RelationshipComponent(_) => EComponentTypes::RelationshipComponent,
            AnyComponentStore::ArcComponent(_) => EComponentTypes::ArcComponent,
        }
    }

    /// The records of the components of the store, by owner.
    pub open spec fn records(self) -> Map<Id, ComponentRecord> {
        match self {
            AnyComponentStore::LocationComponent(s) => s.records(),
            AnyComponentStore::StringFieldComponent(s) => s.records(),
            AnyComponentStore::NumericalFieldComponent(s) => s.records(),
            AnyComponentStore::AgeComponent(s) => s.records(),
            AnyComponentStore::Sex(s) => s.records(),
            AnyComponentStore::NameComponent(s) => s.records(),
            AnyComponentStore::CharacterNameComponent(s) => s.records(),
            AnyComponentStore::BinaryComponent(s) => s.records(),
            AnyComponentStore::RelationshipComponent(s) => s.records(),
            AnyComponentStore::ArcComponent(s) => s.records(),
        }
    }

    pub open spec fn spec_type_id(self) -> TypeId {
        match self {
            AnyComponentStore::LocationComponent(s) => s.spec_type_id(),
            AnyComponentStore::StringFieldComponent(s) => s.spec_type_id(),
            AnyComponentStore::NumericalFieldComponent(s) => s.spec_type_id(),
            AnyComponentStore::AgeComponent(s) => s.spec_type_id(),
            AnyComponentStore::Sex(s) => s.spec_type_id(),
            AnyComponentStore::NameComponent(s) => s.spec_type_id(),
            AnyComponentStore::CharacterNameComponent(s) => s.spec_type_id(),
            AnyComponentStore::BinaryComponent(s) => s.spec_type_id(),
            AnyComponentStore::RelationshipComponent(s) => s.spec_type_id(),
            AnyComponentStore::ArcComponent(s) => s.spec_type_id(),
        }
    }

    pub open spec fn spec_type_name(self) -> Seq<char> {
        match self {
            AnyComponentStore::LocationComponent(s) => s.spec_type_name(),
            AnyComponentStore::StringFieldComponent(s) => s.spec_type_name(),
            AnyComponentStore::NumericalFieldComponent(s) => s.spec_type_name(),
            AnyComponentStore::AgeComponent(s) => s.spec_type_name(),
            AnyComponentStore::Sex(s) => s.spec_type_name(),
            AnyComponentStore::NameComponent(s) => s.spec_type_name(),
            AnyComponentStore::CharacterNameComponent(s) => s.spec_type_name(),
            AnyComponentStore::BinaryComponent(s) => s.spec_type_name(),
            AnyComponentStore::RelationshipComponent(s) => s.spec_type_name(),
            AnyComponentStore::ArcComponent(s) => s.spec_type_name(),
        }
    }

    pub open spec fn spec_wf(self) -> bool {
        match self {
            AnyComponentStore::LocationComponent(s) => s.wf(),
            AnyComponentStore::StringFieldComponent(s) => s.wf(),
            AnyComponentStore::NumericalFieldComponent(s) => s.wf(),
            AnyComponentStore::AgeComponent(s) => s.wf(),
            AnyComponentStore::Sex(s) => s.wf(),
            AnyComponentStore::NameComponent(s) => s.wf(),
            AnyComponentStore::CharacterNameComponent(s) => s.wf(),
            AnyComponentStore::BinaryComponent(s) => s.wf(),
            AnyComponentStore::RelationshipComponent(s) => s.wf(),
            AnyComponentStore::ArcComponent(s) => s.wf(),
        }
    }

    /// A well-formed store is identified by the type identifier of its kind.
    pub proof fn lemma_wf_type_id(self)
        requires
            self.spec_wf(),
        ensures
            self.spec_type_id().id == self.kind().type_id_spec(),
            self.spec_type_name() == self.kind().name_spec(),
    {
        match self {
            AnyComponentStore::LocationComponent(s) => { LocationComponent::lemma_component_kind(); },
            AnyComponentStore::StringFieldComponent(s) => { StringFieldComponent::lemma_component_kind(); },
            AnyComponentStore::NumericalFieldComponent(s) => { NumericalFieldComponent::lemma_component_kind(); },
            AnyComponentStore::AgeComponent(s) => { AgeComponent::lemma_component_kind(); },
            AnyComponentStore::Sex(s) => { Sex::lemma_component_kind(); },
            AnyComponentStore::NameComponent(s) => { NameComponent::lemma_component_kind(); },
            AnyComponentStore::CharacterNameComponent(s) => { CharacterNameComponent::lemma_component_kind(); },
            AnyComponentStore::BinaryComponent(s) => { BinaryComponent::lemma_component_kind(); },
            AnyComponentStore::RelationshipComponent(s) => { RelationshipComponent::lemma_component_kind(); },
            AnyComponentStore::ArcComponent(s) => { ArcComponent::lemma_component_kind(); },
        }
    }

    /// Adds the dynamic component under its owner; an error where the owner
    /// has a component of this type already.
    pub fn insert_dyn(&mut self, component: DynamicComponent) -> (r: Result<(), EcsError>)
        requires
            old(self).spec_wf(),
            component.spec_owner() is Some,
            component.spec_value().kind() == old(self).kind(),
        ensures
            final(self).spec_wf(),
            final(self).kind() == old(self).kind(),
            final(self).spec_type_id() == old(self).spec_type_id(),
            final(self).spec_type_name() == old(self).spec_type_name(),
            ({
                let e = component.spec_owner()->0;
                match r {
                    Ok(()) => !old(self).records().contains_key(e) && final(self).records()
                        == old(self).records().insert(
                        e,
                        ComponentRecord {
                            id: component.spec_id()@,
                            owner: Some(e),
                            value: component.spec_value(),
                        },
                    ),
                    Err(err) => old(self).records().contains_key(e) && final(self).records()
                        == old(self).records() && err == EcsError::EntityAlreadyHasComponent(
                        old(self).spec_type_id(),
                    ),
                }
            }),
    {
        let ghost e = component.spec_owner()->0;
        let ghost rec = ComponentRecord {
            id: component.spec_id()@,
            owner: Some(e),
            value: component.spec_value(),
        };
        match self {
            AnyComponentStore::LocationComponent(s) => {
                let r = s.insert_dynamic(component);
                proof {
                    if r is Ok {
                        assert(s.records() =~= old(self).records().insert(e, rec));
                    }
                }
                r
            },
            AnyComponentStore::StringFieldComponent(s) => {
                let r = s.insert_dynamic(component);
                proof {
                    if r is Ok {
                        assert(s.records() =~= old(self).records().insert(e, rec));
                    }
                }
                r
            },
            AnyComponentStore::NumericalFieldComponent(s) => {
                let r = s.insert_dynamic(component);
                proof {
                    if r is Ok {
                        assert(s.records() =~= old(self).records().insert(e, rec));
                    }
                }
                r
            },
            AnyComponentStore::AgeComponent(s) => {
                let r = s.insert_dynamic(component);
                proof {
                    if r is Ok {
                        assert(s.records() =~= old(self).records().insert(e, rec));
                    }
                }
                r
            },
            AnyComponentStore::Sex(s) => {
                let r = s.insert_dynamic(component);
                proof {
                    if r is Ok {
                        assert(s.records() =~= old(self).records().insert(e, rec));
                    }
                }
                r
            },
            AnyComponentStore::NameComponent(s) => {
                let r = s.insert_dynamic(component);
                proof {
                    if r is Ok {
                        assert(s.records() =~= old(self).records().insert(e, rec));
                    }
                }
                r
            },
            AnyComponentStore::CharacterNameComponent(s) => {
                let r = s.insert_dynamic(component);
                proof {
                    if r is Ok {
                        assert(s.records() =~= old(self).records().insert(e, rec));
                    }
                }
                r
            },
            AnyComponentStore::BinaryComponent(s) => {
                let r = s.insert_dynamic(component);
                proof {
                    if r is Ok {
                        assert(s.records() =~= old(self).records().insert(e, rec));
                    }
                }
                r
            },
            AnyComponentStore::RelationshipComponent(s) => {
                let r = s.insert_dynamic(component);
                proof {
                    if r is Ok {
                        assert(s.records() =~= old(self).records().insert(e, rec));
                    }
                }
                r
            },
            AnyComponentStore::ArcComponent(s) => {
                let r = s.insert_dynamic(component);
                proof {
                    if r is Ok {
                        assert(s.records() =~= old(self).records().insert(e, rec));
                    }
                }
                r
            },
        }
    }

    /// The store of type `T`, if this is one.
    pub fn into_store<T: ComponentTyReqs>(&self) -> (r: Result<&CommonComponentStore<T>, EcsError>)
        ensures
            match r {
                Ok(s) => T::store_of(*self) == Some(*s),
                Err(e) => T::store_of(*self) is None && e == EcsError::NoStoreForType(
                    TypeId { id: T::type_id_spec() },
                ),
            },
    {
        match T::store_ref(self) {
            Some(s) => Ok(s),
            None => Err(EcsError::NoStoreForType(T::get_type_id())),
        }
    }

    pub fn get_type_id(&self) -> (r: TypeId)
        ensures
            r == self.spec_type_id(),
    {
        match self {
            AnyComponentStore::LocationComponent(s) => s.get_type_id(),
            AnyComponentStore::StringFieldComponent(s) => s.get_type_id(),
            AnyComponentStore::NumericalFieldComponent(s) => s.get_type_id(),
            AnyComponentStore::AgeComponent(s) => s.get_type_id(),
            AnyComponentStore::Sex(s) => s.get_type_id(),
            AnyComponentStore::NameComponent(s) => s.get_type_id(),
            AnyComponentStore::CharacterNameComponent(s) => s.get_type_id(),
            AnyComponentStore::BinaryComponent(s) => s.get_type_id(),
            AnyComponentStore::RelationshipComponent(s) => s.get_type_id(),
            AnyComponentStore::ArcComponent(s) => s.get_type_id(),
        }
    }

    pub fn get_common_type_name(&self) -> (r: &str)
        ensures
            r@ == self.spec_type_name(),
    {
        match self {
            AnyComponentStore::LocationComponent(s) => s.get_common_type_name(),
            AnyComponentStore::StringFieldComponent(s) => s.get_common_type_name(),
            AnyComponentStore::NumericalFieldComponent(s) => s.get_common_type_name(),
            AnyComponentStore::AgeComponent(s) => s.get_common_type_name(),
            AnyComponentStore::Sex(s) => s.get_common_type_name(),
            AnyComponentStore::NameComponent(s) => s.get_common_type_name(),
            AnyComponentStore::CharacterNameComponent(s) => s.get_common_type_name(),
            AnyComponentStore::BinaryComponent(s) => s.get_common_type_name(),
            AnyComponentStore::RelationshipComponent(s) => s.get_common_type_name(),
            AnyComponentStore::ArcComponent(s) => s.get_common_type_name(),
        }
    }

    /// Whether `entity` has a component in the store.
    pub fn contains_entity(&self, entity: Id) -> (r: bool)
        ensures
            r == self.records().contains_key(entity),
    {
        match self {
            AnyComponentStore::LocationComponent(s) => s.contains_entity(entity),
            AnyComponentStore::StringFieldComponent(s) => s.contains_entity(entity),
            AnyComponentStore::NumericalFieldComponent(s) => s.contains_entity(entity),
            AnyComponentStore::AgeComponent(s) => s.contains_entity(entity),
            AnyComponentStore::Sex(s) => s.contains_entity(entity),
            AnyComponentStore::NameComponent(s) => s.contains_entity(entity),
            AnyComponentStore::CharacterNameComponent(s) => s.contains_entity(entity),
            AnyComponentStore::BinaryComponent(s) => s.contains_entity(entity),
            AnyComponentStore::RelationshipComponent(s) => s.contains_entity(entity),
            AnyComponentStore::ArcComponent(s) => s.contains_entity(entity),
        }
    }

    /// Deletes the component of `entity` from the store.
    pub fn remove_entity_components(&mut self, entity: Id) -> (r: Result<(), EcsError>)
        requires
            old(self).spec_wf(),
        ensures
            r is Ok,
            final(self).spec_wf(),
            final(self).kind() == old(self).kind(),
            final(self).spec_type_id() == old(self).spec_type_id(),
            final(self).spec_type_name() == old(self).spec_type_name(),
            final(self).records() == old(self).records().remove(entity),
    {
        match self {
            AnyComponentStore::LocationComponent(s) => {
                let r = s.remove(entity);
                assert(s.records() =~= old(self).records().remove(entity));
                r
            },
            AnyComponentStore::StringFieldComponent(s) => {
                let r = s.remove(entity);
                assert(s.records() =~= old(self).records().remove(entity));
                r
            },
            AnyComponentStore::NumericalFieldComponent(s) => {
                let r = s.remove(entity);
                assert(s.records() =~= old(self).records().remove(entity));
                r
            },
            AnyComponentStore::AgeComponent(s) => {
                let r = s.remove(entity);
                assert(s.records() =~= old(self).records().remove(entity));
                r
            },
            AnyComponentStore::Sex(s) => {
                let r = s.remove(entity);
                assert(s.records() =~= old(self).records().remove(entity));
                r
            },
            AnyComponentStore::NameComponent(s) => {
                let r = s.remove(entity);
                assert(s.records() =~= old(self).records().remove(entity));
                r
            },
            AnyComponentStore::CharacterNameComponent(s) => {
                let r = s.remove(entity);
                assert(s.records() =~= old(self).records().remove(entity));
                r
            },
            AnyComponentStore::BinaryComponent(s) => {
                let r = s.remove(entity);
                assert(s.records() =~= old(self).records().remove(entity));
                r
            },
            AnyComponentStore::RelationshipComponent(s) => {
                let r = s.remove(entity);
                assert(s.records() =~= old(self).records().remove(entity));
                r
            },
            AnyComponentStore::ArcComponent(s) => {
                let r = s.remove(entity);
                assert(s.records() =~= old(self).records().remove(entity));
                r
            },
        }
    }

    /// A copy of the component of `entity`.
    pub fn get_dynamic_component(&self, entity: Id) -> (r: Result<DynamicComponent, EcsError>)
        requires
            self.records().contains_key(entity),
        ensures
            r matches Ok(d) && d.spec_id()@ == self.records()[entity].id && d.spec_owner()
                == self.records()[entity].owner && d.spec_value().kind() == self.kind(),
    {
        match self {
            AnyComponentStore::LocationComponent(s) => Ok(s.get_owned_entity_component(entity)),
            AnyComponentStore::StringFieldComponent(s) => Ok(s.get_owned_entity_component(entity)),
            AnyComponentStore::NumericalFieldComponent(s) => Ok(s.get_owned_entity_component(entity)),
            AnyComponentStore::AgeComponent(s) => Ok(s.get_owned_entity_component(entity)),
            AnyComponentStore::Sex(s) => Ok(s.get_owned_entity_component(entity)),
            AnyComponentStore::NameComponent(s) => Ok(s.get_owned_entity_component(entity)),
            AnyComponentStore::CharacterNameComponent(s) => Ok(s.get_owned_entity_component(entity)),
            AnyComponentStore::BinaryComponent(s) => Ok(s.get_owned_entity_component(entity)),
            AnyComponentStore::RelationshipComponent(s) => Ok(s.get_owned_entity_component(entity)),
            AnyComponentStore::ArcComponent(s) => Ok(s.get_owned_entity_component(entity)),
        }
    }

    /// A reference to the component of `entity`.
    pub fn get_component_dyn_ref(&self, entity: Id) -> (r: Result<ComponentRef<'_>, EcsError>)
        requires
            self.records().contains_key(entity),
        ensures
            r matches Ok(c) && c.graph() == self.records()[entity].value,
    {
        match self {
            AnyComponentStore::LocationComponent(s) => Ok(s.get_component_ref_dyn(entity)),
            AnyComponentStore::StringFieldComponent(s) => Ok(s.get_component_ref_dyn(entity)),
            AnyComponentStore::NumericalFieldComponent(s) => Ok(s.get_component_ref_dyn(entity)),
            AnyComponentStore::AgeComponent(s) => Ok(s.get_component_ref_dyn(entity)),
            AnyComponentStore::Sex(s) => Ok(s.get_component_ref_dyn(entity)),
            AnyComponentStore::NameComponent(s) => Ok(s.get_component_ref_dyn(entity)),
            AnyComponentStore::CharacterNameComponent(s) => Ok(s.get_component_ref_dyn(entity)),
            AnyComponentStore::BinaryComponent(s) => Ok(s.get_component_ref_dyn(entity)),
            AnyComponentStore::RelationshipComponent(s) => Ok(s.get_component_ref_dyn(entity)),
            AnyComponentStore::ArcComponent(s) => Ok(s.get_component_ref_dyn(entity)),
        }
    }
}

/// The types of `s` with `t` inserted, as [`Signature::insert`] does it.
pub open spec fn sig_insert(s: Seq<TypeId>, t: TypeId) -> Seq<TypeId> {
    if s.contains(t) {
        s
    } else {
        s.push(t)
    }
}

/// Inserting into a signature never holds a type twice: where the types
/// were distinct, they stay distinct, and the type is then there.
pub proof fn law_signature_insert_keeps_types_once(s: Seq<TypeId>, t: TypeId)
    requires
        s.no_duplicates(),
    ensures
        sig_insert(s, t).no_duplicates(),
        sig_insert(s, t).contains(t),
        forall|u: TypeId| #[trigger] sig_insert(s, t).contains(u) <==> (s.contains(u) || u == t),
{
    let r = sig_insert(s, t);
    if !s.contains(t) {
        assert(r[r.len() - 1] == t);
        assert forall|i: int, j: int| 0 <= i < r.len() && 0 <= j < r.len() && i != j implies r[i] != r[j] by {
            if i < s.len() && j < s.len() {
                assert(s[i] != s[j]);
            } else if i < s.len() {
                assert(s.contains(s[i]));
            } else if j < s.len() {
                assert(s.contains(s[j]));
            }
        }
        assert forall|u: TypeId| #[trigger] r.contains(u) implies (s.contains(u) || u == t) by {
            let i = choose|i: int| 0 <= i < r.len() && r[i] == u;
            if i < s.len() {
                assert(s[i] == u);
            }
        }
        assert forall|u: TypeId| s.contains(u) implies #[trigger] r.contains(u) by {
            let i = choose|i: int| 0 <= i < s.len() && s[i] == u;
            assert(r[i] == u);
        }
    }
}

/// The singular signature holds each type of the signature, and each once.
pub proof fn law_dedup_holds_each_type_once(s: Seq<TypeId>)
    ensures
        dedup(s).no_duplicates(),
        forall|u: TypeId| #[trigger] dedup(s).contains(u) <==> s.contains(u),
    decreases s.len(),
{
    if s.len() > 0 {
        let p = s.drop_last();
        law_dedup_holds_each_type_once(p);
        law_signature_insert_keeps_types_once(dedup(p), s.last());
        assert(dedup(s) == sig_insert(dedup(p), s.last()));
        assert forall|u: TypeId| #[trigger] s.contains(u) <==> (p.contains(u) || u == s.last()) by {
            if s.contains(u) {
                let i = choose|i: int| 0 <= i < s.len() && s[i] == u;
                if i < p.len() {
                    assert(p[i] == u);
                }
            }
            if p.contains(u) {
                let i = choose|i: int| 0 <= i < p.len() && p[i] == u;
                assert(s[i] == u);
            }
            if u == s.last() {
                assert(s[s.len() - 1] == u);
            }
        }
    }
}

/// The singular signature keeps the types in the order in which they first
/// occur in the signature.
pub proof fn law_dedup_keeps_first_occurrence_order(s: Seq<TypeId>)
    ensures
        forall|i: int, j: int|
            0 <= i < j < dedup(s).len() ==> first_index_of(s, #[trigger] dedup(s)[i]) < first_index_of(
                s,
                #[trigger] dedup(s)[j],
            ),
    decreases s.len(),
{
    if s.len() > 0 {
        let p = s.drop_last();
        law_dedup_keeps_first_occurrence_order(p);
        law_dedup_holds_each_type_once(p);
        let d = dedup(s);
        let dp = dedup(p);
        assert forall|i: int, j: int| 0 <= i < j < d.len() implies first_index_of(s, #[trigger] d[i]) < first_index_of(
            s,
            #[trigger] d[j],
        ) by {
            assert(d[i] == dp[i]);
            assert(dp.contains(dp[i]));
            assert(p.contains(d[i]));
            lemma_first_index_of(p, d[i]);
            assert(first_index_of(s, d[i]) == first_index_of(p, d[i]));
            if j < dp.len() {
                assert(d[j] == dp[j]);
                assert(dp.contains(dp[j]));
                assert(p.contains(d[j]));
                assert(first_index_of(s, d[j]) == first_index_of(p, d[j]));
            } else {
                assert(d[j] == s.last());
                assert(!dp.contains(s.last()));
                assert(first_index_of(s, d[j]) == s.len() - 1);
            }
        }
    }
}

/// Removing a type that was just inserted into a signature that lacked it
/// gives the signature back.
pub proof fn law_signature_remove_undoes_insert(s: Seq<TypeId>, t: TypeId)
    requires
        !s.contains(t),
    ensures
        s.push(t).contains(t),
        s.push(t).remove(first_index_of(s.push(t), t)) == s,
{
    let r = s.push(t);
    assert(r[r.len() - 1] == t);
    assert(r.drop_last() =~= s);
    assert(first_index_of(r, t) == s.len());
    assert(r.remove(s.len() as int) =~= s);
}

} // verus!
