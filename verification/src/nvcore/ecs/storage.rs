//! The storage of all components, one store per component type.
use vstd::prelude::*;
use std::collections::HashMap;
use vstd::std_specs::hash::*;
use crate::common::{TypeId, TypeIdTy};
use crate::common::maps::{keys_of, hash_map_get_mut};
use crate::nvcore::ecs::component::{ComponentRef, EComponentTypes};
use crate::nvcore::ecs::{
    AnyComponentStore, CommonComponentStore, Component, ComponentId, ComponentInfo,
    ComponentRecord, ComponentTy, ComponentTyReqs, DynamicComponent, EcsError, Id,
};

verus! {

broadcast use vstd::std_specs::hash::group_hash_axioms;

/// `after` is `before` with a record of a new component of value `v` for
/// entity `e`, unless `e` had a component there already.
pub open spec fn added_record(
    before: Map<Id, ComponentRecord>,
    after: Map<Id, ComponentRecord>,
    e: Id,
    v: crate::nvcore::ecs::component::EComponentGraphTypes,
) -> bool {
    if before.contains_key(e) {
        after == before
    } else {
        exists|id: u128| after == before.insert(e, ComponentRecord { id, owner: Some(e), value: v })
    }
}

/// `after` is `before` with the component of entity `e` replaced by a new
/// one, whatever `e` had.
pub open spec fn replaced_record(
    before: Map<Id, ComponentRecord>,
    after: Map<Id, ComponentRecord>,
    e: Id,
) -> bool {
    exists|r: ComponentRecord| r.owner == Some(e) && after == before.insert(e, r)
}

/// Different component types have different type identifiers.
pub proof fn lemma_type_id_injective(a: EComponentTypes, b: EComponentTypes)
    ensures
        a.type_id_spec() == b.type_id_spec() <==> a == b,
{
}

/// The storage of all components: one store per component type, found by the
/// type's identifier.
pub struct Storage {
    bins: HashMap<u64, AnyComponentStore>,
    component_infos: HashMap<Id, ComponentInfo>,
}

impl Storage {
    /// The stores, by type identifier.
    pub closed spec fn spec_bins(self) -> Map<u64, AnyComponentStore> {
        self.bins@
    }

    /// Each store is well formed and kept under its own type identifier.
    pub open spec fn wf(self) -> bool {
        forall|k: u64| #[trigger]
            self.spec_bins().contains_key(k) ==> self.spec_bins()[k].spec_wf()
                && self.spec_bins()[k].spec_type_id().id == k
    }

    /// The records of the components of type identifier `tid`, by owner.
    pub open spec fn records_of(self, tid: u64) -> Map<Id, ComponentRecord> {
        if self.spec_bins().contains_key(tid) {
            self.spec_bins()[tid].records()
        } else {
            Map::empty()
        }
    }

    /// `after` differs from `before` in the store of `tid` at most, which it
    /// has, of the kind `kind`.
    pub open spec fn only_bin_changed(before: Storage, after: Storage, tid: u64, kind: EComponentTypes) -> bool {
        &&& after.spec_bins().dom() == before.spec_bins().dom().insert(tid)
        &&& after.spec_bins()[tid].kind() == kind
        &&& forall|k: u64| k != tid && #[trigger] before.spec_bins().contains_key(k)
            ==> after.spec_bins()[k] == before.spec_bins()[k]
    }

    pub fn new() -> (r: Self)
        ensures
            r.wf(),
            r.spec_bins() == Map::<u64, AnyComponentStore>::empty(),
    {
        Storage { bins: HashMap::new(), component_infos: HashMap::new() }
    }

    /// Whether a store of type identifier `tid` exists.
    pub fn has_store(&self, tid: u64) -> (r: bool)
        ensures
            r == self.spec_bins().contains_key(tid),
    {
        self.bins.contains_key(&tid)
    }

    /// Takes the store of `T` out of the storage, or makes a new one.
    fn take_store<T: ComponentTyReqs>(&mut self) -> (r: CommonComponentStore<T>)
        requires
            old(self).wf(),
        ensures
            final(self).wf(),
            r.wf(),
            final(self).spec_bins() == old(self).spec_bins().remove(T::type_id_spec()),
            r.records() == old(self).records_of(T::type_id_spec()),
    {
        proof {
            T::lemma_component_kind();
            T::lemma_store_of();
        }
        let tid = T::get_type_id().id;
        let ghost had = self.bins@.contains_key(tid);
        let removed = self.bins.remove(&tid);
        assert forall|k: u64| #[trigger] self.bins@.contains_key(k) implies self.bins@[k].spec_wf()
            && self.bins@[k].spec_type_id().id == k by {
            assert(old(self).spec_bins().contains_key(k));
        }
        match removed {
            Some(any) => {
                proof {
                    assert(old(self).spec_bins().contains_key(tid));
                    any.lemma_wf_type_id();
                    lemma_type_id_injective(any.kind(), T::kind_spec());
                }
                match T::unwrap_store(any) {
                    Ok(store) => store,
                    Err(_) => {
                        proof {
                            assert(false);
                        }
                        CommonComponentStore::<T>::new()
                    },
                }
            },
            None => {
                let r = CommonComponentStore::<T>::new();
                assert(r.records() =~= Map::<Id, ComponentRecord>::empty());
                r
            },
        }
    }

    /// Puts a store of `T` into the storage.
    fn put_store<T: ComponentTyReqs>(&mut self, store: CommonComponentStore<T>)
        requires
            old(self).wf(),
            store.wf(),
        ensures
            final(self).wf(),
            final(self).spec_bins().contains_key(T::type_id_spec()),
            final(self).spec_bins() == old(self).spec_bins().insert(
                T::type_id_spec(),
                final(self).spec_bins()[T::type_id_spec()],
            ),
            final(self).spec_bins()[T::type_id_spec()].kind() == T::kind_spec(),
            final(self).records_of(T::type_id_spec()) == store.records(),
    {
        proof {
            T::lemma_component_kind();
            T::lemma_store_of();
        }
        let tid = T::get_type_id().id;
        let any = T::wrap_store(store);
        assert(T::store_of(any) == Some(store));
        self.bins.insert(tid, any);
        assert forall|k: u64| #[trigger] self.bins@.contains_key(k) implies self.bins@[k].spec_wf()
            && self.bins@[k].spec_type_id().id == k by {
            if k != tid {
                assert(old(self).spec_bins().contains_key(k));
            }
        }
    }

    /// Adds a default component of type `T` for `entity`, replacing the one
    /// it has.
    pub fn insert_default<T: ComponentTyReqs + Default>(&mut self, entity: Id) -> (r: Result<(), EcsError>)
        requires
            old(self).wf(),
        ensures
            r is Ok,
            final(self).wf(),
            Storage::only_bin_changed(*old(self), *final(self), T::type_id_spec(), T::kind_spec()),
            replaced_record(
                old(self).records_of(T::type_id_spec()),
                final(self).records_of(T::type_id_spec()),
                entity,
            ),
    {
        let mut store = self.take_store::<T>();
        let ghost before = store;
        let _ = store.insert_default(entity);
        proof {
            let c = choose|c: Component<T>|
                {
                    &&& store.spec_components() == before.spec_components().insert(entity, c)
                    &&& c.spec_owner() == Some(entity)
                };
            assert(store.records() =~= before.records().insert(entity, c.record()));
        }
        self.put_store(store);
        assert(self.spec_bins().dom() =~= old(self).spec_bins().dom().insert(T::type_id_spec()));
        Ok(())
    }

    /// Adds `component` as the component of type `T` of `entity`, unless the
    /// entity has one.
    pub fn insert_component<T: ComponentTyReqs>(&mut self, entity: Id, component: T) -> (r: Result<(), EcsError>)
        requires
            old(self).wf(),
        ensures
            r is Ok,
            final(self).wf(),
            Storage::only_bin_changed(*old(self), *final(self), T::type_id_spec(), T::kind_spec()),
            added_record(
                old(self).records_of(T::type_id_spec()),
                final(self).records_of(T::type_id_spec()),
                entity,
                component.graph_spec(),
            ),
    {
        let mut store = self.take_store::<T>();
        let ghost before = store;
        let res = store.insert(entity, component);
        proof {
            if res is Ok {
                let c = choose|c: Component<T>|
                    {
                        &&& store.spec_components() == before.spec_components().insert(entity, c)
                        &&& c.spec_owner() == Some(entity)
                        &&& c.spec_component() == component
                    };
                assert(store.records() =~= before.records().insert(entity, c.record()));
            }
        }
        self.put_store(store);
        assert(self.spec_bins().dom() =~= old(self).spec_bins().dom().insert(T::type_id_spec()));
        Ok(())
    }

    /// Adds a component of no particular type under its owner, into the store
    /// of its type, which must exist.
    pub fn insert_dynamic(&mut self, component: DynamicComponent) -> (r: Result<(), EcsError>)
        requires
            old(self).wf(),
            component.wf(),
            component.spec_owner() is Some,
            old(self).spec_bins().contains_key(component.spec_type_id().id),
        ensures
            final(self).wf(),
            final(self).spec_bins().dom() == old(self).spec_bins().dom(),
            ({
                let tid = component.spec_type_id().id;
                let e = component.spec_owner()->0;
                &&& forall|k: u64| k != tid && #[trigger] old(self).spec_bins().contains_key(k)
                    ==> final(self).spec_bins()[k] == old(self).spec_bins()[k]
                &&& match r {
                    Ok(()) => !old(self).records_of(tid).contains_key(e) && final(self).records_of(
                        tid,
                    ) == old(self).records_of(tid).insert(
                        e,
                        ComponentRecord {
                            id: component.spec_id()@,
                            owner: Some(e),
                            value: component.spec_value(),
                        },
                    ),
                    Err(err) => old(self).records_of(tid).contains_key(e) && final(self).records_of(
                        tid,
                    ) == old(self).records_of(tid) && err == EcsError::EntityAlreadyHasComponent(
                        TypeId { id: tid },
                    ),
                }
            }),
    {
        let tid = component.get_type_id().id;
        let store = hash_map_get_mut(&mut self.bins, &tid).unwrap();
        proof {
            store.lemma_wf_type_id();
            lemma_type_id_injective(store.kind(), component.spec_value().kind());
        }
        let r = store.insert_dyn(component);
        proof {
            assert(final(self).spec_bins().contains_key(tid));
        }
        r
    }


    /// The component of type `T` of `entity`.
    pub fn get_component_ref<T: ComponentTyReqs>(&self, entity: Id) -> (r: Result<&Component<T>, EcsError>)
        requires
            self.wf(),
        ensures
            ({
                let tid = T::type_id_spec();
                match r {
                    Ok(c) => self.records_of(tid).contains_key(entity) && c.record() == self.records_of(
                        tid,
                    )[entity] && c.spec_owner() == Some(entity),
                    Err(e) => if !self.spec_bins().contains_key(tid) {
                        e == EcsError::NoStoreForType(TypeId { id: tid })
                    } else {
                        !self.records_of(tid).contains_key(entity) && e == EcsError::EntityLacksComponent(
                            TypeId { id: tid },
                        )
                    },
                }
            }),
    {
        proof {
            T::lemma_component_kind();
            T::lemma_store_of();
        }
        let tid = T::get_type_id();
        match self.bins.get(&tid.id) {
            Some(any) => {
                proof {
                    assert(self.spec_bins().contains_key(tid.id));
                    any.lemma_wf_type_id();
                    lemma_type_id_injective(any.kind(), T::kind_spec());
                }
                match T::store_ref(any) {
                    Some(store) => match store.get(entity) {
                        Some(c) => Ok(c),
                        None => Err(EcsError::EntityLacksComponent(tid)),
                    },
                    None => {
                        proof {
                            assert(false);
                        }
                        Err(EcsError::NoStoreForType(tid))
                    },
                }
            },
            None => Err(EcsError::NoStoreForType(tid)),
        }
    }

    /// The component of type identifier `type_id` of `entity`, which has one
    /// where the store exists.
    pub fn get_component_dyn_ref(&self, type_id: TypeId, entity: Id) -> (r: Result<ComponentRef<'_>, EcsError>)
        requires
            self.wf(),
            self.spec_bins().contains_key(type_id.id) ==> self.records_of(type_id.id).contains_key(
                entity,
            ),
        ensures
            match r {
                Ok(c) => self.records_of(type_id.id).contains_key(entity) && c.graph()
                    == self.records_of(type_id.id)[entity].value,
                Err(e) => !self.spec_bins().contains_key(type_id.id) && e == EcsError::NoStoreForType(
                    type_id,
                ),
            },
    {
        match self.bins.get(&type_id.id) {
            Some(store) => {
                assert(self.spec_bins().contains_key(type_id.id));
                store.get_component_dyn_ref(entity)
            },
            None => Err(EcsError::NoStoreForType(type_id)),
        }
    }

    /// A mutable reference to the component of type `T` of `entity`; what is
    /// written through it becomes that component.
    pub fn get_component_mut<T: ComponentTyReqs>(&mut self, entity: Id) -> (r: Result<&mut Component<T>, EcsError>)
        requires
            old(self).wf(),
        ensures
            ({
                let tid = T::type_id_spec();
                match r {
                    Ok(c) => {
                        &&& old(self).records_of(tid).contains_key(entity)
                        &&& c.record() == old(self).records_of(tid)[entity]
                        &&& c.spec_owner() == Some(entity)
                        &&& final(self).spec_bins().dom() == old(self).spec_bins().dom()
                        &&& final(self).spec_bins()[tid].kind() == T::kind_spec()
                        &&& forall|k: u64| k != tid && #[trigger] old(self).spec_bins().contains_key(k)
                            ==> final(self).spec_bins()[k] == old(self).spec_bins()[k]
                        &&& final(self).records_of(tid) == old(self).records_of(tid).insert(
                            entity,
                            final(c).record(),
                        )
                        &&& final(c).spec_owner() == Some(entity) ==> final(self).wf()
                    },
                    Err(e) => {
                        &&& *final(self) == *old(self)
                        &&& if !old(self).spec_bins().contains_key(tid) {
                            e == EcsError::NoStoreForType(TypeId { id: tid })
                        } else {
                            !old(self).records_of(tid).contains_key(entity) && e
                                == EcsError::EntityLacksComponent(TypeId { id: tid })
                        }
                    },
                }
            }),
    {
        proof {
            T::lemma_component_kind();
            T::lemma_store_of();
        }
        let tid = T::get_type_id();
        if !self.bins.contains_key(&tid.id) {
            return Err(EcsError::NoStoreForType(tid));
        }
        let ghost old_any = self.bins@[tid.id];
        proof {
            assert(old(self).spec_bins().contains_key(tid.id));
            old_any.lemma_wf_type_id();
            lemma_type_id_injective(old_any.kind(), T::kind_spec());
        }
        if !self.bins.get(&tid.id).unwrap().contains_entity(entity) {
            return Err(EcsError::EntityLacksComponent(tid));
        }
        let ghost old_store = T::store_of(old_any)->0;
        proof {
            let tidv = tid.id;
            assert forall|a: AnyComponentStore| #[trigger]
                old(self).spec_bins().insert(tidv, a).dom() == old(self).spec_bins().dom() by {
                assert(old(self).spec_bins().insert(tidv, a).dom() =~= old(self).spec_bins().dom());
            }
            assert forall|x: Component<T>|
                (#[trigger] old_store.spec_components().insert(entity, x)).map_values(
                    |c: Component<T>| c.record(),
                ) == old_store.records().insert(entity, x.record()) by {
                assert(old_store.spec_components().insert(entity, x).map_values(
                    |c: Component<T>| c.record(),
                ) =~= old_store.records().insert(entity, x.record()));
            }
            assert forall|x: Component<T>, s2: CommonComponentStore<T>|
                x.spec_owner() == Some(entity) && s2.spec_type_id() == old_store.spec_type_id()
                    && s2.spec_type_name() == old_store.spec_type_name() && #[trigger] s2.spec_components()
                    == #[trigger] old_store.spec_components().insert(entity, x) implies s2.wf() by {
                assert forall|e: Id| #[trigger] s2.spec_components().contains_key(e)
                    implies s2.spec_components()[e].spec_owner() == Some(e) by {
                    if e != entity {
                        assert(old_store.spec_components().contains_key(e));
                    }
                }
            }
            assert forall|k: u64| k != tidv && #[trigger] old(self).spec_bins().contains_key(k)
                implies old(self).spec_bins()[k].spec_wf() && old(self).spec_bins()[k].spec_type_id().id == k by {
            }
        }
        let any = hash_map_get_mut(&mut self.bins, &tid.id).unwrap();
        let store = T::store_mut(any).unwrap();
        let c = store.get_mut(entity).unwrap();
        Ok(c)
    }

    /// The component of type `T` with identifier `id`.
    pub fn get_component_by_id_ref<T: ComponentTyReqs>(&self, id: ComponentId) -> (r: Result<&Component<T>, EcsError>)
        requires
            self.wf(),
        ensures
            ({
                let tid = T::type_id_spec();
                match r {
                    Ok(c) => c.spec_id() == id && exists|e: Id| #[trigger]
                        self.records_of(tid).contains_key(e) && self.records_of(tid)[e] == c.record(),
                    Err(err) => if !self.spec_bins().contains_key(tid) {
                        err == EcsError::NoStoreForType(TypeId { id: tid })
                    } else {
                        err == EcsError::ComponentNotFound(id) && forall|e: Id| #[trigger]
                            self.records_of(tid).contains_key(e) ==> self.records_of(tid)[e].id != id@
                    },
                }
            }),
    {
        proof {
            T::lemma_component_kind();
            T::lemma_store_of();
        }
        let tid = T::get_type_id();
        match self.bins.get(&tid.id) {
            Some(any) => {
                proof {
                    assert(self.spec_bins().contains_key(tid.id));
                    any.lemma_wf_type_id();
                    lemma_type_id_injective(any.kind(), T::kind_spec());
                }
                let store = any.into_store::<T>().unwrap();
                let r = store.get_component_by_id_ref(id);
                proof {
                    if let Ok(c) = r {
                        let e = choose|e: Id| #[trigger] store.spec_components().contains_key(e)
                            && store.spec_components()[e] == *c;
                        assert(self.records_of(tid.id).contains_key(e));
                    }
                }
                r
            },
            None => Err(EcsError::NoStoreForType(tid)),
        }
    }

    /// Copies of all the components `entity` owns: one from each store that
    /// holds a component of it, in the order the stores are walked.
    pub fn get_entity_owned_components(&self, entity: Id) -> (r: Result<Vec<DynamicComponent>, EcsError>)
        requires
            self.wf(),
        ensures
            r matches Ok(v) && exists|ks: Seq<u64>|
                {
                    &&& ks.no_duplicates()
                    &&& forall|k: u64| #[trigger] ks.contains(k) <==> self.spec_bins().contains_key(k)
                        && self.records_of(k).contains_key(entity)
                    &&& ks.len() == v@.len()
                    &&& forall|i: int|
                        0 <= i < ks.len() ==> {
                            let rec = #[trigger] self.records_of(ks[i])[entity];
                            &&& v@[i].spec_id()@ == rec.id
                            &&& v@[i].spec_owner() == rec.owner
                            &&& v@[i].spec_value().kind() == self.spec_bins()[ks[i]].kind()
                        }
                },
    {
        let keys = keys_of(&self.bins);
        let mut comps: Vec<DynamicComponent> = Vec::new();
        let ghost mut ks: Seq<u64> = Seq::empty();
        let mut i: usize = 0;
        proof {
            assert(keys@.take(0) =~= Seq::<u64>::empty());
        }
        while i < keys.len()
            invariant
                self.wf(),
                keys@.to_set() == self.spec_bins().dom(),
                keys@.no_duplicates(),
                0 <= i <= keys@.len(),
                comps@.len() == ks.len(),
                ks.no_duplicates(),
                forall|k: u64| #[trigger] ks.contains(k) <==> keys@.take(i as int).contains(k)
                    && self.records_of(k).contains_key(entity),
                forall|j: int|
                    0 <= j < ks.len() ==> {
                        let rec = #[trigger] self.records_of(ks[j])[entity];
                        &&& self.spec_bins().contains_key(ks[j])
                        &&& self.records_of(ks[j]).contains_key(entity)
                        &&& comps@[j].spec_id()@ == rec.id
                        &&& comps@[j].spec_owner() == rec.owner
                        &&& comps@[j].spec_value().kind() == self.spec_bins()[ks[j]].kind()
                    },
            decreases keys@.len() - i,
        {
            let k = keys[i];
            assert(keys@.to_set().contains(k));
            let store = self.bins.get(&k).unwrap();
            let ghost ks0 = ks;
            proof {
                assert(keys@.take(i + 1) =~= keys@.take(i as int).push(k));
                assert(!keys@.take(i as int).contains(k)) by {
                    if keys@.take(i as int).contains(k) {
                        let j = choose|j: int| 0 <= j < i && keys@.take(i as int)[j] == k;
                        assert(keys@[j] == keys@[i as int]);
                    }
                }
            }
            if store.contains_entity(entity) {
                let d = store.get_dynamic_component(entity).unwrap();
                comps.push(d);
                proof {
                    ks = ks0.push(k);
                    let t0 = keys@.take(i as int);
                    let t1 = keys@.take(i + 1);
                    assert(t1[i as int] == k);
                    assert forall|x: u64| #[trigger] ks.contains(x) <==> t1.contains(x)
                        && self.records_of(x).contains_key(entity) by {
                        if ks.contains(x) && x != k {
                            let j = choose|j: int| 0 <= j < ks.len() && ks[j] == x;
                            assert(ks0[j] == x);
                            assert(ks0.contains(x));
                            let j2 = choose|j2: int| 0 <= j2 < t0.len() && t0[j2] == x;
                            assert(t1[j2] == x);
                        }
                        if t1.contains(x) && x != k {
                            let j = choose|j: int| 0 <= j < t1.len() && t1[j] == x;
                            assert(t0[j] == x);
                            assert(t0.contains(x));
                        }
                        if ks0.contains(x) {
                            let j = choose|j: int| 0 <= j < ks0.len() && ks0[j] == x;
                            assert(ks[j] == x);
                        }
                        if x == k {
                            assert(ks[ks.len() - 1] == k);
                        }
                    }
                    assert(ks.no_duplicates()) by {
                        assert forall|a: int, b: int| 0 <= a < ks.len() && 0 <= b < ks.len() && a != b
                            implies ks[a] != ks[b] by {
                            if a < ks0.len() && b < ks0.len() {
                                assert(ks0[a] != ks0[b]);
                            } else if a < ks0.len() {
                                assert(ks0.contains(ks0[a]));
                            } else if b < ks0.len() {
                                assert(ks0.contains(ks0[b]));
                            }
                        }
                    }
                    assert forall|j: int| 0 <= j < ks.len() implies {
                        let rec = #[trigger] self.records_of(ks[j])[entity];
                        &&& self.spec_bins().contains_key(ks[j])
                        &&& self.records_of(ks[j]).contains_key(entity)
                        &&& comps@[j].spec_id()@ == rec.id
                        &&& comps@[j].spec_owner() == rec.owner
                        &&& comps@[j].spec_value().kind() == self.spec_bins()[ks[j]].kind()
                    } by {
                        if j < ks0.len() {
                            assert(ks[j] == ks0[j]);
                        }
                    }
                }
            } else {
                proof {
                    let t0 = keys@.take(i as int);
                    let t1 = keys@.take(i + 1);
                    assert forall|x: u64| #[trigger] ks.contains(x) <==> t1.contains(x)
                        && self.records_of(x).contains_key(entity) by {
                        if t1.contains(x) && x != k {
                            let j = choose|j: int| 0 <= j < t1.len() && t1[j] == x;
                            assert(t0[j] == x);
                        }
                        if t0.contains(x) {
                            let j = choose|j: int| 0 <= j < t0.len() && t0[j] == x;
                            assert(t1[j] == x);
                        }
                    }
                }
            }
            i = i + 1;
        }
        proof {
            assert(keys@.take(keys@.len() as int) =~= keys@);
            assert forall|k: u64| #[trigger] ks.contains(k) <==> self.spec_bins().contains_key(k)
                && self.records_of(k).contains_key(entity) by {
                if self.spec_bins().contains_key(k) {
                    assert(keys@.to_set().contains(k));
                }
                if keys@.contains(k) {
                    assert(keys@.to_set().contains(k));
                }
            }
        }
        Ok(comps)
    }

    /// References to the components of `entity`, one from each store, in the
    /// order the stores are walked; the entity must have a component in
    /// every store.
    pub fn get_components_dyn_ref(&self, entity: Id) -> (r: Result<Vec<ComponentRef<'_>>, EcsError>)
        requires
            self.wf(),
            forall|k: u64| #[trigger]
                self.spec_bins().contains_key(k) ==> self.records_of(k).contains_key(entity),
        ensures
            r matches Ok(v) && exists|ks: Seq<u64>|
                {
                    &&& ks.no_duplicates()
                    &&& ks.to_set() == self.spec_bins().dom()
                    &&& ks.len() == v@.len()
                    &&& forall|i: int|
                        0 <= i < ks.len() ==> v@[i].graph() == (#[trigger] self.records_of(
                            ks[i],
                        )[entity]).value
                },
    {
        let keys = keys_of(&self.bins);
        let mut res: Vec<ComponentRef<'_>> = Vec::new();
        let mut i: usize = 0;
        while i < keys.len()
            invariant
                self.wf(),
                forall|k: u64| #[trigger]
                    self.spec_bins().contains_key(k) ==> self.records_of(k).contains_key(entity),
                keys@.to_set() == self.spec_bins().dom(),
                keys@.no_duplicates(),
                0 <= i <= keys@.len(),
                res@.len() == i,
                forall|j: int|
                    0 <= j < i ==> res@[j].graph() == (#[trigger] self.records_of(keys@[j])[entity]).value,
            decreases keys@.len() - i,
        {
            let k = keys[i];
            assert(keys@.to_set().contains(k));
            let store = self.bins.get(&k).unwrap();
            let c = store.get_component_dyn_ref(entity).unwrap();
            res.push(c);
            i = i + 1;
        }
        Ok(res)
    }

    /// Removes all components of `entity`.
    pub fn remove_entity_components(&mut self, entity: Id)
        requires
            old(self).wf(),
        ensures
            final(self).wf(),
            final(self).spec_bins().dom() == old(self).spec_bins().dom(),
            forall|k: u64| #[trigger] old(self).spec_bins().contains_key(k) ==> final(self).spec_bins()[k].kind()
                == old(self).spec_bins()[k].kind(),
            forall|k: u64| #[trigger] final(self).records_of(k) == old(self).records_of(k).remove(entity),
    {
        let keys = keys_of(&self.bins);
        let mut i: usize = 0;
        while i < keys.len()
            invariant
                self.wf(),
                keys@.to_set() == old(self).spec_bins().dom(),
                keys@.no_duplicates(),
                0 <= i <= keys@.len(),
                self.spec_bins().dom() == old(self).spec_bins().dom(),
                forall|k: u64| #[trigger] old(self).spec_bins().contains_key(k) ==> self.spec_bins()[k].kind()
                    == old(self).spec_bins()[k].kind(),
                forall|j: int| 0 <= j < i ==> self.records_of(#[trigger] keys@[j]) == old(self).records_of(keys@[j]).remove(entity),
                forall|j: int| i <= j < keys@.len() ==> self.records_of(#[trigger] keys@[j]) == old(self).records_of(keys@[j]),
            decreases keys@.len() - i,
        {
            let k = keys[i];
            assert(keys@.to_set().contains(k));
            let ghost before = *self;
            let store = hash_map_get_mut(&mut self.bins, &k).unwrap();
            let _ = store.remove_entity_components(entity);
            proof {
                assert(self.spec_bins().dom() =~= before.spec_bins().dom());
                assert forall|j: int| 0 <= j < keys@.len() && j != i implies self.records_of(#[trigger] keys@[j]) == before.records_of(keys@[j]) by {
                    assert(keys@[j] != keys@[i as int]);
                }
                assert forall|kk: u64| #[trigger] self.spec_bins().contains_key(kk) implies self.spec_bins()[kk].spec_wf()
                    && self.spec_bins()[kk].spec_type_id().id == kk by {
                    assert(before.spec_bins().contains_key(kk));
                }
            }
            i = i + 1;
        }
        assert forall|k: u64| #[trigger] self.records_of(k) == old(self).records_of(k).remove(entity) by {
            if old(self).spec_bins().contains_key(k) {
                assert(keys@.to_set().contains(k));
                let j = choose|j: int| 0 <= j < keys@.len() && keys@[j] == k;
                assert(self.records_of(keys@[j]) == old(self).records_of(keys@[j]).remove(entity));
            } else {
                assert(old(self).records_of(k).remove(entity) =~= Map::<Id, ComponentRecord>::empty());
            }
        }
    }
}

} // verus!

verus! {

/// A type identifier kept by the storage.
#[derive(Debug, Clone, Copy)]
pub struct TypeIdInternal(pub TypeId);

impl From<TypeId> for TypeIdInternal {
    fn from(id: TypeId) -> (r: Self)
        ensures
            r.0 == id,
    {
        TypeIdInternal(id)
    }
}

impl vstd::std_specs::convert::FromSpecImpl<TypeId> for TypeIdInternal {
    open spec fn obeys_from_spec() -> bool {
        true
    }

    open spec fn from_spec(v: TypeId) -> Self {
        TypeIdInternal(v)
    }
}

} // verus!
