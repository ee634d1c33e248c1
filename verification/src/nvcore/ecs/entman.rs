//! The entity manager: the entities and the storage of their components.
use vstd::prelude::*;
use std::collections::HashMap;
use vstd::std_specs::hash::*;
use crate::common::{TypeId, TypeIdTy, gen_128};
use crate::common::maps::{keys_of, hash_map_get_mut};
use crate::nvcore::ecs::component::{ComponentRef, EComponentGraphTypes, EComponentTypes};
use crate::nvcore::ecs::component::archetypes::{ArchetypeDescriptor, ArchetypeTy};
use crate::nvcore::ecs::storage::{Storage, added_record, replaced_record};
use crate::nvcore::ecs::{
    Component, ComponentId, ComponentTy, ComponentTyReqs, DynamicComponent, EcsError, Entity, Id,
    Signature, dedup,
};
use crate::nvcore::ecs::query::{PredicateTy, Query, QueryFetch, QueryResult, QueryTy, min_len, zip_map};

verus! {

broadcast use vstd::std_specs::hash::group_hash_axioms;

/// The first component of kind `k` in `comps`, if there is one.
pub open spec fn first_of_kind(comps: Seq<EComponentGraphTypes>, k: EComponentTypes) -> Option<
    EComponentGraphTypes,
>
    decreases comps.len(),
{
    if comps.len() == 0 {
        None
    } else {
        match first_of_kind(comps.drop_last(), k) {
            Some(v) => Some(v),
            None => if comps.last().kind() == k {
                Some(comps.last())
            } else {
                None
            },
        }
    }
}

/// The type identifiers of the kinds of `comps`.
pub open spec fn kind_ids(comps: Seq<EComponentGraphTypes>) -> Set<u64> {
    Set::new(|t: u64| exists|i: int| 0 <= i < comps.len() && #[trigger] comps[i].kind().type_id_spec() == t)
}

/// `after` is `before` with each of `comps` added for entity `e`, where `e`
/// had no component of its type yet: the first of each type counts.
pub open spec fn added_all(before: Storage, after: Storage, comps: Seq<EComponentGraphTypes>, e: Id) -> bool {
    &&& after.spec_bins().dom() == before.spec_bins().dom() + kind_ids(comps)
    &&& forall|k: EComponentTypes| #[trigger]
        first_of_kind(comps, k) matches Some(v) ==> added_record(
            before.records_of(k.type_id_spec()),
            after.records_of(k.type_id_spec()),
            e,
            v,
        )
    &&& forall|k: EComponentTypes| #[trigger]
        first_of_kind(comps, k) is None ==> after.records_of(k.type_id_spec())
            == before.records_of(k.type_id_spec())
}

proof fn lemma_first_of_kind_push(comps: Seq<EComponentGraphTypes>, x: EComponentGraphTypes, k: EComponentTypes)
    ensures
        first_of_kind(comps.push(x), k) == match first_of_kind(comps, k) {
            Some(v) => Some(v),
            None => if x.kind() == k {
                Some(x)
            } else {
                None
            },
        },
{
    assert(comps.push(x).drop_last() =~= comps);
}

proof fn lemma_first_of_kind_kind(comps: Seq<EComponentGraphTypes>, k: EComponentTypes)
    ensures
        first_of_kind(comps, k) matches Some(v) ==> v.kind() == k,
        first_of_kind(comps, k) is None <==> forall|i: int| 0 <= i < comps.len() ==> #[trigger] comps[i].kind() != k,
    decreases comps.len(),
{
    if comps.len() > 0 {
        lemma_first_of_kind_kind(comps.drop_last(), k);
        assert forall|i: int| 0 <= i < comps.len() - 1 implies comps.drop_last()[i] == comps[i] by {}
    }
}

impl EComponentGraphTypes {
    /// Adds this component for `entity` into the store of its type, unless
    /// the entity has one there.
    pub fn insert_component_into_storage(self, storage: &mut Storage, entity: Id) -> (r: Result<(), EcsError>)
        requires
            old(storage).wf(),
        ensures
            r is Ok,
            final(storage).wf(),
            Storage::only_bin_changed(*old(storage), *final(storage), self.kind().type_id_spec(), self.kind()),
            added_record(
                old(storage).records_of(self.kind().type_id_spec()),
                final(storage).records_of(self.kind().type_id_spec()),
                entity,
                self,
            ),
    {
        match self {
            EComponentGraphTypes::LocationComponent(c) => storage.insert_component(entity, c),
            EComponentGraphTypes::StringFieldComponent(c) => storage.insert_component(entity, c),
            EComponentGraphTypes::NumericalFieldComponent(c) => storage.insert_component(entity, c),
            EComponentGraphTypes::AgeComponent(c) => storage.insert_component(entity, c),
            EComponentGraphTypes::Sex(c) => storage.insert_component(entity, c),
            EComponentGraphTypes::NameComponent(c) => storage.insert_component(entity, c),
            EComponentGraphTypes::CharacterNameComponent(c) => storage.insert_component(entity, c),
            EComponentGraphTypes::BinaryComponent(c) => storage.insert_component(entity, c),
            EComponentGraphTypes::RelationshipComponent(c) => storage.insert_component(entity, c),
            EComponentGraphTypes::ArcComponent(c) => storage.insert_component(entity, c),
        }
    }
}

/// Each entity of `m` is kept under its own identifier.
pub open spec fn ids_match(m: Map<Id, Entity>) -> bool {
    forall|id: Id| #[trigger] m.contains_key(id) ==> m[id].spec_id() == id
}

/// The identifiers among `ks` of the entities of `em` whose signature,
/// without repeats, is `qsig`, in order.
pub open spec fn matching_ids(em: Entman, ks: Seq<Id>, qsig: Seq<TypeId>) -> Seq<Id>
    decreases ks.len(),
{
    if ks.len() == 0 {
        Seq::empty()
    } else {
        let m = matching_ids(em, ks.drop_last(), qsig);
        if dedup(em.spec_entities()[ks.last()].spec_sig()) == qsig {
            m.push(ks.last())
        } else {
            m
        }
    }
}

/// The elements of `s` whose flag is set, in order.
pub open spec fn select(s: Seq<Id>, flags: Seq<bool>) -> Seq<Id>
    decreases s.len(),
{
    if s.len() == 0 {
        Seq::empty()
    } else {
        let r = select(s.drop_last(), flags.drop_last());
        if flags.last() {
            r.push(s.last())
        } else {
            r
        }
    }
}

/// The components of entity `id` in `em`, one for each type of `qsig`, in
/// order.
pub open spec fn components_of<'a>(em: Entman, qsig: Seq<TypeId>, id: Id, c: Vec<ComponentRef<'a>>) -> bool {
    &&& c@.len() == qsig.len()
    &&& forall|j: int| 0 <= j < qsig.len() ==> (#[trigger] c@[j]).graph() == em.spec_storage().records_of(
        qsig[j].id,
    )[id].value
}

/// What a query with predicate `pred` gives on `em`: `ks` is the order the
/// entities were walked in and `flags` what the predicate answered for each
/// entity whose signature, without repeats, is that of the query. The
/// result holds exactly the accepted entities, each with its own
/// components.
pub open spec fn query_outcome<'a, Q: QueryTy, P: PredicateTy<'a, Q>>(
    em: &'a Entman,
    pred: P,
    ks: Seq<Id>,
    flags: Seq<bool>,
    matches: Map<Id, Vec<ComponentRef<'a>>>,
) -> bool {
    let m = matching_ids(*em, ks, Q::sig_spec());
    &&& ks.no_duplicates()
    &&& ks.to_set() == em.spec_entities().dom()
    &&& flags.len() == m.len()
    &&& forall|i: int| 0 <= i < m.len() ==> pred.answers(QueryFetch::<'a, Q>::spec_new(m[i], em), #[trigger] flags[i])
    &&& matches.dom() == select(m, flags).to_set()
    &&& forall|id: Id| #[trigger] matches.contains_key(id) ==> components_of(*em, Q::sig_spec(), id, matches[id])
}

/// The identifiers [`matching_ids`] gives are those of `ks` whose entity
/// has, without repeats, the signature `qsig`.
proof fn lemma_matching_ids(em: Entman, ks: Seq<Id>, qsig: Seq<TypeId>)
    ensures
        forall|i: int| 0 <= i < matching_ids(em, ks, qsig).len() ==> ks.contains(
            #[trigger] matching_ids(em, ks, qsig)[i],
        ) && dedup(em.spec_entities()[matching_ids(em, ks, qsig)[i]].spec_sig()) == qsig,
        forall|k: Id| ks.contains(k) && dedup(em.spec_entities()[k].spec_sig()) == qsig ==> #[trigger] matching_ids(
            em,
            ks,
            qsig,
        ).contains(k),
    decreases ks.len(),
{
    if ks.len() > 0 {
        let p = ks.drop_last();
        lemma_matching_ids(em, p, qsig);
        let m = matching_ids(em, ks, qsig);
        let mp = matching_ids(em, p, qsig);
        assert forall|i: int| 0 <= i < m.len() implies ks.contains(#[trigger] m[i]) && dedup(
            em.spec_entities()[m[i]].spec_sig(),
        ) == qsig by {
            if i < mp.len() {
                assert(m[i] == mp[i]);
                assert(p.contains(mp[i]));
                let j = choose|j: int| 0 <= j < p.len() && p[j] == mp[i];
                assert(ks[j] == p[j]);
            } else {
                assert(m[i] == ks.last());
                assert(ks[ks.len() - 1] == ks.last());
            }
        }
        assert forall|k: Id| ks.contains(k) && dedup(em.spec_entities()[k].spec_sig()) == qsig implies #[trigger] m.contains(
            k,
        ) by {
            let j = choose|j: int| 0 <= j < ks.len() && ks[j] == k;
            if j < p.len() {
                assert(p[j] == k);
                assert(mp.contains(k));
                let a = choose|a: int| 0 <= a < mp.len() && mp[a] == k;
                assert(m[a] == k);
            } else {
                assert(m[m.len() - 1] == k);
            }
        }
    }
}

/// The elements [`select`] keeps are those whose flag is set.
proof fn lemma_select(s: Seq<Id>, flags: Seq<bool>)
    requires
        flags.len() == s.len(),
    ensures
        forall|x: Id| #[trigger] select(s, flags).contains(x) <==> exists|i: int| 0 <= i < s.len() && s[i] == x && flags[i],
    decreases s.len(),
{
    if s.len() > 0 {
        let sp = s.drop_last();
        let fp = flags.drop_last();
        lemma_select(sp, fp);
        let r = select(s, flags);
        let rp = select(sp, fp);
        assert forall|x: Id| #[trigger] r.contains(x) <==> exists|i: int| 0 <= i < s.len() && s[i] == x && flags[i] by {
            if r.contains(x) {
                let a = choose|a: int| 0 <= a < r.len() && r[a] == x;
                if a < rp.len() {
                    assert(rp[a] == x);
                    assert(rp.contains(x));
                    let i = choose|i: int| 0 <= i < sp.len() && sp[i] == x && fp[i];
                    assert(s[i] == x && flags[i]);
                } else {
                    assert(s[s.len() - 1] == x && flags[s.len() - 1]);
                }
            }
            if exists|i: int| 0 <= i < s.len() && s[i] == x && flags[i] {
                let i = choose|i: int| 0 <= i < s.len() && s[i] == x && flags[i];
                if i < sp.len() {
                    assert(sp[i] == x && fp[i]);
                    assert(rp.contains(x));
                    let a = choose|a: int| 0 <= a < rp.len() && rp[a] == x;
                    assert(r[a] == x);
                } else {
                    assert(r[r.len() - 1] == x);
                }
            }
        }
    }
}

/// A query gives exactly the entities it accepts: each entity of the result
/// has the signature of the query (without repeats), an answer of yes from
/// the predicate, and its own components; an entity of that signature to
/// which the predicate can only answer yes is in the result, and one to
/// which it can only answer no is not.
pub proof fn law_query_gives_accepted<'a, Q: QueryTy, P: PredicateTy<'a, Q>>(
    em: &'a Entman,
    pred: P,
    ks: Seq<Id>,
    flags: Seq<bool>,
    matches: Map<Id, Vec<ComponentRef<'a>>>,
)
    requires
        query_outcome::<'a, Q, P>(em, pred, ks, flags, matches),
    ensures
        forall|id: Id| #[trigger] matches.contains_key(id) ==> {
            &&& em.spec_entities().contains_key(id)
            &&& dedup(em.spec_entities()[id].spec_sig()) == Q::sig_spec()
            &&& pred.answers(QueryFetch::<'a, Q>::spec_new(id, em), true)
            &&& components_of(*em, Q::sig_spec(), id, matches[id])
        },
        forall|id: Id|
            em.spec_entities().contains_key(id) && dedup(em.spec_entities()[id].spec_sig()) == Q::sig_spec()
                && !pred.answers(QueryFetch::<'a, Q>::spec_new(id, em), false) ==> #[trigger] matches.contains_key(id),
        forall|id: Id| !pred.answers(QueryFetch::<'a, Q>::spec_new(id, em), true) ==> !#[trigger] matches.contains_key(id),
{
    let m = matching_ids(*em, ks, Q::sig_spec());
    lemma_matching_ids(*em, ks, Q::sig_spec());
    lemma_select(m, flags);
    assert forall|id: Id| #[trigger] matches.contains_key(id) implies {
        &&& em.spec_entities().contains_key(id)
        &&& dedup(em.spec_entities()[id].spec_sig()) == Q::sig_spec()
        &&& pred.answers(QueryFetch::<'a, Q>::spec_new(id, em), true)
        &&& components_of(*em, Q::sig_spec(), id, matches[id])
    } by {
        assert(select(m, flags).to_set().contains(id));
        assert(select(m, flags).contains(id));
        let i = choose|i: int| 0 <= i < m.len() && m[i] == id && flags[i];
        assert(ks.contains(m[i]));
        assert(ks.to_set().contains(id));
        assert(pred.answers(QueryFetch::<'a, Q>::spec_new(m[i], em), flags[i]));
    }
    assert forall|id: Id|
        em.spec_entities().contains_key(id) && dedup(em.spec_entities()[id].spec_sig()) == Q::sig_spec()
            && !pred.answers(QueryFetch::<'a, Q>::spec_new(id, em), false) implies #[trigger] matches.contains_key(id) by {
        assert(ks.to_set().contains(id));
        assert(ks.contains(id));
        assert(m.contains(id));
        let i = choose|i: int| 0 <= i < m.len() && m[i] == id;
        assert(pred.answers(QueryFetch::<'a, Q>::spec_new(m[i], em), flags[i]));
        assert(flags[i]);
        assert(select(m, flags).contains(id));
        assert(select(m, flags).to_set().contains(id));
    }
    assert forall|id: Id| !pred.answers(QueryFetch::<'a, Q>::spec_new(id, em), true) implies !#[trigger] matches.contains_key(
        id,
    ) by {
        if matches.contains_key(id) {
            assert(select(m, flags).to_set().contains(id));
            let i = choose|i: int| 0 <= i < m.len() && m[i] == id && flags[i];
            assert(pred.answers(QueryFetch::<'a, Q>::spec_new(m[i], em), flags[i]));
        }
    }
}

/// Extending both sequences leaves the map of their first `n` pairs as it is.
proof fn lemma_zip_map_prefix<V>(a: Seq<Id>, av: Seq<V>, b: Seq<Id>, bv: Seq<V>, n: nat)
    requires
        n <= a.len(),
        n <= av.len(),
        n <= b.len(),
        n <= bv.len(),
        forall|i: int| 0 <= i < n ==> a[i] == b[i] && av[i] == bv[i],
    ensures
        zip_map(a, av, n) == zip_map(b, bv, n),
    decreases n,
{
    if n > 0 {
        lemma_zip_map_prefix(a, av, b, bv, (n - 1) as nat);
    }
}

/// The entity manager: the entities, by identifier, and the storage of
/// their components.
pub struct Entman {
    entities: HashMap<Id, Entity>,
    storage: Storage,
}

/// A reference to an entity of an entity manager.
pub struct EntityRef<'a> {
    pub id: Id,
    entman: &'a Entman,
}

impl<'a> EntityRef<'a> {
    pub closed spec fn spec_entman(self) -> Entman {
        *self.entman
    }

    pub closed spec fn spec_id(self) -> Id {
        self.id
    }

    /// Whether the entity has a component of type `T`.
    pub fn has_component<T: ComponentTyReqs>(&self) -> (r: bool)
        requires
            self.spec_entman().spec_entities().contains_key(self.spec_id()),
        ensures
            r == self.spec_entman().spec_entities()[self.spec_id()].spec_sig().contains(
                TypeId { id: T::type_id_spec() },
            ),
    {
        self.entman.get_entity(self.id).unwrap().has_component::<T>()
    }
}

/// A mutable reference to an entity of an entity manager.
pub struct EntityRefMut<'a> {
    entity: Id,
    entman: &'a mut Entman,
}

impl<'a> EntityRefMut<'a> {
    pub closed spec fn spec_entity(self) -> Id {
        self.entity
    }

    pub fn get_id(&self) -> (r: Id)
        ensures
            r == self.spec_entity(),
    {
        self.entity
    }
}

/// An entity with copies of all its components.
pub struct EntityOwned {
    id: Id,
    signature: Signature,
    components: Vec<DynamicComponent>,
}

impl EntityOwned {
    pub closed spec fn spec_id(self) -> Id {
        self.id
    }

    pub closed spec fn spec_signature(self) -> Seq<TypeId> {
        self.signature@
    }

    pub closed spec fn spec_components(self) -> Seq<DynamicComponent> {
        self.components@
    }

    pub fn get_signature(&self) -> (r: Signature)
        ensures
            r@ == self.spec_signature(),
    {
        self.signature.clone_sig()
    }

    pub fn get_id(&self) -> (r: Id)
        ensures
            r == self.spec_id(),
    {
        self.id
    }

    pub fn get_components(&self) -> (r: &Vec<DynamicComponent>)
        ensures
            r@ == self.spec_components(),
    {
        &self.components
    }
}

impl Entman {
    /// The entities, by identifier.
    pub closed spec fn spec_entities(self) -> Map<Id, Entity> {
        self.entities@
    }

    /// The storage of the components.
    pub closed spec fn spec_storage(self) -> Storage {
        self.storage
    }

    /// Each entity is kept under its own identifier, and the storage is well
    /// formed.
    pub open spec fn wf(self) -> bool {
        &&& self.spec_storage().wf()
        &&& ids_match(self.spec_entities())
        &&& self.spec_entities().dom().finite()
    }

    /// `after` is `before` with a new entity `id` of signature `sig`, and the
    /// same storage.
    pub open spec fn added_entity(before: Entman, after: Entman, id: Id, sig: Seq<TypeId>) -> bool {
        &&& after.spec_entities().contains_key(id)
        &&& after.spec_entities()[id].spec_id() == id
        &&& after.spec_entities()[id].spec_alive()
        &&& after.spec_entities()[id].spec_sig() == sig
        &&& after.spec_entities() == before.spec_entities().insert(id, after.spec_entities()[id])
    }

    pub fn new() -> (r: Self)
        ensures
            r.wf(),
            r.spec_entities() == Map::<Id, Entity>::empty(),
            r.spec_storage().spec_bins() == Map::<u64, crate::nvcore::ecs::AnyComponentStore>::empty(),
    {
        Entman { entities: HashMap::new(), storage: Storage::new() }
    }

    /// Adds a new entity with a random identifier and no components.
    pub fn add_entity(&mut self) -> (r: Id)
        requires
            old(self).wf(),
        ensures
            final(self).wf(),
            Entman::added_entity(*old(self), *final(self), r, Seq::<TypeId>::empty()),
            final(self).spec_storage() == old(self).spec_storage(),
    {
        let ent = gen_128();
        self.entities.insert(ent, Entity::new(ent));
        proof {
            assert forall|id: Id| #[trigger] self.entities@.contains_key(id) implies self.entities@[id].spec_id() == id by {
                if id != ent {
                    assert(old(self).spec_entities().contains_key(id));
                }
            }
        }
        ent
    }

    /// Adds a new entity with a random identifier, made as the descriptor
    /// says: its signature and its first component of each type.
    pub fn entity_from_descriptor(&mut self, desc: ArchetypeDescriptor) -> (r: Id)
        requires
            old(self).wf(),
        ensures
            final(self).wf(),
            Entman::added_entity(*old(self), *final(self), r, desc.spec_signature()),
            added_all(old(self).spec_storage(), final(self).spec_storage(), desc.spec_components(), r),
    {
        let ent = gen_128();
        let sig = desc.get_signature();
        self.entities.insert(ent, Entity::from_sig(ent, sig));
        let ghost comps = desc.spec_components();
        let ghost s0 = self.storage;
        let mut rest = desc.take_components();
        let n = rest.len();
        let mut i: usize = 0;
        proof {
            assert(comps.len() == n);
            assert(comps.take(0) =~= Seq::<EComponentGraphTypes>::empty());
            assert(kind_ids(comps.take(0)) =~= Set::<u64>::empty());
            assert(s0.spec_bins().dom() =~= s0.spec_bins().dom() + kind_ids(comps.take(0)));
            assert(rest@ =~= comps.skip(0));
            assert forall|id: Id| #[trigger] self.entities@.contains_key(id) implies self.entities@[id].spec_id() == id by {
                if id != ent {
                    assert(old(self).spec_entities().contains_key(id));
                }
            }
        }
        while rest.len() > 0
            invariant
                self.storage.wf(),
                comps.len() <= usize::MAX,
                forall|id: Id| #[trigger] self.entities@.contains_key(id) ==> self.entities@[id].spec_id() == id,
                i + rest@.len() == comps.len(),
                rest@ == comps.skip(i as int),
                added_all(s0, self.storage, comps.take(i as int), ent),
                self.entities@ == old(self).spec_entities().insert(ent, self.entities@[ent]),
                self.entities@[ent].spec_id() == ent,
                self.entities@[ent].spec_alive(),
                self.entities@[ent].spec_sig() == desc.spec_signature(),
            decreases rest@.len(),
        {
            let ghost before = self.storage;
            let c = rest.remove(0);
            assert(c == comps[i as int]);
            let _ = c.insert_component_into_storage(&mut self.storage, ent);
            proof {
                let pre = comps.take(i as int);
                assert(comps.take(i + 1) =~= pre.push(c));
                assert forall|k: EComponentTypes| true implies #[trigger] first_of_kind(comps.take(i + 1), k)
                    == match first_of_kind(pre, k) {
                    Some(v) => Some(v),
                    None => if c.kind() == k {
                        Some(c)
                    } else {
                        None
                    },
                } by {
                    lemma_first_of_kind_push(pre, c, k);
                }
                assert forall|k: EComponentTypes| #[trigger] first_of_kind(comps.take(i + 1), k)
                    is Some implies added_record(
                    s0.records_of(k.type_id_spec()),
                    self.storage.records_of(k.type_id_spec()),
                    ent,
                    first_of_kind(comps.take(i + 1), k)->0,
                ) by {
                    lemma_first_of_kind_push(pre, c, k);
                    crate::nvcore::ecs::storage::lemma_type_id_injective(k, c.kind());
                    if first_of_kind(pre, k) is Some {
                        if k == c.kind() {
                            assert(before.records_of(k.type_id_spec()).contains_key(ent));
                        }
                    }
                }
                assert forall|k: EComponentTypes| #[trigger] first_of_kind(comps.take(i + 1), k)
                    is None implies self.storage.records_of(k.type_id_spec()) == s0.records_of(
                    k.type_id_spec(),
                ) by {
                    lemma_first_of_kind_push(pre, c, k);
                    crate::nvcore::ecs::storage::lemma_type_id_injective(k, c.kind());
                }
                assert forall|t: u64| #[trigger] kind_ids(comps.take(i + 1)).contains(t) <==> kind_ids(pre).contains(t)
                    || t == c.kind().type_id_spec() by {
                    if kind_ids(comps.take(i + 1)).contains(t) {
                        let j = choose|j: int| 0 <= j < comps.take(i + 1).len() && #[trigger] comps.take(i + 1)[j].kind().type_id_spec() == t;
                        if j < i {
                            assert(pre[j] == comps.take(i + 1)[j]);
                        }
                    }
                    if kind_ids(pre).contains(t) {
                        let j = choose|j: int| 0 <= j < pre.len() && #[trigger] pre[j].kind().type_id_spec() == t;
                        assert(comps.take(i + 1)[j] == pre[j]);
                    }
                    if t == c.kind().type_id_spec() {
                        assert(comps.take(i + 1)[i as int] == c);
                    }
                }
                assert(self.storage.spec_bins().dom() =~= s0.spec_bins().dom() + kind_ids(comps.take(i + 1)));
                assert(rest@ =~= comps.skip(i + 1));
            }
            i = i + 1;
        }
        proof {
            assert(comps.take(i as int) =~= comps);
        }
        ent
    }

    /// Adds a new entity made from the archetype.
    pub fn entity_from_archetype<T: ArchetypeTy>(&mut self, archetype: T) -> (r: Id)
        requires
            old(self).wf(),
        ensures
            final(self).wf(),
            exists|d: ArchetypeDescriptor|
                {
                    &&& archetype.describes(d)
                    &&& Entman::added_entity(*old(self), *final(self), r, d.spec_signature())
                    &&& added_all(old(self).spec_storage(), final(self).spec_storage(), d.spec_components(), r)
                },
    {
        let desc = archetype.describe();
        let ghost d = desc;
        let r = self.entity_from_descriptor(desc);
        assert(Entman::added_entity(*old(self), *self, r, d.spec_signature()));
        r
    }

    /// Removes the entity and all its components.
    pub fn remove_entity(&mut self, entity: Id)
        requires
            old(self).wf(),
        ensures
            final(self).wf(),
            final(self).spec_entities() == old(self).spec_entities().remove(entity),
            final(self).spec_storage().spec_bins().dom() == old(self).spec_storage().spec_bins().dom(),
            forall|k: u64| #[trigger] final(self).spec_storage().records_of(k) == old(self).spec_storage().records_of(
                k,
            ).remove(entity),
    {
        self.entities.remove(&entity);
        self.storage.remove_entity_components(entity);
        proof {
            assert forall|id: Id| #[trigger] self.entities@.contains_key(id) implies self.entities@[id].spec_id() == id by {
                assert(old(self).spec_entities().contains_key(id));
            }
        }
    }

    /// Adds `component` to `entity`, which must exist: to the storage, unless
    /// the entity has one of the type, and to its signature, unless it is
    /// there.
    pub fn add_component<T: ComponentTyReqs>(&mut self, entity: Id, component: T) -> (r: Result<(), EcsError>)
        requires
            old(self).wf(),
            old(self).spec_entities().contains_key(entity),
        ensures
            r is Ok,
            final(self).wf(),
            Storage::only_bin_changed(old(self).spec_storage(), final(self).spec_storage(), T::type_id_spec(), T::kind_spec()),
            added_record(
                old(self).spec_storage().records_of(T::type_id_spec()),
                final(self).spec_storage().records_of(T::type_id_spec()),
                entity,
                component.graph_spec(),
            ),
            Entman::signature_gained(*old(self), *final(self), entity, TypeId { id: T::type_id_spec() }),
    {
        let _ = self.storage.insert_component::<T>(entity, component);
        let ent = hash_map_get_mut(&mut self.entities, &entity).unwrap();
        let r = ent.add_component::<T>();
        proof {
            assert forall|id: Id| #[trigger] self.entities@.contains_key(id) implies self.entities@[id].spec_id() == id by {
                if id != entity {
                    assert(old(self).spec_entities().contains_key(id));
                }
            }
        }
        r
    }

    /// `after` is `before` with `t` added to the signature of `entity`,
    /// unless it is there.
    pub open spec fn signature_gained(before: Entman, after: Entman, entity: Id, t: TypeId) -> bool {
        let old_e = before.spec_entities()[entity];
        &&& after.spec_entities().contains_key(entity)
        &&& after.spec_entities() == before.spec_entities().insert(entity, after.spec_entities()[entity])
        &&& after.spec_entities()[entity].spec_id() == old_e.spec_id()
        &&& after.spec_entities()[entity].spec_alive() == old_e.spec_alive()
        &&& after.spec_entities()[entity].spec_sig() == if old_e.spec_sig().contains(t) {
            old_e.spec_sig()
        } else {
            old_e.spec_sig().push(t)
        }
    }

    /// Adds a default component of type `T` to `entity`, which must exist:
    /// to its signature, unless it is there, and to the storage, replacing
    /// the one it has.
    pub fn add_component_default<T: ComponentTyReqs + Default>(&mut self, entity: Id) -> (r: Result<(), EcsError>)
        requires
            old(self).wf(),
            old(self).spec_entities().contains_key(entity),
        ensures
            r is Ok,
            final(self).wf(),
            Entman::signature_gained(*old(self), *final(self), entity, TypeId { id: T::type_id_spec() }),
            Storage::only_bin_changed(old(self).spec_storage(), final(self).spec_storage(), T::type_id_spec(), T::kind_spec()),
            replaced_record(
                old(self).spec_storage().records_of(T::type_id_spec()),
                final(self).spec_storage().records_of(T::type_id_spec()),
                entity,
            ),
    {
        let ent = hash_map_get_mut(&mut self.entities, &entity).unwrap();
        let _ = ent.add_component::<T>();
        proof {
            assert forall|id: Id| #[trigger] self.entities@.contains_key(id) implies self.entities@[id].spec_id() == id by {
                if id != entity {
                    assert(old(self).spec_entities().contains_key(id));
                }
            }
        }
        let _ = self.storage.insert_default::<T>(entity);
        Ok(())
    }

    /// A reference to `entity`.
    pub fn get_entity_ref(&self, entity: Id) -> (r: Option<EntityRef<'_>>)
        ensures
            r matches Some(e) && e.spec_id() == entity && e.spec_entman() == *self,
    {
        Some(EntityRef { id: entity, entman: self })
    }

    /// A mutable reference to `entity`.
    pub fn get_entity_mut(&mut self, entity: Id) -> (r: Option<EntityRefMut<'_>>)
        ensures
            r matches Some(e) && e.spec_entity() == entity,
    {
        Some(EntityRefMut { entity, entman: self })
    }

    /// The number of entities.
    pub fn get_entity_count(&self) -> (r: usize)
        ensures
            r == self.spec_entities().len(),
    {
        self.entities.len()
    }

    /// The entity `entity`.
    pub fn get_entity(&self, entity: Id) -> (r: Result<&Entity, EcsError>)
        ensures
            match r {
                Ok(e) => self.spec_entities().contains_key(entity) && *e == self.spec_entities()[entity],
                Err(err) => !self.spec_entities().contains_key(entity) && err == EcsError::EntityNotFound(
                    entity,
                ),
            },
    {
        match self.entities.get(&entity) {
            Some(e) => Ok(e),
            None => Err(EcsError::EntityNotFound(entity)),
        }
    }

    /// A copy of the entity `entity`, which must exist.
    pub fn get_entity_clone(&self, entity: Id) -> (r: Entity)
        requires
            self.spec_entities().contains_key(entity),
        ensures
            r.spec_id() == self.spec_entities()[entity].spec_id(),
            r.spec_alive() == self.spec_entities()[entity].spec_alive(),
            r.spec_sig() == self.spec_entities()[entity].spec_sig(),
    {
        self.entities.get(&entity).unwrap().clone()
    }

    /// The identifiers of the living entities, each once, in the order the
    /// entities are walked.
    pub fn get_all_living_entities(&self) -> (r: Vec<Id>)
        requires
            self.wf(),
        ensures
            r@.no_duplicates(),
            forall|id: Id| r@.contains(id) <==> self.spec_entities().contains_key(id)
                && #[trigger] self.spec_entities()[id].spec_alive(),
    {
        let keys = keys_of(&self.entities);
        let mut res: Vec<Id> = Vec::new();
        let mut i: usize = 0;
        while i < keys.len()
            invariant
                self.wf(),
                keys@.to_set() == self.spec_entities().dom(),
                keys@.no_duplicates(),
                0 <= i <= keys@.len(),
                res@.no_duplicates(),
                forall|x: Id| #[trigger] res@.contains(x) ==> self.spec_entities().contains_key(x)
                    && self.spec_entities()[x].spec_alive() && exists|j: int| 0 <= j < i && keys@[j] == x,
                forall|j: int| 0 <= j < i && #[trigger] self.spec_entities()[keys@[j]].spec_alive()
                    ==> res@.contains(keys@[j]),
            decreases keys@.len() - i,
        {
            let k = keys[i];
            assert(keys@.to_set().contains(k));
            let e = self.entities.get(&k).unwrap();
            if e.is_valid() {
                let id = e.get_id();
                proof {
                    assert forall|x: Id| res@.contains(x) implies x != id by {
                        let j = choose|j: int| 0 <= j < i && keys@[j] == x;
                        assert(keys@[j] != keys@[i as int]);
                    }
                }
                let ghost prev = res@;
                res.push(id);
                proof {
                    assert(id == keys@[i as int]);
                    assert(res@[res@.len() - 1] == id);
                    assert(res@.contains(id));
                    assert forall|a: int, b: int| 0 <= a < b < res@.len() implies res@[a] != res@[b] by {
                        if b == res@.len() - 1 {
                            assert(prev.contains(res@[a]));
                        } else {
                            assert(prev[a] == res@[a] && prev[b] == res@[b]);
                        }
                    }
                    assert forall|x: Id| #[trigger] res@.contains(x) implies self.spec_entities().contains_key(x)
                        && self.spec_entities()[x].spec_alive() && exists|j: int| 0 <= j < i + 1 && keys@[j] == x by {
                        if x != id {
                            assert(prev.contains(x));
                        } else {
                            assert(keys@[i as int] == x);
                        }
                    }
                    assert forall|j: int| 0 <= j < i + 1 && #[trigger] self.spec_entities()[keys@[j]].spec_alive()
                        implies res@.contains(keys@[j]) by {
                        if j < i {
                            assert(prev.contains(keys@[j]));
                            let idx = choose|idx: int| 0 <= idx < prev.len() && prev[idx] == keys@[j];
                            assert(res@[idx] == keys@[j]);
                        } else {
                            assert(res@[res@.len() - 1] == id);
                        }
                    }
                }
            }
            i = i + 1;
        }
        proof {
            assert forall|id: Id| res@.contains(id) <==> self.spec_entities().contains_key(id)
                && #[trigger] self.spec_entities()[id].spec_alive() by {
                if self.spec_entities().contains_key(id) && self.spec_entities()[id].spec_alive() {
                    assert(keys@.to_set().contains(id));
                    let j = choose|j: int| 0 <= j < keys@.len() && keys@[j] == id;
                    assert(self.spec_entities()[keys@[j]].spec_alive());
                }
            }
        }
        res
    }

    /// The entity `entity`, which must exist, with copies of all the
    /// components it owns.
    pub fn get_entity_owned(&self, entity: Id) -> (r: Result<EntityOwned, EcsError>)
        requires
            self.wf(),
            self.spec_entities().contains_key(entity),
        ensures
            r matches Ok(o) && o.spec_id() == entity && o.spec_signature()
                == self.spec_entities()[entity].spec_sig() && exists|ks: Seq<u64>|
                {
                    &&& ks.no_duplicates()
                    &&& forall|k: u64| #[trigger] ks.contains(k) <==> self.spec_storage().spec_bins().contains_key(k)
                        && self.spec_storage().records_of(k).contains_key(entity)
                    &&& ks.len() == o.spec_components().len()
                    &&& forall|i: int|
                        0 <= i < ks.len() ==> {
                            let rec = #[trigger] self.spec_storage().records_of(ks[i])[entity];
                            &&& o.spec_components()[i].spec_id()@ == rec.id
                            &&& o.spec_components()[i].spec_owner() == rec.owner
                            &&& o.spec_components()[i].spec_value().kind() == self.spec_storage().spec_bins()[ks[i]].kind()
                        }
                },
    {
        let sig = self.get_entity(entity).unwrap().get_signature();
        let components = self.storage.get_entity_owned_components(entity).unwrap();
        Ok(EntityOwned { id: entity, signature: sig, components })
    }

    /// The component of type `T` of `entity`.
    pub fn get_component_ref<T: ComponentTyReqs>(&self, entity: Id) -> (r: Result<&Component<T>, EcsError>)
        requires
            self.wf(),
        ensures
            ({
                let tid = T::type_id_spec();
                let s = self.spec_storage();
                match r {
                    Ok(c) => s.records_of(tid).contains_key(entity) && c.record() == s.records_of(tid)[entity]
                        && c.spec_owner() == Some(entity),
                    Err(e) => if !s.spec_bins().contains_key(tid) {
                        e == EcsError::NoStoreForType(TypeId { id: tid })
                    } else {
                        !s.records_of(tid).contains_key(entity) && e == EcsError::EntityLacksComponent(
                            TypeId { id: tid },
                        )
                    },
                }
            }),
    {
        self.storage.get_component_ref::<T>(entity)
    }

    /// The component of type `T` with identifier `id`.
    pub fn get_component_by_id_ref<T: ComponentTyReqs>(&self, id: ComponentId) -> (r: Result<&Component<T>, EcsError>)
        requires
            self.wf(),
        ensures
            ({
                let tid = T::type_id_spec();
                let s = self.spec_storage();
                match r {
                    Ok(c) => c.spec_id() == id && exists|e: Id| #[trigger]
                        s.records_of(tid).contains_key(e) && s.records_of(tid)[e] == c.record(),
                    Err(err) => if !s.spec_bins().contains_key(tid) {
                        err == EcsError::NoStoreForType(TypeId { id: tid })
                    } else {
                        err == EcsError::ComponentNotFound(id) && forall|e: Id| #[trigger]
                            s.records_of(tid).contains_key(e) ==> s.records_of(tid)[e].id != id@
                    },
                }
            }),
    {
        self.storage.get_component_by_id_ref::<T>(id)
    }

    /// A mutable reference to the component of type `T` of `entity`.
    #[verifier::spinoff_prover]
    pub fn get_component_mut<T: ComponentTyReqs>(&mut self, entity: Id) -> (r: Result<&mut Component<T>, EcsError>)
        requires
            old(self).wf(),
        ensures
            final(self).spec_entities() == old(self).spec_entities(),
            r is Ok ==> old(self).spec_storage().records_of(T::type_id_spec()).contains_key(entity),
            r matches Ok(c) ==> c.record() == old(self).spec_storage().records_of(T::type_id_spec())[entity],
            r is Ok ==> final(self).spec_storage().spec_bins().dom() == old(self).spec_storage().spec_bins().dom(),
            r is Ok ==> forall|k: u64| k != T::type_id_spec() && #[trigger] old(self).spec_storage().spec_bins().contains_key(k)
                ==> final(self).spec_storage().spec_bins()[k] == old(self).spec_storage().spec_bins()[k],
            r matches Ok(c) ==> final(self).spec_storage().records_of(T::type_id_spec()) == old(self).spec_storage().records_of(
                T::type_id_spec(),
            ).insert(entity, final(c).record()),
            r matches Ok(c) ==> (final(c).spec_owner() == Some(entity) ==> final(self).wf()),
            r is Err ==> final(self).spec_storage() == old(self).spec_storage(),
            r matches Err(e) ==> if !old(self).spec_storage().spec_bins().contains_key(T::type_id_spec()) {
                e == EcsError::NoStoreForType(TypeId { id: T::type_id_spec() })
            } else {
                !old(self).spec_storage().records_of(T::type_id_spec()).contains_key(entity) && e
                    == EcsError::EntityLacksComponent(TypeId { id: T::type_id_spec() })
            },
    {
        self.storage.get_component_mut::<T>(entity)
    }

    /// References to the components of `entity`, one from each store; the
    /// entity must have a component in every store.
    pub fn get_components_dyn_ref(&self, entity: Id) -> (r: Result<Vec<ComponentRef<'_>>, EcsError>)
        requires
            self.wf(),
            forall|k: u64| #[trigger]
                self.spec_storage().spec_bins().contains_key(k) ==> self.spec_storage().records_of(k).contains_key(entity),
        ensures
            r matches Ok(v) && exists|ks: Seq<u64>|
                {
                    &&& ks.no_duplicates()
                    &&& ks.to_set() == self.spec_storage().spec_bins().dom()
                    &&& ks.len() == v@.len()
                    &&& forall|i: int|
                        0 <= i < ks.len() ==> v@[i].graph() == (#[trigger] self.spec_storage().records_of(
                            ks[i],
                        )[entity]).value
                },
    {
        self.storage.get_components_dyn_ref(entity)
    }

    /// Runs the query: the entities whose signature, without repeats, is that
    /// of the query and which the predicate accepts, each with its own
    /// components in the order of the queried types.
    pub fn query<'a, Q: QueryTy, P: PredicateTy<'a, Q>>(&'a self, query: &Query<'a, Q, P>) -> (r: QueryResult<'a, Q>)
        requires
            self.wf(),
            forall|id: Id| #[trigger] self.spec_entities().contains_key(id) && dedup(self.spec_entities()[id].spec_sig())
                == Q::sig_spec() ==> forall|j: int| 0 <= j < Q::sig_spec().len()
                ==> self.spec_storage().records_of(#[trigger] Q::sig_spec()[j].id).contains_key(id),
            forall|id: Id| #[trigger] self.spec_entities().contains_key(id)
                ==> query.spec_predicate().admits(QueryFetch::<'a, Q>::spec_new(id, self)),
        ensures
            exists|ks: Seq<Id>, flags: Seq<bool>| #[trigger]
                query_outcome::<'a, Q, P>(self, query.spec_predicate(), ks, flags, r.spec_matches()),
            forall|id: Id| #[trigger] r.spec_matches().contains_key(id) ==> {
                &&& self.spec_entities().contains_key(id)
                &&& dedup(self.spec_entities()[id].spec_sig()) == Q::sig_spec()
                &&& query.spec_predicate().answers(QueryFetch::<'a, Q>::spec_new(id, self), true)
                &&& components_of(*self, Q::sig_spec(), id, r.spec_matches()[id])
            },
            forall|id: Id|
                self.spec_entities().contains_key(id) && dedup(self.spec_entities()[id].spec_sig()) == Q::sig_spec()
                    && !query.spec_predicate().answers(QueryFetch::<'a, Q>::spec_new(id, self), false)
                    ==> #[trigger] r.spec_matches().contains_key(id),
    {
        let sig = Q::generate_sig();
        let keys = keys_of(&self.entities);
        let mut ids: Vec<Id> = Vec::new();
        let mut components: Vec<Vec<ComponentRef<'a>>> = Vec::new();
        let ghost mut flags: Seq<bool> = Seq::empty();
        let ghost mut zm: Map<Id, Vec<ComponentRef<'a>>> = Map::empty();
        let ghost qsig = Q::sig_spec();
        let ghost pred = query.spec_predicate();
        let mut i: usize = 0;
        proof {
            assert(keys@.take(0) =~= Seq::<Id>::empty());
            assert(ids@.to_set() =~= Set::<Id>::empty());
        }
        while i < keys.len()
            invariant
                self.wf(),
                forall|id: Id| #[trigger] self.spec_entities().contains_key(id) && dedup(self.spec_entities()[id].spec_sig())
                    == qsig ==> forall|j: int| 0 <= j < qsig.len()
                    ==> self.spec_storage().records_of(#[trigger] qsig[j].id).contains_key(id),
                forall|id: Id| #[trigger] self.spec_entities().contains_key(id)
                    ==> query.spec_predicate().admits(QueryFetch::<'a, Q>::spec_new(id, self)),
                pred == query.spec_predicate(),
                sig@ == qsig,
                qsig == Q::sig_spec(),
                keys@.to_set() == self.spec_entities().dom(),
                keys@.no_duplicates(),
                0 <= i <= keys@.len(),
                flags.len() == matching_ids(*self, keys@.take(i as int), qsig).len(),
                forall|a: int| 0 <= a < flags.len() ==> pred.answers(
                    QueryFetch::<'a, Q>::spec_new(matching_ids(*self, keys@.take(i as int), qsig)[a], self),
                    #[trigger] flags[a],
                ),
                ids@ == select(matching_ids(*self, keys@.take(i as int), qsig), flags),
                components@.len() == ids@.len(),
                zm == zip_map(ids@, components@, ids@.len() as nat),
                zm.dom() == ids@.to_set(),
                forall|id: Id| #[trigger] zm.contains_key(id) ==> components_of(*self, qsig, id, zm[id]),
            decreases keys@.len() - i,
        {
            let k = keys[i];
            assert(keys@.to_set().contains(k));
            let ghost m0 = matching_ids(*self, keys@.take(i as int), qsig);
            let ghost f0 = flags;
            proof {
                assert(keys@.take(i + 1).drop_last() =~= keys@.take(i as int));
                assert(keys@.take(i + 1).last() == k);
            }
            let entity = self.entities.get(&k).unwrap();
            let single = entity.get_signature_ref().get_singular_signature();
            if single.same_as(&sig) {
                let qf = QueryFetch::<'a, Q>::new(k, self);
                let accepted = query.predicate().check(qf);
                proof {
                    assert(m0.push(k).drop_last() =~= m0);
                    assert(f0.push(accepted).drop_last() =~= f0);
                    flags = f0.push(accepted);
                    let m1 = matching_ids(*self, keys@.take(i + 1), qsig);
                    assert(m1 =~= m0.push(k));
                    assert forall|a: int| 0 <= a < flags.len() implies pred.answers(
                        QueryFetch::<'a, Q>::spec_new(m1[a], self),
                        #[trigger] flags[a],
                    ) by {
                        if a < f0.len() {
                            assert(flags[a] == f0[a]);
                            assert(m1[a] == m0[a]);
                        }
                    }
                }
                if accepted {
                    let mut c: Vec<ComponentRef<'a>> = Vec::new();
                    let mut j: usize = 0;
                    while j < sig.get_type_ids().len()
                        invariant
                            self.wf(),
                            sig@ == qsig,
                            self.spec_entities().contains_key(k),
                            forall|b: int| 0 <= b < qsig.len() ==> self.spec_storage().records_of(#[trigger] qsig[b].id).contains_key(k),
                            0 <= j <= qsig.len(),
                            c@.len() == j,
                            forall|b: int| 0 <= b < j ==> (#[trigger] c@[b]).graph() == self.spec_storage().records_of(
                                qsig[b].id,
                            )[k].value,
                        decreases qsig.len() - j,
                    {
                        let t = sig.get_type_ids()[j];
                        assert(self.spec_storage().records_of(qsig[j as int].id).contains_key(k));
                        let cr = self.get_component_dyn_ref(t, k).unwrap();
                        c.push(cr);
                        j = j + 1;
                    }
                    let ghost ids0 = ids@;
                    let ghost comps0 = components@;
                    ids.push(k);
                    components.push(c);
                    proof {
                        lemma_zip_map_prefix(ids@, components@, ids0, comps0, ids0.len());
                        assert(zip_map(ids@, components@, ids@.len() as nat) == zip_map(ids@, components@, ids0.len())
                            .insert(ids@[ids0.len() as int], components@[ids0.len() as int]));
                        zm = zm.insert(k, c);
                        assert(ids@ =~= ids0.push(k));
                        assert(zm.dom() =~= ids@.to_set()) by {
                            assert forall|x: Id| ids@.to_set().contains(x) <==> ids0.to_set().contains(x) || x == k by {
                                if ids@.contains(x) {
                                    let a = choose|a: int| 0 <= a < ids@.len() && ids@[a] == x;
                                    if a < ids0.len() {
                                        assert(ids0[a] == x);
                                    }
                                }
                                if ids0.contains(x) {
                                    let a = choose|a: int| 0 <= a < ids0.len() && ids0[a] == x;
                                    assert(ids@[a] == x);
                                }
                                if x == k {
                                    assert(ids@[ids0.len() as int] == k);
                                }
                            }
                        }
                        assert(components_of(*self, qsig, k, c));
                    }
                }
            } else {
                proof {
                    let m1 = matching_ids(*self, keys@.take(i + 1), qsig);
                    assert(m1 =~= m0);
                }
            }
            i = i + 1;
        }
        proof {
            assert(keys@.take(keys@.len() as int) =~= keys@);
        }
        let r = QueryResult::new(ids, components);
        proof {
            assert(min_len(ids@.len(), components@.len()) == ids@.len());
        }
        assert(query_outcome::<'a, Q, P>(self, query.spec_predicate(), keys@, flags, r.spec_matches()));
        proof {
            law_query_gives_accepted::<'a, Q, P>(self, query.spec_predicate(), keys@, flags, r.spec_matches());
        }
        r
    }

    /// The component of type identifier `type_id` of `entity`, which has one
    /// where the store exists.
    pub fn get_component_dyn_ref(&self, type_id: TypeId, entity: Id) -> (r: Result<ComponentRef<'_>, EcsError>)
        requires
            self.wf(),
            self.spec_storage().spec_bins().contains_key(type_id.id) ==> self.spec_storage().records_of(
                type_id.id,
            ).contains_key(entity),
        ensures
            match r {
                Ok(c) => self.spec_storage().records_of(type_id.id).contains_key(entity) && c.graph()
                    == self.spec_storage().records_of(type_id.id)[entity].value,
                Err(e) => !self.spec_storage().spec_bins().contains_key(type_id.id) && e
                    == EcsError::NoStoreForType(type_id),
            },
    {
        self.storage.get_component_dyn_ref(type_id, entity)
    }
}

/// What adding a component gives back: the entity's signature then holds
/// the type, and where the entity had no component of the type, the store
/// of the type holds one for it with the added value; otherwise the store
/// is as it was.
pub proof fn law_add_component_then_read(
    before: Entman,
    after: Entman,
    entity: Id,
    tid: u64,
    v: crate::nvcore::ecs::component::EComponentGraphTypes,
)
    requires
        before.spec_entities().contains_key(entity),
        Entman::signature_gained(before, after, entity, TypeId { id: tid }),
        added_record(before.spec_storage().records_of(tid), after.spec_storage().records_of(tid), entity, v),
    ensures
        after.spec_entities()[entity].spec_sig().contains(TypeId { id: tid }),
        !before.spec_storage().records_of(tid).contains_key(entity) ==> {
            &&& after.spec_storage().records_of(tid).contains_key(entity)
            &&& after.spec_storage().records_of(tid)[entity].value == v
            &&& after.spec_storage().records_of(tid)[entity].owner == Some(entity)
        },
        before.spec_storage().records_of(tid).contains_key(entity) ==> after.spec_storage().records_of(tid)
            == before.spec_storage().records_of(tid),
{
    let s = before.spec_entities()[entity].spec_sig();
    let t = TypeId { id: tid };
    if !s.contains(t) {
        assert(s.push(t)[s.len() as int] == t);
    }
}

/// Removing an entity forgets it: it is no longer among the entities, and
/// no store holds a component of it.
pub proof fn law_removed_entity_is_gone(before: Entman, after: Entman, entity: Id)
    requires
        after.spec_entities() == before.spec_entities().remove(entity),
        forall|k: u64| #[trigger] after.spec_storage().records_of(k) == before.spec_storage().records_of(k).remove(entity),
    ensures
        !after.spec_entities().contains_key(entity),
        forall|k: u64| !(#[trigger] after.spec_storage().records_of(k)).contains_key(entity),
{
    assert forall|k: u64| !(#[trigger] after.spec_storage().records_of(k)).contains_key(entity) by {
        assert(after.spec_storage().records_of(k) == before.spec_storage().records_of(k).remove(entity));
    }
}

} // verus!
