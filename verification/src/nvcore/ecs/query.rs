//! Queries: which entities have a given set of component types, and their
//! components.
use vstd::prelude::*;
use std::collections::BTreeMap;
use vstd::std_specs::btree::*;
use vstd::std_specs::iter::IteratorSpec;
use vstd::std_specs::cmp::OrdSpec;
use crate::common::{TypeId, TypeIdTy};
use crate::nvcore::ecs::component::ComponentRef;
use crate::nvcore::ecs::{Component, ComponentTy, ComponentTyReqs, EcsError, Entman, Id, Signature};

verus! {

broadcast use vstd::std_specs::btree::group_btree_axioms;

/// A type that can be queried: a component type or a tuple of them.
pub trait QueryTy {
    /// The type identifiers of the queried component types, in order.
    spec fn sig_spec() -> Seq<TypeId>;

    fn generate_sig() -> (r: Signature)
        ensures
            r@ == Self::sig_spec(),
    ;

    /// Whether the component type `X` is among the queried ones.
    fn contains<X: ComponentTy>() -> (r: bool)
        ensures
            r == Self::sig_spec().contains(TypeId { id: X::type_id_spec() }),
    ;
}

impl<T: ComponentTy> QueryTy for T {
    open spec fn sig_spec() -> Seq<TypeId> {
        seq![TypeId { id: T::type_id_spec() }]
    }

    fn generate_sig() -> (r: Signature) {
        Signature::from(T::get_type_id())
    }

    fn contains<X: ComponentTy>() -> (r: bool) {
        let r = X::get_type_id().id == T::get_type_id().id;
        proof {
            if !r {
                assert(!Self::sig_spec().contains(TypeId { id: X::type_id_spec() })) by {
                    assert(Self::sig_spec()[0] != TypeId { id: X::type_id_spec() });
                }
            } else {
                assert(Self::sig_spec()[0] == TypeId { id: X::type_id_spec() });
            }
        }
        r
    }
}

impl<A: ComponentTy, B: ComponentTy> QueryTy for (A, B) {
    open spec fn sig_spec() -> Seq<TypeId> {
        seq![TypeId { id: A::type_id_spec() }, TypeId { id: B::type_id_spec() }]
    }

    fn generate_sig() -> (r: Signature) {
        let mut v: Vec<TypeId> = Vec::new();
        v.push(A::get_type_id());
        v.push(B::get_type_id());
        assert(v@ =~= Self::sig_spec());
        Signature::from(v)
    }

    fn contains<X: ComponentTy>() -> (r: bool) {
        let q = X::get_type_id().id;
        let r = q == A::get_type_id().id || q == B::get_type_id().id;
        proof {
            let s = Self::sig_spec();
            let t = TypeId { id: X::type_id_spec() };
            if r {
                if q == A::type_id_spec() {
                    assert(s[0] == t);
                } else {
                    assert(s[1] == t);
                }
            } else {
                assert forall|i: int| 0 <= i < s.len() implies s[i] != t by {}
            }
        }
        r
    }
}

impl<A: ComponentTy, B: ComponentTy, C: ComponentTy> QueryTy for (A, B, C) {
    open spec fn sig_spec() -> Seq<TypeId> {
        seq![
            TypeId { id: A::type_id_spec() },
            TypeId { id: B::type_id_spec() },
            TypeId { id: C::type_id_spec() },
        ]
    }

    fn generate_sig() -> (r: Signature) {
        let mut v: Vec<TypeId> = Vec::new();
        v.push(A::get_type_id());
        v.push(B::get_type_id());
        v.push(C::get_type_id());
        assert(v@ =~= Self::sig_spec());
        Signature::from(v)
    }

    fn contains<X: ComponentTy>() -> (r: bool) {
        let q = X::get_type_id().id;
        let r = q == A::get_type_id().id || q == B::get_type_id().id || q == C::get_type_id().id;
        proof {
            let s = Self::sig_spec();
            let t = TypeId { id: X::type_id_spec() };
            if r {
                if q == A::type_id_spec() {
                    assert(s[0] == t);
                } else if q == B::type_id_spec() {
                    assert(s[1] == t);
                } else {
                    assert(s[2] == t);
                }
            } else {
                assert forall|i: int| 0 <= i < s.len() implies s[i] != t by {}
            }
        }
        r
    }
}

/// Access to the components of one entity, for a predicate of a query.
pub struct QueryFetch<'em, T: QueryTy> {
    phantom: std::marker::PhantomData<T>,
    entity_id: Id,
    entman_ref: &'em Entman,
}

impl<'em, T: QueryTy> QueryFetch<'em, T> {
    pub closed spec fn spec_entity(self) -> Id {
        self.entity_id
    }

    pub closed spec fn spec_entman(self) -> Entman {
        *self.entman_ref
    }

    /// The fetch of `entity_id` from `entman_ref`.
    pub closed spec fn spec_new(entity_id: Id, entman_ref: &'em Entman) -> Self {
        QueryFetch { phantom: std::marker::PhantomData, entity_id, entman_ref }
    }

    pub fn new(entity_id: Id, entman_ref: &'em Entman) -> (r: Self)
        ensures
            r == Self::spec_new(entity_id, entman_ref),
            r.spec_entity() == entity_id,
            r.spec_entman() == *entman_ref,
    {
        QueryFetch { phantom: std::marker::PhantomData, entity_id, entman_ref }
    }

    pub fn get_entity_id(&self) -> (r: Id)
        ensures
            r == self.spec_entity(),
    {
        self.entity_id
    }

    /// The component of type `C` of the entity, where `C` is among the
    /// queried types.
    pub fn get_component<C: ComponentTyReqs>(&self) -> (r: Result<&'em Component<C>, EcsError>)
        requires
            self.spec_entman().wf(),
        ensures
            ({
                let tid = C::type_id_spec();
                let s = self.spec_entman().spec_storage();
                let e = self.spec_entity();
                match r {
                    Ok(c) => T::sig_spec().contains(TypeId { id: tid }) && s.records_of(tid).contains_key(e)
                        && c.record() == s.records_of(tid)[e],
                    Err(err) => if !T::sig_spec().contains(TypeId { id: tid }) {
                        err == EcsError::ComponentNotInQuery(TypeId { id: tid })
                    } else if !s.spec_bins().contains_key(tid) {
                        err == EcsError::NoStoreForType(TypeId { id: tid })
                    } else {
                        !s.records_of(tid).contains_key(e) && err == EcsError::EntityLacksComponent(
                            TypeId { id: tid },
                        )
                    },
                }
            }),
    {
        if T::contains::<C>() {
            self.entman_ref.get_component_ref::<C>(self.entity_id)
        } else {
            Err(EcsError::ComponentNotInQuery(C::get_type_id()))
        }
    }
}

/// A predicate on the entities a query finds.
pub trait PredicateTy<'em, Q: QueryTy> {
    /// Whether `check` may be called on `fetch`.
    spec fn admits(&self, fetch: QueryFetch<'em, Q>) -> bool;

    /// Whether `r` is an answer that `check` may give on `fetch`.
    spec fn answers(&self, fetch: QueryFetch<'em, Q>, r: bool) -> bool;

    /// Whether the entity of `fetch` is accepted.
    fn check(&self, fetch: QueryFetch<'em, Q>) -> (r: bool)
        requires
            self.admits(fetch),
        ensures
            self.answers(fetch, r),
    ;
}

/// The predicate that holds of every entity.
pub struct NullPredicate<T> {
    _marker: std::marker::PhantomData<T>,
}

impl<T> NullPredicate<T> {
    pub fn new() -> (r: Self) {
        NullPredicate { _marker: std::marker::PhantomData }
    }
}

impl<'em, Q: QueryTy> PredicateTy<'em, Q> for NullPredicate<Q> {
    open spec fn admits(&self, fetch: QueryFetch<'em, Q>) -> bool {
        true
    }

    /// Every entity is accepted.
    open spec fn answers(&self, fetch: QueryFetch<'em, Q>, r: bool) -> bool {
        r
    }

    fn check(&self, fetch: QueryFetch<'em, Q>) -> (r: bool) {
        true
    }
}

impl<'em, Q: QueryTy, F: Fn(QueryFetch<'em, Q>) -> bool> PredicateTy<'em, Q> for F {
    open spec fn admits(&self, fetch: QueryFetch<'em, Q>) -> bool {
        call_requires(*self, (fetch,))
    }

    /// What the closure may return on `fetch`.
    open spec fn answers(&self, fetch: QueryFetch<'em, Q>, r: bool) -> bool {
        call_ensures(*self, (fetch,), r)
    }

    fn check(&self, fetch: QueryFetch<'em, Q>) -> (r: bool) {
        self(fetch)
    }
}

/// A query of the entities whose component types are those of `T`, and which
/// the predicate accepts.
pub struct Query<'em, T: QueryTy, P: PredicateTy<'em, T> = NullPredicate<T>> {
    phantom: std::marker::PhantomData<&'em T>,
    predicate: P,
    matching_entities: Option<Vec<Id>>,
}

impl<'em, T: QueryTy, P: PredicateTy<'em, T>> Query<'em, T, P> {
    pub closed spec fn spec_predicate(self) -> P {
        self.predicate
    }

    /// The entities the query has matched so far; none before it is run.
    pub closed spec fn spec_matching(self) -> Option<Seq<Id>> {
        match self.matching_entities {
            Some(v) => Some(v@),
            None => None,
        }
    }

    pub fn from_pred(p: P) -> (r: Self)
        ensures
            r.spec_predicate() == p,
            r.spec_matching() is None,
    {
        Query { phantom: std::marker::PhantomData, predicate: p, matching_entities: None }
    }

    /// The signature the query looks for.
    pub fn get_query_sig() -> (r: Signature)
        ensures
            r@ == T::sig_spec(),
    {
        T::generate_sig()
    }

    pub fn predicate(&self) -> (r: &P)
        ensures
            *r == self.spec_predicate(),
    {
        &self.predicate
    }
}

impl<'em, T: QueryTy> Query<'em, T, NullPredicate<T>> {
    /// A query that accepts every entity it finds and has matched none yet.
    pub fn new() -> (r: Self)
        ensures
            r.spec_matching() is None,
    {
        Query { phantom: std::marker::PhantomData, predicate: NullPredicate::new(), matching_entities: None }
    }
}

/// The map from `ids[i]` to `vals[i]` for the first `n` pairs, a later
/// pair replacing an earlier one of the same identifier.
pub open spec fn zip_map<V>(ids: Seq<Id>, vals: Seq<V>, n: nat) -> Map<Id, V>
    decreases n,
{
    if n == 0 {
        Map::empty()
    } else {
        zip_map(ids, vals, (n - 1) as nat).insert(ids[n - 1], vals[n - 1])
    }
}

/// The smaller of two lengths.
pub open spec fn min_len(a: nat, b: nat) -> nat {
    if a <= b {
        a
    } else {
        b
    }
}

/// A sequence of identifiers in increasing order by `Ord` is strictly
/// increasing.
proof fn lemma_increasing_ids(ks: Seq<Id>)
    requires
        increasing_seq(ks),
    ensures
        forall|i: int, j: int| 0 <= i < j < ks.len() ==> ks[i] < ks[j],
{
    assert forall|i: int, j: int| 0 <= i < j < ks.len() implies ks[i] < ks[j] by {
        assert(ks[i].cmp_spec(&ks[j]) is Less);
    }
}

/// The entities a query found, each with its components in the order of the
/// queried types.
pub struct QueryResult<'a, Q: QueryTy> {
    query: std::marker::PhantomData<Q>,
    matches: BTreeMap<Id, Vec<ComponentRef<'a>>>,
}

impl<'a, Q: QueryTy> QueryResult<'a, Q> {
    pub closed spec fn spec_matches(self) -> Map<Id, Vec<ComponentRef<'a>>> {
        self.matches@
    }

    /// Pairs each identifier with the components at the same position; a
    /// later pair replaces an earlier one of the same identifier, and what
    /// has no partner is left out.
    pub fn new(ids: Vec<Id>, comps: Vec<Vec<ComponentRef<'a>>>) -> (r: Self)
        ensures
            r.spec_matches() == zip_map(ids@, comps@, min_len(ids@.len(), comps@.len())),
    {
        let mut matches: BTreeMap<Id, Vec<ComponentRef<'a>>> = BTreeMap::new();
        let ghost all = comps@;
        let mut rest = comps;
        let mut i: usize = 0;
        while i < ids.len() && rest.len() > 0
            invariant
                i <= ids@.len(),
                i + rest@.len() == all.len(),
                rest@ == all.skip(i as int),
                matches@ == zip_map(ids@, all, i as nat),
            decreases rest@.len(),
        {
            let c = rest.remove(0);
            assert(c == all[i as int]);
            matches.insert(ids[i], c);
            assert(rest@ =~= all.skip(i + 1));
            i = i + 1;
        }
        QueryResult { query: std::marker::PhantomData, matches }
    }

    /// The entities found and their components, by increasing identifier.
    pub fn iter(&self) -> (r: Vec<(Id, &Vec<ComponentRef<'a>>)>)
        ensures
            r@.len() == self.spec_matches().len(),
            forall|i: int| 0 <= i < r@.len() ==> #[trigger] self.spec_matches().contains_key(r@[i].0)
                && *r@[i].1 == self.spec_matches()[r@[i].0],
            forall|i: int, j: int| 0 <= i < j < r@.len() ==> r@[i].0 < r@[j].0,
    {
        let mut r: Vec<(Id, &Vec<ComponentRef<'a>>)> = Vec::new();
        let ghost items = spec_btree_map_iter(&self.matches).remaining();
        for (k, v) in it: self.matches.iter()
            invariant
                r@ == it.seq().take(it.index() as int).map_values(
                    |p: (&Id, &Vec<ComponentRef<'a>>)| (*p.0, p.1),
                ),
                it.seq() == items,
        {
            r.push((*k, v));
        }
        assert(r@ =~= items.map_values(|p: (&Id, &Vec<ComponentRef<'a>>)| (*p.0, p.1)));
        proof {
            let ks = items.map_values(|kv: (&Id, &Vec<ComponentRef<'a>>)| *kv.0);
            assert(increasing_seq(ks));
            lemma_increasing_ids(ks);
            assert forall|i: int, j: int| 0 <= i < j < r@.len() implies r@[i].0 < r@[j].0 by {
                assert(ks[i] < ks[j]);
            }
        }
        r
    }

    /// The component of type `T` of entity `ent`, where `T` is among the
    /// queried types: the first of that type among the entity's components.
    pub fn get_component<T: ComponentTy>(&self, ent: Id) -> (r: Result<&T, EcsError>)
        requires
            Q::sig_spec().contains(TypeId { id: T::type_id_spec() }) ==> {
                &&& self.spec_matches().contains_key(ent)
                &&& exists|i: int| 0 <= i < self.spec_matches()[ent]@.len()
                    && (#[trigger] self.spec_matches()[ent]@[i]).graph().kind() == T::kind_spec()
            },
        ensures
            match r {
                Ok(t) => Q::sig_spec().contains(TypeId { id: T::type_id_spec() }) && exists|i: int|
                    0 <= i < self.spec_matches()[ent]@.len() && (#[trigger] self.spec_matches()[ent]@[i]).graph()
                        == t.graph_spec() && forall|j: int| 0 <= j < i ==> (#[trigger] self.spec_matches()[ent]@[j]).graph().kind() != T::kind_spec(),
                Err(e) => !Q::sig_spec().contains(TypeId { id: T::type_id_spec() }) && e
                    == EcsError::ComponentNotInQuery(TypeId { id: T::type_id_spec() }),
            },
    {
        proof {
            T::lemma_component_kind();
        }
        if !Q::contains::<T>() {
            return Err(EcsError::ComponentNotInQuery(T::get_type_id()));
        }
        let comps = self.matches.get(&ent).unwrap();
        let tid = T::get_type_id();
        let mut i: usize = 0;
        while i < comps.len()
            invariant
                *comps == self.spec_matches()[ent],
                tid.id == T::type_id_spec(),
                Q::sig_spec().contains(TypeId { id: T::type_id_spec() }),
                0 <= i <= comps@.len(),
                forall|j: int| 0 <= j < i ==> (#[trigger] comps@[j]).graph().kind() != T::kind_spec(),
                exists|k: int| i <= k < comps@.len() && (#[trigger] comps@[k]).graph().kind() == T::kind_spec(),
            decreases comps@.len() - i,
        {
            let c = comps[i];
            proof {
                T::lemma_component_kind();
                crate::nvcore::ecs::storage::lemma_type_id_injective(c.graph().kind(), T::kind_spec());
            }
            if c.get_component_type_id().id == tid.id {
                let t = T::from_component_ref(c).unwrap();
                return Ok(t);
            }
            i = i + 1;
        }
        proof {
            assert(false);
        }
        Err(EcsError::ComponentNotInQuery(tid))
    }
}

/// A type that runs logic on the result of a query.
pub struct SystemTy {}

} // verus!
