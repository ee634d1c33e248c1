//! The kernel: projects, manuscripts and the entity component system.
pub mod ecs;
pub mod khronos;
pub mod map;
pub mod binary_storage;
pub mod action;
pub mod registry;
pub mod text_edit;
pub mod mir;

use vstd::prelude::*;
use std::collections::HashMap;
use vstd::std_specs::hash::*;
use vstd::std_specs::iter::IteratorSpec;
use vstd::string::*;
use crate::common::gen_128;
use crate::common::maps::{hash_map_get_mut, keys_of};
use crate::common::text::{decimal, push_decimal};
use crate::nvcore::ecs::Id;

verus! {

broadcast use vstd::std_specs::hash::group_hash_axioms;

/// An event: a mostly singular point in the narrative with a well defined
/// time and place.
#[derive(Debug, Clone)]
pub struct Event {
    id: u128,
    pub name: String,
    pub location: String,
    pub description: String,
    involved_entities: Vec<u128>,
}

impl Event {
    pub closed spec fn spec_id(self) -> Id {
        self.id
    }

    pub closed spec fn spec_name(self) -> Seq<char> {
        self.name@
    }

    pub closed spec fn spec_location(self) -> Seq<char> {
        self.location@
    }

    pub closed spec fn spec_description(self) -> Seq<char> {
        self.description@
    }

    pub closed spec fn spec_involved(self) -> Seq<Id> {
        self.involved_entities@
    }

    /// An event with a random identifier and no involved entities.
    pub fn new(name: String, location: String, description: String) -> (r: Self)
        ensures
            r.spec_name() == name@,
            r.spec_location() == location@,
            r.spec_description() == description@,
            r.spec_involved() == Seq::<Id>::empty(),
    {
        Event { id: gen_128(), name, location, description, involved_entities: Vec::new() }
    }

    /// An event with the given identifier and involved entities, as it was
    /// stored.
    pub fn from_parts(id: Id, name: String, location: String, description: String, involved: Vec<Id>) -> (r: Self)
        ensures
            r.spec_id() == id,
            r.spec_name() == name@,
            r.spec_location() == location@,
            r.spec_description() == description@,
            r.spec_involved() == involved@,
    {
        Event { id, name, location, description, involved_entities: involved }
    }

    pub fn get_id(&self) -> (r: Id)
        ensures
            r == self.spec_id(),
    {
        self.id
    }

    pub fn get_involved_entities(&self) -> (r: &Vec<Id>)
        ensures
            r@ == self.spec_involved(),
    {
        &self.involved_entities
    }
}

/// A series of events that involve many entities.
pub struct WorldArc {
    id: Id,
    pub name: String,
    pub description: String,
    pub events: Vec<Event>,
}

impl WorldArc {
    pub closed spec fn spec_id(self) -> Id {
        self.id
    }

    pub closed spec fn spec_name(self) -> Seq<char> {
        self.name@
    }

    pub closed spec fn spec_description(self) -> Seq<char> {
        self.description@
    }

    pub closed spec fn spec_events(self) -> Seq<Event> {
        self.events@
    }

    /// An arc with a random identifier and no events.
    pub fn new(name: String, description: String) -> (r: Self)
        ensures
            r.spec_name() == name@,
            r.spec_description() == description@,
            r.spec_events().len() == 0,
    {
        WorldArc { id: gen_128(), name, description, events: Vec::new() }
    }

    pub fn get_id(&self) -> (r: Id)
        ensures
            r == self.spec_id(),
    {
        self.id
    }
}

/// A timeline of the narrative.
pub struct Timeline {}

/// An arc of the narrative.
pub struct Arc {}

/// A scene of the narrative.
pub struct Scene {
    pub id: Id,
    pub name: String,
    pub description: String,
}

/// A part of a manuscript: a text with a place in the manuscript's order.
pub struct Progression {
    id: Id,
    name: String,
    description: String,
    involved_entities: Vec<Id>,
    text: String,
    ordering: u32,
}

impl Progression {
    pub closed spec fn spec_id(self) -> Id {
        self.id
    }

    pub closed spec fn spec_name(self) -> Seq<char> {
        self.name@
    }

    pub closed spec fn spec_description(self) -> Seq<char> {
        self.description@
    }

    pub closed spec fn spec_involved(self) -> Seq<Id> {
        self.involved_entities@
    }

    pub closed spec fn spec_text(self) -> Seq<char> {
        self.text@
    }

    pub closed spec fn spec_ordering(self) -> u32 {
        self.ordering
    }

    /// A progression with a random identifier and no involved entities.
    pub fn new(name: String, description: String, text: String, ordering: u32) -> (r: Self)
        ensures
            r.spec_name() == name@,
            r.spec_description() == description@,
            r.spec_text() == text@,
            r.spec_ordering() == ordering,
            r.spec_involved() == Seq::<Id>::empty(),
    {
        Progression {
            id: gen_128(),
            name,
            description,
            involved_entities: Vec::new(),
            text,
            ordering,
        }
    }

    pub fn add_involved_entity(&mut self, entity: Id)
        ensures
            final(self).spec_involved() == old(self).spec_involved().push(entity),
            final(self).spec_id() == old(self).spec_id(),
            final(self).spec_name() == old(self).spec_name(),
            final(self).spec_description() == old(self).spec_description(),
            final(self).spec_text() == old(self).spec_text(),
            final(self).spec_ordering() == old(self).spec_ordering(),
    {
        self.involved_entities.push(entity);
    }

    pub fn get_id(&self) -> (r: Id)
        ensures
            r == self.spec_id(),
    {
        self.id
    }

    pub fn get_name(&self) -> (r: &str)
        ensures
            r@ == self.spec_name(),
    {
        self.name.as_str()
    }

    pub fn get_description(&self) -> (r: &str)
        ensures
            r@ == self.spec_description(),
    {
        self.description.as_str()
    }

    pub fn get_text(&self) -> (r: &str)
        ensures
            r@ == self.spec_text(),
    {
        self.text.as_str()
    }

    pub fn get_ordering(&self) -> (r: u32)
        ensures
            r == self.spec_ordering(),
    {
        self.ordering
    }

    pub fn get_involved_entities(&self) -> (r: &Vec<Id>)
        ensures
            r@ == self.spec_involved(),
    {
        &self.involved_entities
    }
}

/// The message of the error of adding a progression whose ordering is taken.
pub open spec fn duplicate_ordering_message(ordering: u32) -> Seq<char> {
    "Manuscript already has a progression with ordering "@ + decimal(ordering as nat)
}

/// The progressions of `m` are kept under their identifiers, and no two of
/// them have the same ordering.
pub open spec fn progressions_ok(m: Map<Id, Progression>) -> bool {
    &&& forall|k: Id| #[trigger] m.contains_key(k) ==> m[k].spec_id() == k
    &&& forall|a: Id, b: Id|
        #[trigger] m.contains_key(a) && #[trigger] m.contains_key(b) && a != b ==> m[a].spec_ordering()
            != m[b].spec_ordering()
}

/// Whether a progression of `m` has the ordering `o`.
pub open spec fn has_ordering(m: Map<Id, Progression>, o: u32) -> bool {
    exists|k: Id| #[trigger] m.contains_key(k) && m[k].spec_ordering() == o
}

/// Some progression among the first `n` of `s` has the identifier of `p`.
pub open spec fn exists_in_prefix(p: &Progression, s: Seq<&Progression>, n: int) -> bool {
    exists|b: int| 0 <= b < n && p.spec_id() == #[trigger] s[b].spec_id()
}

/// The progressions in order are the progressions in the order the map is
/// walked, rearranged: where `all` holds each progression of `m` once (as
/// [`Manuscript::get_all_progressions`] gives them) and `r` holds them by
/// increasing ordering (as [`Manuscript::get_ordered_progressions`] gives
/// them), the two are as long, and hold the same progressions, each once.
pub proof fn law_ordered_progressions_permute(m: Map<Id, Progression>, all: Seq<&Progression>, r: Seq<&Progression>, ks: Seq<Id>)
    requires
        progressions_ok(m),
        ks.no_duplicates(),
        ks.to_set() == m.dom(),
        ks.len() == all.len(),
        forall|i: int| 0 <= i < ks.len() ==> *all[i] == m[#[trigger] ks[i]],
        r.len() == m.len(),
        forall|i: int| 0 <= i < r.len() ==> #[trigger] m.contains_key(r[i].spec_id()) && m[r[i].spec_id()] == *r[i],
        forall|id: Id| #[trigger] m.contains_key(id) ==> holds_id(r, id),
        forall|i: int, j: int| 0 <= i < j < r.len() ==> r[i].spec_id() != r[j].spec_id(),
    ensures
        all.len() == r.len(),
        forall|i: int, j: int| 0 <= i < j < all.len() ==> all[i] != all[j],
        forall|i: int, j: int| 0 <= i < j < r.len() ==> r[i] != r[j],
        forall|p: &Progression| all.contains(p) <==> r.contains(p),
{
    ks.unique_seq_to_set();
    assert forall|i: int| 0 <= i < all.len() implies all[i].spec_id() == ks[i] by {
        assert(ks.to_set().contains(ks[i]));
    }
    assert forall|p: &Progression| all.contains(p) implies r.contains(p) by {
        let i = choose|i: int| 0 <= i < all.len() && all[i] == p;
        assert(ks.to_set().contains(ks[i]));
        assert(holds_id(r, ks[i]));
        let b = choose|b: int| 0 <= b < r.len() && #[trigger] r[b].spec_id() == ks[i];
        assert(r[b] == p);
    }
    assert forall|p: &Progression| r.contains(p) implies all.contains(p) by {
        let b = choose|b: int| 0 <= b < r.len() && r[b] == p;
        assert(m.contains_key(r[b].spec_id()));
        assert(ks.to_set().contains(r[b].spec_id()));
        let i = choose|i: int| 0 <= i < ks.len() && ks[i] == r[b].spec_id();
        assert(all[i] == p);
    }
    assert forall|i: int, j: int| 0 <= i < j < all.len() implies all[i] != all[j] by {
        assert(all[i].spec_id() == ks[i]);
        assert(all[j].spec_id() == ks[j]);
    }
}

/// Some progression of `s` has the identifier `id`.
pub open spec fn holds_id(s: Seq<&Progression>, id: Id) -> bool {
    exists|b: int| 0 <= b < s.len() && #[trigger] s[b].spec_id() == id
}

/// A manuscript: a collection of progressions, at most one per ordering.
pub struct Manuscript {
    id: Id,
    name: String,
    description: String,
    progressions: HashMap<Id, Progression>,
}

impl Manuscript {
    pub closed spec fn spec_id(self) -> Id {
        self.id
    }

    pub closed spec fn spec_name(self) -> Seq<char> {
        self.name@
    }

    pub closed spec fn spec_description(self) -> Seq<char> {
        self.description@
    }

    /// The progressions, by identifier.
    pub closed spec fn spec_progressions(self) -> Map<Id, Progression> {
        self.progressions@
    }

    pub open spec fn wf(self) -> bool {
        progressions_ok(self.spec_progressions())
    }

    /// A manuscript with a random identifier and no progressions.
    pub fn new(name: String, description: String) -> (r: Self)
        ensures
            r.wf(),
            r.spec_name() == name@,
            r.spec_description() == description@,
            r.spec_progressions() == Map::<Id, Progression>::empty(),
    {
        Manuscript { id: gen_128(), name, description, progressions: HashMap::new() }
    }

    pub fn get_id(&self) -> (r: Id)
        ensures
            r == self.spec_id(),
    {
        self.id
    }

    pub fn get_name(&self) -> (r: &str)
        ensures
            r@ == self.spec_name(),
    {
        self.name.as_str()
    }

    /// Adds the progression, under its identifier; an error, and no change,
    /// where a progression has its ordering already.
    pub fn add_progression(&mut self, progression: Progression) -> (r: Result<(), String>)
        requires
            old(self).wf(),
        ensures
            final(self).wf(),
            final(self).spec_id() == old(self).spec_id(),
            match r {
                Ok(()) => !has_ordering(old(self).spec_progressions(), progression.spec_ordering())
                    && final(self).spec_progressions() == old(self).spec_progressions().insert(
                    progression.spec_id(),
                    progression,
                ),
                Err(msg) => has_ordering(old(self).spec_progressions(), progression.spec_ordering())
                    && final(self).spec_progressions() == old(self).spec_progressions() && msg@
                    == duplicate_ordering_message(progression.spec_ordering()),
            },
    {
        let keys = keys_of(&self.progressions);
        let mut i: usize = 0;
        while i < keys.len()
            invariant
                self.wf(),
                keys@.to_set() == self.progressions@.dom(),
                0 <= i <= keys@.len(),
                forall|j: int| 0 <= j < i ==> self.progressions@[#[trigger] keys@[j]].spec_ordering()
                    != progression.spec_ordering(),
            decreases keys@.len() - i,
        {
            assert(keys@.to_set().contains(keys@[i as int]));
            let p = self.progressions.get(&keys[i]).unwrap();
            if p.ordering == progression.ordering {
                let mut msg = String::from_str("Manuscript already has a progression with ordering ");
                push_decimal(&mut msg, progression.ordering);
                return Err(msg);
            }
            i = i + 1;
        }
        proof {
            assert forall|k: Id| #[trigger] self.progressions@.contains_key(k) implies self.progressions@[k].spec_ordering()
                != progression.spec_ordering() by {
                assert(keys@.to_set().contains(k));
                let j = choose|j: int| 0 <= j < keys@.len() && keys@[j] == k;
                assert(self.progressions@[keys@[j]].spec_ordering() != progression.spec_ordering());
            }
        }
        let id = progression.id;
        self.progressions.insert(id, progression);
        proof {
            let m = self.progressions@;
            assert forall|a: Id, b: Id|
                #[trigger] m.contains_key(a) && #[trigger] m.contains_key(b) && a != b implies m[a].spec_ordering()
                    != m[b].spec_ordering() by {
                if a != id && b != id {
                    assert(old(self).spec_progressions().contains_key(a));
                    assert(old(self).spec_progressions().contains_key(b));
                } else if a == id {
                    assert(old(self).spec_progressions().contains_key(b));
                } else {
                    assert(old(self).spec_progressions().contains_key(a));
                }
            }
            assert forall|k: Id| #[trigger] m.contains_key(k) implies m[k].spec_id() == k by {
                if k != id {
                    assert(old(self).spec_progressions().contains_key(k));
                }
            }
        }
        Ok(())
    }

    pub fn get_progression(&self, progression_id: Id) -> (r: Option<&Progression>)
        ensures
            match r {
                Some(p) => self.spec_progressions().contains_key(progression_id) && *p
                    == self.spec_progressions()[progression_id],
                None => !self.spec_progressions().contains_key(progression_id),
            },
    {
        self.progressions.get(&progression_id)
    }

    /// A mutable reference to a progression; the manuscript stays well formed
    /// where the progression keeps its identifier and ordering.
    pub fn get_progression_mut(&mut self, progression_id: Id) -> (r: Option<&mut Progression>)
        requires
            old(self).wf(),
        ensures
            final(self).spec_id() == old(self).spec_id(),
            match r {
                Some(p) => {
                    &&& old(self).spec_progressions().contains_key(progression_id)
                    &&& *p == old(self).spec_progressions()[progression_id]
                    &&& final(self).spec_progressions() == old(self).spec_progressions().insert(
                        progression_id,
                        *final(p),
                    )
                    &&& (final(p).spec_id() == progression_id && final(p).spec_ordering()
                        == old(self).spec_progressions()[progression_id].spec_ordering())
                        ==> final(self).wf()
                },
                None => {
                    &&& !old(self).spec_progressions().contains_key(progression_id)
                    &&& final(self).spec_progressions() == old(self).spec_progressions()
                    &&& final(self).wf()
                },
            },
    {
        proof {
            let m = old(self).spec_progressions();
            assert forall|p: Progression|
                #![trigger m.insert(progression_id, p)]
                m.contains_key(progression_id) && p.spec_id() == progression_id && p.spec_ordering()
                    == m[progression_id].spec_ordering() implies progressions_ok(m.insert(progression_id, p)) by {
                let m2 = m.insert(progression_id, p);
                assert forall|a: Id, b: Id|
                    #[trigger] m2.contains_key(a) && #[trigger] m2.contains_key(b) && a != b implies m2[a].spec_ordering()
                        != m2[b].spec_ordering() by {
                    assert(m.contains_key(a) && m.contains_key(b));
                }
                assert forall|k: Id| #[trigger] m2.contains_key(k) implies m2[k].spec_id() == k by {
                    assert(m.contains_key(k));
                }
            }
        }
        hash_map_get_mut(&mut self.progressions, &progression_id)
    }

    /// Removes the progression and hands it back, if there is one.
    pub fn remove_progression(&mut self, progression_id: Id) -> (r: Option<Progression>)
        requires
            old(self).wf(),
        ensures
            final(self).wf(),
            final(self).spec_id() == old(self).spec_id(),
            final(self).spec_progressions() == old(self).spec_progressions().remove(progression_id),
            match r {
                Some(p) => old(self).spec_progressions().contains_key(progression_id) && p
                    == old(self).spec_progressions()[progression_id],
                None => !old(self).spec_progressions().contains_key(progression_id),
            },
    {
        let r = self.progressions.remove(&progression_id);
        proof {
            let m = self.progressions@;
            assert forall|a: Id, b: Id|
                #[trigger] m.contains_key(a) && #[trigger] m.contains_key(b) && a != b implies m[a].spec_ordering()
                    != m[b].spec_ordering() by {
                assert(old(self).spec_progressions().contains_key(a));
                assert(old(self).spec_progressions().contains_key(b));
            }
            assert forall|k: Id| #[trigger] m.contains_key(k) implies m[k].spec_id() == k by {
                assert(old(self).spec_progressions().contains_key(k));
            }
        }
        r
    }

    /// All progressions, each once, in the order the map is walked.
    pub fn get_all_progressions(&self) -> (r: Vec<&Progression>)
        ensures
            r@.len() == self.spec_progressions().len(),
            exists|ks: Seq<Id>|
                {
                    &&& ks.no_duplicates()
                    &&& ks.to_set() == self.spec_progressions().dom()
                    &&& ks.len() == r@.len()
                    &&& forall|i: int| 0 <= i < ks.len() ==> *r@[i] == self.spec_progressions()[#[trigger] ks[i]]
                },
    {
        let keys = keys_of(&self.progressions);
        let mut r: Vec<&Progression> = Vec::new();
        let mut i: usize = 0;
        while i < keys.len()
            invariant
                keys@.to_set() == self.progressions@.dom(),
                0 <= i <= keys@.len(),
                r@.len() == i,
                forall|j: int| 0 <= j < i ==> *r@[j] == self.progressions@[#[trigger] keys@[j]],
            decreases keys@.len() - i,
        {
            assert(keys@.to_set().contains(keys@[i as int]));
            r.push(self.progressions.get(&keys[i]).unwrap());
            i = i + 1;
        }
        proof {
            keys@.unique_seq_to_set();
        }
        r
    }

    /// All progressions, by increasing ordering.
    pub fn get_ordered_progressions(&self) -> (r: Vec<&Progression>)
        requires
            self.wf(),
        ensures
            r@.len() == self.spec_progressions().len(),
            forall|i: int| 0 <= i < r@.len() ==> #[trigger] self.spec_progressions().contains_key(r@[i].spec_id())
                && self.spec_progressions()[r@[i].spec_id()] == *r@[i],
            forall|i: int, j: int| 0 <= i < j < r@.len() ==> r@[i].spec_ordering() < r@[j].spec_ordering(),
            forall|id: Id| #[trigger] self.spec_progressions().contains_key(id) ==> holds_id(r@, id),
            forall|i: int, j: int| 0 <= i < j < r@.len() ==> r@[i].spec_id() != r@[j].spec_id(),
    {
        let all = self.get_all_progressions();
        let ghost m = self.spec_progressions();
        let mut sorted: Vec<&Progression> = Vec::new();
        let mut i: usize = 0;
        let ghost ks = choose|ks: Seq<Id>|
            {
                &&& ks.no_duplicates()
                &&& ks.to_set() == m.dom()
                &&& ks.len() == all@.len()
                &&& forall|i: int| 0 <= i < ks.len() ==> *all@[i] == m[#[trigger] ks[i]]
            };
        proof {
            assert forall|i: int| 0 <= i < all@.len() implies #[trigger] m.contains_key(all@[i].spec_id())
                && m[all@[i].spec_id()] == *all@[i] && all@[i].spec_id() == ks[i] by {
                assert(ks.to_set().contains(ks[i]));
            }
            assert forall|a: int, b: int| 0 <= a < b < all@.len() implies all@[a].spec_id() != all@[b].spec_id() by {
                assert(ks.to_set().contains(ks[a]));
                assert(ks.to_set().contains(ks[b]));
                assert(m.contains_key(ks[a]) && m.contains_key(ks[b]));
            }
        }
        while i < all.len()
            invariant
                progressions_ok(m),
                0 <= i <= all@.len(),
                forall|a: int| 0 <= a < all@.len() ==> #[trigger] m.contains_key(all@[a].spec_id())
                    && m[all@[a].spec_id()] == *all@[a],
                forall|a: int, b: int| 0 <= a < b < all@.len() ==> all@[a].spec_id() != all@[b].spec_id(),
                sorted@.len() == i,
                forall|a: int| 0 <= a < sorted@.len() ==> #[trigger] m.contains_key(sorted@[a].spec_id())
                    && m[sorted@[a].spec_id()] == *sorted@[a],
                forall|a: int, b: int| 0 <= a < b < sorted@.len() ==> sorted@[a].spec_ordering()
                    < sorted@[b].spec_ordering(),
                forall|a: int| 0 <= a < sorted@.len() ==> #[trigger] exists_in_prefix(sorted@[a], all@, i as int),
                forall|a: int| 0 <= a < i ==> holds_id(sorted@, #[trigger] all@[a].spec_id()),
            decreases all@.len() - i,
        {
            let p = all[i];
            proof {
                assert(m.contains_key(all@[i as int].spec_id()) && m[all@[i as int].spec_id()] == *all@[i as int]);
            }
            // find the place of p
            let mut pos: usize = 0;
            while pos < sorted.len() && sorted[pos].ordering < p.ordering
                invariant
                    0 <= pos <= sorted@.len(),
                    m.contains_key(p.spec_id()) && m[p.spec_id()] == *p,
                    forall|a: int| 0 <= a < sorted@.len() ==> #[trigger] m.contains_key(sorted@[a].spec_id())
                        && m[sorted@[a].spec_id()] == *sorted@[a],
                    forall|a: int| 0 <= a < pos ==> sorted@[a].spec_ordering() < p.spec_ordering(),
                decreases sorted@.len() - pos,
            {
                pos = pos + 1;
            }
            proof {
                // p's ordering differs from every ordering in sorted
                assert forall|a: int| 0 <= a < sorted@.len() implies sorted@[a].spec_ordering() != p.spec_ordering() by {
                    assert(exists_in_prefix(sorted@[a], all@, i as int));
                    let b = choose|b: int| 0 <= b < i && sorted@[a].spec_id() == #[trigger] all@[b].spec_id();
                    assert(all@[b].spec_id() != all@[i as int].spec_id());
                    assert(m.contains_key(sorted@[a].spec_id()) && m.contains_key(p.spec_id()));
                }
                if pos < sorted@.len() {
                    assert(sorted@[pos as int].spec_ordering() >= p.spec_ordering());
                }
            }
            let ghost before = sorted@;
            sorted.insert(pos, p);
            proof {
                assert forall|a: int| 0 <= a < sorted@.len() implies #[trigger] m.contains_key(sorted@[a].spec_id())
                    && m[sorted@[a].spec_id()] == *sorted@[a] by {
                    if a < pos {
                        assert(sorted@[a] == before[a]);
                        assert(m.contains_key(before[a].spec_id()) && m[before[a].spec_id()] == *before[a]);
                    } else if a == pos {
                        assert(sorted@[a] == p);
                    } else {
                        assert(sorted@[a] == before[a - 1]);
                        assert(m.contains_key(before[a - 1].spec_id()) && m[before[a - 1].spec_id()] == *before[a - 1]);
                    }
                }
                assert forall|a: int| 0 <= a < sorted@.len() implies #[trigger] exists_in_prefix(sorted@[a], all@, i + 1) by {
                    if a < pos {
                        assert(sorted@[a] == before[a]);
                        assert(exists_in_prefix(before[a], all@, i as int));
                    } else if a == pos {
                        assert(sorted@[a].spec_id() == all@[i as int].spec_id());
                    } else {
                        assert(sorted@[a] == before[a - 1]);
                        assert(exists_in_prefix(before[a - 1], all@, i as int));
                    }
                }
                assert forall|a: int| 0 <= a < i + 1 implies holds_id(sorted@, #[trigger] all@[a].spec_id()) by {
                    if a < i {
                        assert(holds_id(before, all@[a].spec_id()));
                        let b = choose|b: int| 0 <= b < before.len() && #[trigger] before[b].spec_id() == all@[a].spec_id();
                        if b < pos {
                            assert(sorted@[b] == before[b]);
                        } else {
                            assert(sorted@[b + 1] == before[b]);
                        }
                    } else {
                        assert(sorted@[pos as int] == p);
                    }
                }
                assert forall|a: int, b: int| 0 <= a < b < sorted@.len() implies sorted@[a].spec_ordering()
                    < sorted@[b].spec_ordering() by {
                    if b < pos {
                    } else if a < pos && b == pos {
                    } else if a < pos && b > pos {
                        assert(sorted@[b] == before[b - 1]);
                        if pos < before.len() {
                            assert(before[pos as int].spec_ordering() >= p.spec_ordering());
                        }
                    } else if a == pos {
                        assert(sorted@[b] == before[b - 1]);
                        assert(before[b - 1].spec_ordering() != p.spec_ordering());
                        if b - 1 > pos {
                            assert(before[pos as int].spec_ordering() < before[b - 1].spec_ordering());
                        }
                    } else {
                        assert(sorted@[a] == before[a - 1]);
                        assert(sorted@[b] == before[b - 1]);
                    }
                }
            }
            i = i + 1;
        }
        proof {
            assert forall|id: Id| #[trigger] m.contains_key(id) implies holds_id(sorted@, id) by {
                assert(ks.to_set().contains(id));
                let a = choose|a: int| 0 <= a < ks.len() && ks[a] == id;
                assert(all@[a].spec_id() == ks[a]);
            }
            assert forall|i: int, j: int| 0 <= i < j < sorted@.len() implies sorted@[i].spec_id()
                != sorted@[j].spec_id() by {
                assert(sorted@[i].spec_ordering() < sorted@[j].spec_ordering());
                assert(m.contains_key(sorted@[i].spec_id()) && m.contains_key(sorted@[j].spec_id()));
            }
        }
        sorted
    }
}

/// A moment, as seconds and nanoseconds since the Unix epoch.
#[derive(Clone, Copy, Debug, PartialEq, Eq, Structural)]
pub struct Timestamp {
    pub secs: i64,
    pub nanos: u32,
}

/// `chrono::Utc::now` from the chrono crate: the current time, as seconds
/// and nanoseconds since the Unix epoch. The source measures it as a
/// duration since the epoch (it panics on a clock set before it, and on
/// one past the range of its dates), so the seconds are not negative and
/// the nanoseconds are those of a duration's fraction of a second. Which
/// moment it is, is not stated.
#[verifier::external_body]
fn utc_now() -> (r: Timestamp)
    ensures
        r.secs >= 0,
        r.nanos < 1_000_000_000,
{
    let t = chrono::Utc::now();
    Timestamp { secs: t.timestamp(), nanos: t.timestamp_subsec_nanos() }
}

/// When something was created and last modified.
#[derive(Clone, Copy, Debug)]
pub struct TimeMetaData {
    creation_date: Timestamp,
    last_modified_date: Timestamp,
}

impl TimeMetaData {
    pub closed spec fn spec_creation(self) -> Timestamp {
        self.creation_date
    }

    pub closed spec fn spec_last_modified(self) -> Timestamp {
        self.last_modified_date
    }

    /// Both dates are the current time: readings of the clock, each a
    /// moment at or after the Unix epoch.
    pub fn new() -> (r: Self)
        ensures
            r.spec_creation().secs >= 0,
            r.spec_creation().nanos < 1_000_000_000,
            r.spec_last_modified().secs >= 0,
            r.spec_last_modified().nanos < 1_000_000_000,
    {
        TimeMetaData { creation_date: utc_now(), last_modified_date: utc_now() }
    }

    /// The dates as given.
    pub fn from_dates(creation_date: Timestamp, last_modified_date: Timestamp) -> (r: Self)
        ensures
            r.spec_creation() == creation_date,
            r.spec_last_modified() == last_modified_date,
    {
        TimeMetaData { creation_date, last_modified_date }
    }

    pub fn get_creation_date(&self) -> (r: Timestamp)
        ensures
            r == self.spec_creation(),
    {
        self.creation_date
    }

    pub fn get_last_modified_date(&self) -> (r: Timestamp)
        ensures
            r == self.spec_last_modified(),
    {
        self.last_modified_date
    }

    pub fn set_last_modified_date(&mut self, date: Timestamp)
        ensures
            final(self).spec_last_modified() == date,
            final(self).spec_creation() == old(self).spec_creation(),
    {
        self.last_modified_date = date;
    }

    /// The values the encoding writes, in order: the whole seconds of the
    /// last modification, then those of the creation.
    pub fn encode(&self) -> (r: (i64, i64))
        ensures
            r == (self.spec_last_modified().secs, self.spec_creation().secs),
    {
        (self.last_modified_date.secs, self.creation_date.secs)
    }

    /// The dates the decoding reads from the values in order: the first is
    /// taken as the creation, the second as the last modification, each at
    /// a whole second.
    pub fn decode(first: i64, second: i64) -> (r: Self)
        ensures
            r.spec_creation() == (Timestamp { secs: first, nanos: 0 }),
            r.spec_last_modified() == (Timestamp { secs: second, nanos: 0 }),
    {
        TimeMetaData {
            creation_date: Timestamp { secs: first, nanos: 0 },
            last_modified_date: Timestamp { secs: second, nanos: 0 },
        }
    }
}

/// Decoding what encoding wrote reads the dates back swapped, at whole
/// seconds: the encoding writes the last modification first and the
/// decoding takes the first value as the creation. Where both dates fall
/// on the same second, the round trip keeps them.
pub proof fn law_time_meta_round_trip(t: TimeMetaData, e: (i64, i64), r: TimeMetaData)
    requires
        e == (t.spec_last_modified().secs, t.spec_creation().secs),
        r.spec_creation() == (Timestamp { secs: e.0, nanos: 0 }),
        r.spec_last_modified() == (Timestamp { secs: e.1, nanos: 0 }),
    ensures
        r.spec_creation().secs == t.spec_last_modified().secs,
        r.spec_last_modified().secs == t.spec_creation().secs,
        t.spec_creation().secs == t.spec_last_modified().secs ==> r.spec_creation().secs == t.spec_creation().secs
            && r.spec_last_modified().secs == t.spec_last_modified().secs,
{
}

/// A note the user made.
pub struct Note {
    id: Id,
    pub name: String,
    pub description: String,
    pub note: String,
    pub involved_entities: Vec<Id>,
    time_meta: TimeMetaData,
}

impl Note {
    pub closed spec fn spec_id(self) -> Id {
        self.id
    }

    pub closed spec fn spec_name(self) -> Seq<char> {
        self.name@
    }

    pub closed spec fn spec_description(self) -> Seq<char> {
        self.description@
    }

    pub closed spec fn spec_note(self) -> Seq<char> {
        self.note@
    }

    pub closed spec fn spec_involved(self) -> Seq<Id> {
        self.involved_entities@
    }

    /// A note with a random identifier, made now.
    pub fn new(name: String, description: String, note: String) -> (r: Self)
        ensures
            r.spec_name() == name@,
            r.spec_description() == description@,
            r.spec_note() == note@,
            r.spec_involved().len() == 0,
    {
        Note {
            id: gen_128(),
            name,
            description,
            note,
            involved_entities: Vec::new(),
            time_meta: TimeMetaData::new(),
        }
    }

    pub fn get_id(&self) -> (r: Id)
        ensures
            r == self.spec_id(),
    {
        self.id
    }
}

/// The author, description, name and version of a project.
pub struct ProjectMetaData {
    author: String,
    description: String,
    name: String,
    version: String,
    time_meta: TimeMetaData,
}

impl ProjectMetaData {
    pub closed spec fn spec_author(self) -> Seq<char> {
        self.author@
    }

    pub closed spec fn spec_description(self) -> Seq<char> {
        self.description@
    }

    pub closed spec fn spec_name(self) -> Seq<char> {
        self.name@
    }

    pub closed spec fn spec_version(self) -> Seq<char> {
        self.version@
    }

    /// The same metadata under the name `name`.
    pub fn set_name(&mut self, name: String)
        ensures
            final(self).spec_name() == name@,
            final(self).spec_author() == old(self).spec_author(),
            final(self).spec_description() == old(self).spec_description(),
            final(self).spec_version() == old(self).spec_version(),
    {
        self.name = name;
    }

    /// Empty texts, made now.
    pub fn new() -> (r: Self)
        ensures
            r.spec_author() == Seq::<char>::empty(),
            r.spec_description() == Seq::<char>::empty(),
            r.spec_name() == Seq::<char>::empty(),
            r.spec_version() == Seq::<char>::empty(),
    {
        ProjectMetaData {
            author: String::new(),
            description: String::new(),
            name: String::new(),
            version: String::new(),
            time_meta: TimeMetaData::new(),
        }
    }
}

/// A project: its manuscripts, scenes, arcs, timelines and notes.
pub struct Project {
    pub id: Id,
    pub project_meta_data: ProjectMetaData,
    pub description: String,
    pub manuscripts: HashMap<Id, Manuscript>,
    pub scenes: HashMap<Id, Scene>,
    pub arcs: HashMap<Id, WorldArc>,
    pub timelines: HashMap<Id, Timeline>,
    pub notes: HashMap<Id, Note>,
}

impl Project {
    /// A project with a random identifier, the given description and nothing
    /// in it.
    pub fn new(description: &str) -> (r: Self)
        ensures
            r.description@ == description@,
            r.manuscripts@ == Map::<Id, Manuscript>::empty(),
            r.scenes@ == Map::<Id, Scene>::empty(),
            r.arcs@ == Map::<Id, WorldArc>::empty(),
            r.timelines@ == Map::<Id, Timeline>::empty(),
            r.notes@ == Map::<Id, Note>::empty(),
    {
        Project {
            id: gen_128(),
            project_meta_data: ProjectMetaData::new(),
            description: String::from_str(description),
            manuscripts: HashMap::new(),
            scenes: HashMap::new(),
            arcs: HashMap::new(),
            timelines: HashMap::new(),
            notes: HashMap::new(),
        }
    }

    /// A project with a random identifier, no description and nothing in it.
    pub fn new_empty() -> (r: Self)
        ensures
            r.description@ == Seq::<char>::empty(),
            r.project_meta_data.spec_name() == Seq::<char>::empty(),
            r.project_meta_data.spec_author() == Seq::<char>::empty(),
            r.project_meta_data.spec_description() == Seq::<char>::empty(),
            r.project_meta_data.spec_version() == Seq::<char>::empty(),
            r.manuscripts@ == Map::<Id, Manuscript>::empty(),
            r.scenes@ == Map::<Id, Scene>::empty(),
            r.arcs@ == Map::<Id, WorldArc>::empty(),
            r.timelines@ == Map::<Id, Timeline>::empty(),
            r.notes@ == Map::<Id, Note>::empty(),
    {
        Project {
            id: gen_128(),
            project_meta_data: ProjectMetaData::new(),
            description: String::new(),
            manuscripts: HashMap::new(),
            scenes: HashMap::new(),
            arcs: HashMap::new(),
            timelines: HashMap::new(),
            notes: HashMap::new(),
        }
    }

    pub fn set_meta_data(&mut self, meta_data: ProjectMetaData)
        ensures
            final(self).project_meta_data == meta_data,
            final(self).id == old(self).id,
            final(self).manuscripts@ == old(self).manuscripts@,
    {
        self.project_meta_data = meta_data;
    }

    /// Adds the manuscript under its identifier, replacing one there.
    pub fn add_manuscript(&mut self, manuscript: Manuscript)
        ensures
            final(self).manuscripts@ == old(self).manuscripts@.insert(manuscript.spec_id(), manuscript),
            final(self).id == old(self).id,
    {
        let id = manuscript.id;
        self.manuscripts.insert(id, manuscript);
    }

    pub fn get_manuscript(&self, manuscript_id: Id) -> (r: Option<&Manuscript>)
        ensures
            match r {
                Some(m) => self.manuscripts@.contains_key(manuscript_id) && *m == self.manuscripts@[manuscript_id],
                None => !self.manuscripts@.contains_key(manuscript_id),
            },
    {
        self.manuscripts.get(&manuscript_id)
    }

    pub fn get_manuscript_mut(&mut self, manuscript_id: Id) -> (r: Option<&mut Manuscript>)
        ensures
            final(self).id == old(self).id,
            match r {
                Some(m) => {
                    &&& old(self).manuscripts@.contains_key(manuscript_id)
                    &&& *m == old(self).manuscripts@[manuscript_id]
                    &&& final(self).manuscripts@ == old(self).manuscripts@.insert(manuscript_id, *final(m))
                },
                None => {
                    &&& !old(self).manuscripts@.contains_key(manuscript_id)
                    &&& final(self).manuscripts@ == old(self).manuscripts@
                },
            },
    {
        hash_map_get_mut(&mut self.manuscripts, &manuscript_id)
    }

    pub fn remove_manuscript(&mut self, manuscript_id: Id) -> (r: Option<Manuscript>)
        ensures
            final(self).manuscripts@ == old(self).manuscripts@.remove(manuscript_id),
            match r {
                Some(m) => old(self).manuscripts@.contains_key(manuscript_id) && m == old(self).manuscripts@[manuscript_id],
                None => !old(self).manuscripts@.contains_key(manuscript_id),
            },
    {
        self.manuscripts.remove(&manuscript_id)
    }

    /// All manuscripts, each once, in the order the map is walked.
    pub fn get_all_manuscripts(&self) -> (r: Vec<&Manuscript>)
        ensures
            exists|ks: Seq<Id>|
                {
                    &&& ks.no_duplicates()
                    &&& ks.to_set() == self.manuscripts@.dom()
                    &&& ks.len() == r@.len()
                    &&& forall|i: int| 0 <= i < ks.len() ==> *r@[i] == self.manuscripts@[#[trigger] ks[i]]
                },
    {
        let keys = keys_of(&self.manuscripts);
        let mut r: Vec<&Manuscript> = Vec::new();
        let mut i: usize = 0;
        while i < keys.len()
            invariant
                keys@.to_set() == self.manuscripts@.dom(),
                0 <= i <= keys@.len(),
                r@.len() == i,
                forall|j: int| 0 <= j < i ==> *r@[j] == self.manuscripts@[#[trigger] keys@[j]],
            decreases keys@.len() - i,
        {
            assert(keys@.to_set().contains(keys@[i as int]));
            r.push(self.manuscripts.get(&keys[i]).unwrap());
            i = i + 1;
        }
        r
    }
}

} // verus!
