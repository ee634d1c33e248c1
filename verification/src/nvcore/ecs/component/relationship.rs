//! Relationships between entities.
use vstd::prelude::*;
use vstd::string::*;
use crate::nvcore::ecs::Id;
use petgraph::graph::Graph as PetGraph;

verus! {

/// Someone in the role of a parent.
#[derive(Debug, Clone, Copy, PartialEq, Eq, Structural)]
pub enum Parent {
    Mother,
    Father,
}

/// Someone in the role of a child.
#[derive(Debug, Clone, Copy, PartialEq, Eq, Structural)]
pub enum Child {
    Daughter,
    Son,
}

/// Someone in the role of a sibling.
#[derive(Debug, Clone, Copy, PartialEq, Eq, Structural)]
pub enum Sibling {
    Sister,
    Brother,
}

/// Someone in the role of a spouse.
#[derive(Debug, Clone, Copy, PartialEq, Eq, Structural)]
pub enum Spouse {
    Husband,
    Wife,
}

/// A relationship that the user names and describes.
#[derive(Debug, Clone)]
pub struct Custom {
    pub name: String,
    pub description: String,
}

/// The first part of an asymmetric relationship.
#[derive(Debug, Clone)]
pub enum Major {
    Parent(Parent),
    Custom(Custom),
}

/// The second part of an asymmetric relationship.
#[derive(Debug, Clone)]
pub enum Minor {
    Child(Child),
    Custom(Custom),
}

/// A relationship that is the same from both sides.
#[derive(Debug, Clone)]
pub enum Symmetric {
    Friend,
    Enemy,
    Sibling,
    Spouse,
    Custom(Custom),
}

impl Default for Symmetric {
    fn default() -> (r: Self)
        ensures
            r matches Symmetric::Friend,
    {
        Symmetric::Friend
    }
}

/// The kinds of relationship.
#[derive(Debug, Clone)]
pub enum ERelationship {
    MajorMinor(Major, Minor),
    Symmetric(Symmetric),
}

impl ERelationship {
    pub fn parent_child(parent: Parent, child: Child) -> (r: Self)
        ensures
            r matches ERelationship::MajorMinor(Major::Parent(p), Minor::Child(c)) && p == parent
                && c == child,
    {
        ERelationship::MajorMinor(Major::Parent(parent), Minor::Child(child))
    }
}

impl Default for ERelationship {
    fn default() -> (r: Self)
        ensures
            r matches ERelationship::Symmetric(Symmetric::Friend),
    {
        ERelationship::Symmetric(Symmetric::default())
    }
}

/// A named relationship between two entities.
#[derive(Debug)]
pub struct Relationship {
    pub relationship_name: String,
    pub relation: ERelationship,
    /// The entities the relationship is between.
    pairs: (Id, Id),
}

impl Relationship {
    /// The two entities, the major one first.
    pub closed spec fn spec_pairs(self) -> (Id, Id) {
        self.pairs
    }

    pub closed spec fn spec_name(self) -> Seq<char> {
        self.relationship_name@
    }

    pub closed spec fn spec_relation(self) -> ERelationship {
        self.relation
    }

    pub fn new(name: String, relation: ERelationship, pairs: (Id, Id)) -> (r: Self)
        ensures
            r.spec_name() == name@,
            r.spec_relation() == relation,
            r.spec_pairs() == pairs,
    {
        Relationship { relationship_name: name, relation, pairs }
    }

    pub fn get_name(&self) -> (r: &str)
        ensures
            r@ == self.spec_name(),
    {
        self.relationship_name.as_str()
    }

    pub fn get_relation(&self) -> (r: &ERelationship)
        ensures
            *r == self.spec_relation(),
    {
        &self.relation
    }

    pub fn get_major_pair(&self) -> (r: Id)
        ensures
            r == self.spec_pairs().0,
    {
        self.pairs.0
    }

    pub fn get_minor_pair(&self) -> (r: Id)
        ensures
            r == self.spec_pairs().1,
    {
        self.pairs.1
    }

    /// A relationship named `ParentChild` from the parent to the child.
    pub fn parent_child(parent: Parent, child: Child, parent_id: Id, child_id: Id) -> (r: Self)
        ensures
            r.spec_name() == "ParentChild"@,
            r.spec_relation() matches ERelationship::MajorMinor(Major::Parent(p), Minor::Child(c)) && p
                == parent && c == child,
            r.spec_pairs() == (parent_id, child_id),
    {
        Self::new(
            String::from_str("ParentChild"),
            ERelationship::parent_child(parent, child),
            (parent_id, child_id),
        )
    }

    /// A relationship named `Symmetric` between two entities.
    pub fn symmetric(relation: Symmetric, first: Id, second: Id) -> (r: Self)
        ensures
            r.spec_name() == "Symmetric"@,
            r.spec_relation() == ERelationship::Symmetric(relation),
            r.spec_pairs() == (first, second),
    {
        Self::new(String::from_str("Symmetric"), ERelationship::Symmetric(relation), (first, second))
    }
}

impl Clone for Relationship {
    fn clone(&self) -> (r: Self)
        ensures
            r.spec_name() == self.spec_name(),
            r.spec_pairs() == self.spec_pairs(),
    {
        Relationship {
            relationship_name: self.relationship_name.clone(),
            relation: self.relation.clone(),
            pairs: self.pairs,
        }
    }
}

impl Default for Relationship {
    fn default() -> (r: Self)
        ensures
            r.spec_name() == Seq::<char>::empty(),
            r.spec_relation() matches ERelationship::Symmetric(Symmetric::Friend),
            r.spec_pairs() == (0u128, 0u128),
    {
        Relationship { relationship_name: String::new(), relation: ERelationship::default(), pairs: (0, 0) }
    }
}

/// The ids held by the nodes of a relationship graph, by node index.
pub uninterp spec fn relation_node_ids(g: PetGraph<Id, Relationship, petgraph::Directed, u32>) -> Seq<Id>;

/// `petgraph::Graph::new`: an empty graph.
#[verifier::external_body]
fn relation_graph_new() -> (r: PetGraph<Id, Relationship, petgraph::Directed, u32>)
    ensures
        relation_node_ids(r) == Seq::<Id>::empty(),
{
    PetGraph::new()
}

/// `petgraph::Graph::node_weights`: the ids of the nodes, in index order.
#[verifier::external_body]
fn relation_node_weights(g: &PetGraph<Id, Relationship, petgraph::Directed, u32>) -> (r: Vec<Id>)
    ensures
        r@ == relation_node_ids(*g),
{
    g.node_weights().copied().collect()
}

/// A directed graph of entities whose edges are the relationships between
/// them.
pub struct RelationshipGraph {
    pub graph: PetGraph<Id, Relationship, petgraph::Directed, u32>,
}

impl RelationshipGraph {
    /// The ids of the entities, by node index.
    pub open spec fn spec_ids(self) -> Seq<Id> {
        relation_node_ids(self.graph)
    }

    pub fn new() -> (r: Self)
        ensures
            r.spec_ids() == Seq::<Id>::empty(),
    {
        RelationshipGraph { graph: relation_graph_new() }
    }

    /// The index of the first node that holds the entity.
    pub fn find_node_index(&self, id: Id) -> (r: Option<usize>)
        ensures
            match r {
                Some(i) => i < self.spec_ids().len() && self.spec_ids()[i as int] == id && forall|j: int|
                    0 <= j < i ==> self.spec_ids()[j] != id,
                None => forall|j: int| 0 <= j < self.spec_ids().len() ==> self.spec_ids()[j] != id,
            },
    {
        let ids = relation_node_weights(&self.graph);
        let mut i: usize = 0;
        while i < ids.len()
            invariant
                0 <= i <= ids@.len(),
                ids@ == self.spec_ids(),
                forall|j: int| 0 <= j < i ==> ids@[j] != id,
            decreases ids@.len() - i,
        {
            if ids[i] == id {
                return Some(i);
            }
            i = i + 1;
        }
        None
    }
}

} // verus!
