use novella::nvcore::ecs::component::relationship::{
    Child, ERelationship, Parent, Relationship, RelationshipGraph, Symmetric,
};
use novella::nvcore::ecs::kin::{
    canonical_from_locations, KinError, KinGraph, Kind, Location, Person, Sex,
};

/// A family of ten persons and nine relations.
fn family() -> (KinGraph, Vec<Person>) {
    let mut kg = KinGraph::new();
    let p0 = Person::new(Sex::Female);
    let p1 = Person::new(Sex::Female);
    let p2 = Person::new(Sex::Male);
    let p3 = Person::new(Sex::Male);
    let p4 = Person::new(Sex::Female);
    let p5 = Person::new(Sex::Female);
    let p6 = Person::new(Sex::Male);
    let p7 = Person::new(Sex::Male);
    let p8 = Person::new(Sex::Female);
    let p9 = Person::new(Sex::Female);
    let ps = vec![p0, p1, p2, p3, p4, p5, p6, p7, p8, p9];
    for p in ps.iter() {
        kg.add_person(p);
    }
    kg.add_relation(&p0, &p1, Kind::Parent);
    kg.add_relation(&p2, &p1, Kind::Parent);
    kg.add_relation(&p1, &p3, Kind::Parent);
    kg.add_relation(&p1, &p4, Kind::Repat);
    kg.add_relation(&p3, &p7, Kind::Parent);
    kg.add_relation(&p7, &p8, Kind::Parent);
    kg.add_relation(&p4, &p3, Kind::Parent);
    kg.add_relation(&p5, &p3, Kind::Sibling);
    kg.add_relation(&p5, &p6, Kind::Parent);
    (kg, ps)
}

#[test]
fn test_main() {
    let (mut kg, ps) = family();
    let p0 = ps[0];
    let p8 = ps[8];
    let path = kg.get_canonical_relationship(&p0, &p8).unwrap();
    println!("Node {:?} is the {:} of {:?}", &p8, path, &p0);
}

#[test]
fn test_canonical_great_granddaughter() {
    let (mut kg, ps) = family();
    let r = kg.get_canonical_relationship(&ps[0], &ps[8]);
    assert_eq!(r, Ok("great great granddaughter".to_string()));
}

#[test]
fn test_canonical_same_person() {
    let (mut kg, ps) = family();
    assert_eq!(kg.get_canonical_relationship(&ps[3], &ps[3]), Err(KinError::SamePerson));
}

#[test]
fn test_canonical_sibling_not_tracked() {
    let (mut kg, ps) = family();
    assert_eq!(kg.get_canonical_relationship(&ps[3], &ps[5]), Err(KinError::NotTracked));
}

#[test]
fn test_canonical_unrelated_no_path() {
    let (mut kg, ps) = family();
    assert_eq!(kg.get_canonical_relationship(&ps[0], &ps[9]), Err(KinError::NoPath));
}

#[test]
fn test_canonical_son() {
    let (mut kg, ps) = family();
    assert_eq!(kg.get_canonical_relationship(&ps[7], &ps[8]), Ok("daughter".to_string()));
    assert_eq!(kg.get_canonical_relationship(&ps[1], &ps[7]), Ok("grandson".to_string()));
}

#[test]
fn test_shortest_path() {
    let (mut kg, ps) = family();
    kg.build_map(&ps[0]);
    let path = kg.find_shortest_path_astar(&ps[0], &ps[8]);
    assert_eq!(path, vec![0, 1, 3, 7, 8]);
    assert_eq!(kg.try_find_shortest_path_astar(&ps[0], &ps[8]), Some(vec![0, 1, 3, 7, 8]));
}

#[test]
fn test_find_eldest_ancestor() {
    let (kg, ps) = family();
    assert_eq!(kg.find_eldest_ancestor(&ps[8]), (-4, ps[0].id));
    assert_eq!(kg.find_eldest_ancestor(&ps[9]), (0, ps[9].id));
}

#[test]
fn test_canonical_from_locations() {
    let a = Location { d: 0, w: 0 };
    let b = Location { d: -3, w: 0 };
    assert_eq!(canonical_from_locations(a, b, 4, false), Ok("great grandson".to_string()));
    assert_eq!(canonical_from_locations(a, b, 5, false), Err(KinError::NotTracked));
    let c = Location { d: -3, w: 1 };
    assert_eq!(canonical_from_locations(a, c, 4, true), Err(KinError::NotTracked));
    let d = Location { d: 2, w: 0 };
    assert_eq!(canonical_from_locations(a, d, 3, true), Ok("granddaughter".to_string()));
    assert_eq!(canonical_from_locations(a, a, 1, true), Ok(" granddaughter".to_string()));
}

#[test]
fn test_location_ops() {
    let a = Location { d: 2, w: -1 };
    let b = Location { d: 3, w: 4 };
    assert_eq!(a.dot(b), 2 * 4 + (-1) * 3);
    assert_eq!(a.add(b), Location { d: 5, w: 3 });
    assert_eq!(a.sub(b), Location { d: -1, w: -5 });
}

#[test]
fn test_add_person_index() {
    let (kg, ps) = family();
    for (i, p) in ps.iter().enumerate() {
        assert_eq!(kg.idx(p), Some(i));
    }
    let stranger = Person::new(Sex::Male);
    assert_eq!(kg.idx(&stranger), None);
}

#[test]
fn relationship_test_basic() {
    let mut graph = RelationshipGraph::new();
    let ent1 = novella::common::gen_128();
    let ent2 = novella::common::gen_128();
    let ent3 = novella::common::gen_128();
    let father = Relationship::new(
        "FatherSon".to_string(),
        ERelationship::parent_child(Parent::Father, Child::Son),
        (ent1, ent2),
    );
    let mother = Relationship::new(
        "MotherSon".to_string(),
        ERelationship::parent_child(Parent::Mother, Child::Son),
        (ent1, ent3),
    );
    let n1 = graph.graph.add_node(ent1);
    let n2 = graph.graph.add_node(ent2);
    let n3 = graph.graph.add_node(ent3);
    graph.graph.add_edge(n1, n2, father);
    graph.graph.add_edge(n3, n2, mother);
    assert_eq!(graph.find_node_index(ent2), Some(1));
    assert_eq!(graph.find_node_index(ent3), Some(2));
    assert_eq!(graph.find_node_index(novella::common::gen_128()), None);
    let _ = Symmetric::Friend;
}

#[test]
fn relation_is_recorded_both_ways() {
    let mut kg = KinGraph::new();
    let parent = Person::new(Sex::Male);
    let child = Person::new(Sex::Female);
    kg.add_person(&parent);
    kg.add_person(&child);
    kg.add_relation(&parent, &child, Kind::Parent);
    assert_eq!(kg.get_canonical_relationship(&parent, &child), Ok("daughter".to_string()));
    assert_eq!(kg.get_canonical_relationship(&child, &parent), Ok("son".to_string()));
    assert_eq!(kg.find_eldest_ancestor(&child), (-1, parent.id));
}
