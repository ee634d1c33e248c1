use novella::csl::DirectedGraph;
use novella::nvcore::action::{
    ae_add_entity, au_add_entity, ActionCursor, ActionValue, AddEntityConstructor, ActionError, Actman, EngineAction, Reqman, Request, Resrc, ReturnValue,
    StaticAction,
};
use novella::nvcore::khronos::{Coef, Cycle, KhronosError, System, UnitCycle};
use novella::common::TypeId;
use novella::nvcore::ecs::{EcsError, Entman};
use novella::nvcore::{Manuscript, Progression, TimeMetaData, Timestamp};
use novella::nvfs::{create_table_statement, insert_statement, BinaryStorage, VfsError};

#[test]
fn duplicate_ordering_is_refused() {
    let mut m = Manuscript::new("book".to_string(), "a book".to_string());
    let p1 = Progression::new("one".to_string(), "".to_string(), "text".to_string(), 3);
    let p2 = Progression::new("two".to_string(), "".to_string(), "more".to_string(), 3);
    assert!(m.add_progression(p1).is_ok());
    assert_eq!(
        m.add_progression(p2),
        Err("Manuscript already has a progression with ordering 3".to_string())
    );
    assert_eq!(m.get_all_progressions().len(), 1);
}

#[test]
fn ordered_progressions_follow_their_ordering() {
    let mut m = Manuscript::new("book".to_string(), "".to_string());
    for (name, o) in [("c", 30u32), ("a", 10), ("b", 20), ("z", 0)] {
        let p = Progression::new(name.to_string(), "".to_string(), "".to_string(), o);
        m.add_progression(p).unwrap();
    }
    let ordered = m.get_ordered_progressions();
    let orders: Vec<u32> = ordered.iter().map(|p| p.get_ordering()).collect();
    assert_eq!(orders, vec![0, 10, 20, 30]);
    let names: Vec<&str> = ordered.iter().map(|p| p.get_name()).collect();
    assert_eq!(names, vec!["z", "a", "b", "c"]);
}

#[test]
fn removed_progression_is_gone() {
    let mut m = Manuscript::new("book".to_string(), "".to_string());
    let p = Progression::new("one".to_string(), "".to_string(), "".to_string(), 1);
    let id = p.get_id();
    m.add_progression(p).unwrap();
    assert!(m.get_progression(id).is_some());
    let removed = m.remove_progression(id).unwrap();
    assert_eq!(removed.get_id(), id);
    assert!(m.get_progression(id).is_none());
    let again = Progression::new("again".to_string(), "".to_string(), "".to_string(), 1);
    assert!(m.add_progression(again).is_ok());
}

#[test]
fn cycle_with_wrong_division_names_is_refused() {
    let names = vec!["a".to_string(), "b".to_string()];
    assert_eq!(
        Cycle::new(1, "Week", "A week", Coef::Normal(7), Some(names), 0).err(),
        Some(KhronosError::DivNamesMismatch)
    );
    let ok = Cycle::new(1, "Pair", "Two", Coef::Normal(2), Some(vec!["a".to_string(), "b".to_string()]), 0);
    assert!(ok.is_ok());
    assert_eq!(ok.unwrap().get_id(), 1);
}

#[test]
fn cycle_parent_of_two_cycles_is_refused() {
    let cycles = vec![
        Cycle::new(1, "a", "", Coef::Normal(2), None, 0).unwrap(),
        Cycle::new(2, "b", "", Coef::Normal(2), None, 1).unwrap(),
        Cycle::new(3, "c", "", Coef::Normal(2), None, 1).unwrap(),
    ];
    assert_eq!(
        System::verify_cycles(cycles),
        Err(KhronosError::CycleChildMoreThanOnce)
    );
    let c1 = Cycle::new(1, "Year", "", Coef::Normal(12), None, 0).unwrap();
    let c2 = Cycle::new(1, "Year again", "", Coef::Normal(12), None, 0).unwrap();
    let c3 = Cycle::new(2, "Month", "", Coef::Inverted(12), None, 1).unwrap();
    assert_eq!(System::verify_cycles(vec![c1, c2, c3]), Ok(()));
    let d1 = Cycle::new(1, "Year", "", Coef::Normal(12), None, 0).unwrap();
    let d2 = Cycle::new(2, "Month", "", Coef::Inverted(12), None, 1).unwrap();
    let d3 = Cycle::new(3, "Day", "", Coef::Inverted(30), None, 2).unwrap();
    assert_eq!(System::verify_cycles(vec![d1, d2, d3]), Ok(()));
}

#[test]
fn first_cycle_of_an_id_is_found() {
    let mut s = System::new();
    s.add_cycle(Cycle::new(5, "first", "", Coef::Normal(2), None, 0).unwrap());
    s.add_cycle(Cycle::new(5, "second", "", Coef::Normal(3), None, 0).unwrap());
    assert_eq!(s.get_cycle(5).unwrap().get_id(), 5);
    assert!(s.get_cycle(6).is_none());
    assert_eq!(Coef::Inverted(4).mag(), 4);
}

#[test]
fn cursor_sub_clamps_at_minus_one() {
    let c = ActionCursor::new();
    assert!(!c.is_valid());
    let d = c.add(3);
    assert_eq!(d.get(), 2);
    assert!(d.is_valid());
    assert_eq!(d.sub(2).get(), 0);
    assert_eq!(d.sub(10).get(), -1);
    let mut e = d;
    e.reset();
    assert_eq!(e.get(), -1);
}

#[test]
fn directed_graph_edges() {
    let mut g = DirectedGraph::<u32>::new();
    g.add_node(10, &[], &[]).unwrap();
    g.add_node(11, &[0], &[0]).unwrap();
    assert!(g.validate_index(1));
    assert!(!g.validate_index(2));
    assert_eq!(g.get_node(1).edges, Some(vec![0]));
    assert_eq!(g.get_node(0).edges, Some(vec![2]));
    g.add_edge(1, 1);
    assert_eq!(g.get_node(1).edges, Some(vec![0, 1]));
    assert_eq!(g.get_node(0).data, 10);
}

#[test]
fn time_meta_round_trip_swaps_dates() {
    let t = TimeMetaData::from_dates(Timestamp { secs: 100, nanos: 5 }, Timestamp { secs: 200, nanos: 0 });
    let (a, b) = t.encode();
    assert_eq!((a, b), (200, 100));
    let back = TimeMetaData::decode(a, b);
    assert_eq!(back.get_creation_date().secs, 200);
    assert_eq!(back.get_last_modified_date().secs, 100);
    let same = TimeMetaData::from_dates(Timestamp { secs: 7, nanos: 0 }, Timestamp { secs: 7, nanos: 0 });
    let (c, d) = same.encode();
    let again = TimeMetaData::decode(c, d);
    assert_eq!(again.get_creation_date(), same.get_creation_date());
    assert_eq!(again.get_last_modified_date(), same.get_last_modified_date());
}

#[test]
fn statements_join_columns_with_commas() {
    assert_eq!(
        create_table_statement("t", &["id INTEGER", "name TEXT"]),
        "CREATE TABLE IF NOT EXISTS t (id INTEGER,name TEXT)"
    );
    assert_eq!(
        insert_statement("t", &["id", "name"], &["1", "'a'"]),
        "INSERT INTO t (id,name) VALUES (1,'a')"
    );
    assert_eq!(create_table_statement("e", &[]), "CREATE TABLE IF NOT EXISTS e ()");
}

#[test]
fn binary_storage_checks_type() {
    let bs = BinaryStorage::with_bytes(TypeId::new(3), vec![1, 2, 3]);
    assert_eq!(bs.checked_bytes(TypeId::new(3)), Ok(&vec![1u8, 2, 3]));
    assert_eq!(bs.checked_bytes(TypeId::new(4)), Err(VfsError::TypeIdMismatch));
}

#[test]
fn test_action_register() {
    let action = StaticAction::new(EngineAction::AddEntity);
    let mut em = Entman::new();
    let mut act = Actman::new();
    act.register_action(action);
    act.advance(&mut em).unwrap();
    act.regress(&mut em).unwrap();
    assert_eq!(em.get_entity_count(), 0);
}

#[test]
fn add_entity_action_executes_and_is_undone() {
    let mut em = Entman::new();
    let mut act = Actman::new();
    assert_eq!(act.advance(&mut em), Err(ActionError::CursorInvalid));
    act.register_action(StaticAction::new_static(EngineAction::AddEntity, 0));
    act.advance(&mut em).unwrap();
    assert_eq!(em.get_entity_count(), 1);
    let (rs, id) = ae_add_entity(&mut em, ()).unwrap();
    assert_eq!(rs.entity, id);
    assert_eq!(em.get_entity_count(), 2);
    au_add_entity(&mut em, Resrc::new(&rs)).unwrap();
    assert_eq!(em.get_entity_count(), 1);
    act.regress(&mut em).unwrap();
    assert_eq!(em.get_entity_count(), 0);
}

#[test]
fn remove_entity_action_has_no_undo() {
    let mut em = Entman::new();
    let id = em.add_entity();
    let mut act = Actman::new();
    act.register_action(StaticAction::new(EngineAction::RemoveEntity(id)));
    act.advance(&mut em).unwrap();
    assert_eq!(em.get_entity_count(), 0);
    assert_eq!(act.regress(&mut em), Err(ActionError::NoUndo));
    assert_eq!(em.get_entity_count(), 0);
}

fn get_entity(em: &Entman, p: (String, i32)) -> Result<(String, usize), EcsError> {
    Ok((p.0, em.get_entity_count()))
}

#[test]
fn test_action_request() {
    let req = Request::<(String, usize), (String, i32), EcsError, _>::new(get_entity);
    let em = Entman::new();
    let mut reqman = Reqman::new();
    let res = reqman
        .request(req, &em, ("test".to_string(), 1))
        .unwrap();
    assert_eq!(res.0, "test");
}

#[test]
fn return_value_is_filled_once_set() {
    let mut rv = ReturnValue::<u32>::new(None);
    assert_eq!(rv.get(), Err(ActionError::NoReturnValue));
    rv.fill(7);
    assert_eq!(rv.get(), Ok(7));
    assert_eq!(ReturnValue::new(Some(3u32)).get(), Ok(3));
}

#[test]
fn test_action_constructor() {
    let mut em = Entman::new();
    let mut actman = Actman::new();
    let ret_val = actman.register_action_with_rv(AddEntityConstructor {}.construct());
    let _ = actman.advance(&mut em);

    assert_eq!(em.get_entity_count(), 1);
    assert!(actman.get_return_value(ret_val).is_ok());
    let id = match actman.get_return_value(ret_val).unwrap() {
        ActionValue::Entity(id) => id,
        ActionValue::Nothing => panic!("adding an entity returns it"),
    };
    assert!(em.get_entity(id).is_ok());
}

fn names(ns: &[&str]) -> Vec<String> {
    ns.iter().map(|n| n.to_string()).collect()
}

#[test]
fn khronos_test_basic() {
    let unit_cycle = UnitCycle {
        name: String::from("Year"),
        description: String::from("The base unit of time"),
    };
    let psuedo_month = Cycle::new(
        1,
        "Month",
        "A month",
        Coef::Inverted(12),
        Some(names(&[
            "January", "February", "March", "April", "May", "June", "July", "August", "September",
            "October", "November", "December",
        ])),
        0,
    )
    .unwrap();
    let psuedo_week = Cycle::new(2, "Week", "A week", Coef::Inverted(4), None, 1).unwrap();
    let psuedo_day = Cycle::new(
        3,
        "Day",
        "A day",
        Coef::Inverted(7),
        Some(names(&["Sunday", "Monday", "Tuesday", "Wednesday", "Thursday", "Friday", "Saturday"])),
        2,
    )
    .unwrap();
    let psuedo_hour = Cycle::new(4, "Hour", "An hour", Coef::Inverted(24), None, 3).unwrap();
    let psuedo_minute = Cycle::new(5, "Minute", "A minute", Coef::Inverted(60), None, 4).unwrap();
    let psuedo_second = Cycle::new(6, "Second", "A second", Coef::Inverted(60), None, 5).unwrap();
    let system = System::from_cycles(
        unit_cycle,
        vec![psuedo_month, psuedo_week, psuedo_day, psuedo_hour, psuedo_minute, psuedo_second],
    );
    assert_eq!(system.cycles.len(), 6);
    assert_eq!(System::verify_cycles(system.cycles.clone()), Ok(()));
}

#[test]
fn engine_state_starts_empty_and_names_its_project() {
    let mut mir = novella::nvcore::mir::Mir::new();
    assert_eq!(mir.em.get_entity_count(), 0);
    mir.create_project("Novel".to_string(), "A novel".to_string());
    assert_eq!(mir.proj.description, "A novel");
    assert_eq!(mir.em.get_entity_count(), 0);
}
