use novella::common::TypeIdTy;
use novella::nvcore::ecs::component::archetypes::{Archetype, ArchetypeTy, CharacterArchetype};
use novella::nvcore::ecs::component::{
    EComponentGraphTypes, EComponentTypes, LocationComponent, NameComponent, StringFieldComponent,
};
use novella::nvcore::ecs::query::{Query, QueryFetch};
use novella::nvcore::ecs::{CommonComponentStore, Entman, Signature, Storage};

#[test]
fn test_sig_gen() {
    let query = Query::<(LocationComponent, NameComponent)>::get_query_sig();
    let comp_sig = Signature::from(vec![
        LocationComponent::get_type_id(),
        NameComponent::get_type_id(),
    ]);
    assert!(query.same_as(&comp_sig));
}

#[test]
fn test_predicates() {
    let pred = |_fetch: QueryFetch<(LocationComponent, NameComponent)>| -> bool {
        return true;
    };
    let _q = Query::from_pred(pred);
}

#[test]
fn test_add_archetype() {
    let character_archetype = CharacterArchetype {};
    let mut em = Entman::new();
    let entity = em.entity_from_archetype(character_archetype);
    let entity = em.get_entity(entity);
    assert!(character_archetype
        .describe()
        .get_signature()
        .same_as(&entity.unwrap().get_signature()));
}

#[test]
fn test_downcast_store() {
    let ccs = CommonComponentStore::<StringFieldComponent>::new();
    let ccs_any = ccs.get_any_owned();
    let _ccs_any_downcast = ccs_any.into_store::<StringFieldComponent>();
}

#[test]
fn test_ecomponent_type_from_name() {
    let name = "StringFieldComponent";
    let e_type = EComponentTypes::from_name(name).unwrap();
    assert_eq!(e_type, EComponentTypes::StringFieldComponent);
}

#[test]
fn test_get_type_name_from_store() {
    let ccs = CommonComponentStore::<StringFieldComponent>::new();
    let ccs_any = ccs.get_any_owned();
    let name = ccs_any.get_common_type_name();
    assert_eq!(name, "StringFieldComponent");
}

fn bob_predicate(f: QueryFetch<NameComponent>) -> bool {
    match f.get_component::<NameComponent>() {
        Ok(c) => c.get_inner().name == "Bob",
        Err(_) => false,
    }
}

#[test]
fn test_query_fetch() {
    let mut entman = Entman::new();
    let ent1 = entman.add_entity();
    let ent2 = entman.add_entity();
    let ent3 = entman.add_entity();
    let ent4 = entman.add_entity();

    entman
        .add_component::<NameComponent>(
            ent1,
            NameComponent {
                name: "Bob".to_string(),
                aliases: vec![],
            },
        )
        .unwrap();
    let _ = entman.add_component_default::<StringFieldComponent>(ent2);
    let _ = entman.add_component_default::<StringFieldComponent>(ent3);
    let _ = entman.add_component(
        ent4,
        NameComponent {
            name: "Jane".to_string(),
            aliases: vec![],
        },
    );
    {
        let q = Query::from_pred(bob_predicate);
        let _qres = entman.query(&q);
    }
    {
        let q2 = Query::<NameComponent>::new();
        let qres2 = entman.query(&q2);
        let name = qres2.get_component::<NameComponent>(ent1).unwrap();
        assert_eq!(name.name, "Bob");
    }
    let _ = entman.add_component(
        ent1,
        StringFieldComponent {
            name: "Name".to_string(),
            value: "Bob".to_string(),
        },
    );
    let q3 = Query::<(NameComponent, StringFieldComponent)>::new();
    let qres3 = entman.query(&q3);
    let name = qres3.get_component::<NameComponent>(ent1).unwrap();
    assert_eq!(name.name, "Bob");
    let field = qres3.get_component::<StringFieldComponent>(ent1).unwrap();
    assert_eq!(field.name, "Name");
}

#[test]
fn test_add_component() {
    let mut em = Entman::new();
    let entity = em.add_entity();
    let _ = em.add_component(
        entity,
        StringFieldComponent {
            name: "name".to_string(),
            value: "value".to_string(),
        },
    );
    let _ = em.add_component_default::<StringFieldComponent>(entity);
    assert!(em
        .get_entity_ref(entity)
        .unwrap()
        .has_component::<StringFieldComponent>());
}

#[test]
fn test_get_components() {
    let mut em = Entman::new();
    let entity = em.add_entity();
    let _comp1 = em
        .add_component::<StringFieldComponent>(
            entity,
            StringFieldComponent {
                name: "name".to_string(),
                value: "value".to_string(),
            },
        )
        .unwrap();
    let _comp2 = em
        .add_component::<NameComponent>(
            entity,
            NameComponent {
                name: "name".to_string(),
                aliases: vec![],
            },
        )
        .unwrap();
}

#[test]
fn test_dynamic() {
    let mut em = Entman::new();
    let entity = em.add_entity();
    let _ = em.add_component(
        entity,
        StringFieldComponent {
            name: "name".to_string(),
            value: "value".to_string(),
        },
    );
    let _ = em.add_component_default::<NameComponent>(entity);
    let _ = em.add_component_default::<StringFieldComponent>(entity);
    let owned_entity = em.get_entity_owned(entity).unwrap();
    let entinfo = em.get_entity(entity).unwrap();
    assert!(entinfo.get_signature().same_as(&owned_entity.get_signature()));
}

#[test]
fn removed_entity_is_gone() {
    let mut em = Entman::new();
    let e = em.add_entity();
    em.add_component(
        e,
        NameComponent {
            name: "n".to_string(),
            aliases: vec![],
        },
    )
    .unwrap();
    assert!(em.get_component_ref::<NameComponent>(e).is_ok());
    em.remove_entity(e);
    assert!(em.get_entity(e).is_err());
    assert!(em.get_component_ref::<NameComponent>(e).is_err());
    assert_eq!(em.get_entity_count(), 0);
}

#[test]
fn signature_holds_each_type_once() {
    let mut s = Signature::new();
    s.insert(NameComponent::get_type_id());
    s.insert(LocationComponent::get_type_id());
    s.insert(NameComponent::get_type_id());
    assert_eq!(s.get_type_ids().len(), 2);
    assert!(s.insert_checked(NameComponent::get_type_id()).is_err());
    let mut doubled = s.clone_sig();
    doubled.merge(&s);
    assert_eq!(doubled.get_type_ids().len(), 4);
    assert!(doubled.get_singular_signature().same_as(&s));
    let before = s.clone_sig();
    s.insert(StringFieldComponent::get_type_id());
    s.remove_component(StringFieldComponent::get_type_id()).unwrap();
    assert!(s.same_as(&before));
}

#[test]
fn added_component_is_read_back() {
    let mut em = Entman::new();
    let e = em.add_entity();
    em.add_component(
        e,
        StringFieldComponent {
            name: "k".to_string(),
            value: "v".to_string(),
        },
    )
    .unwrap();
    let c = em.get_component_ref::<StringFieldComponent>(e).unwrap();
    assert_eq!(c.get_inner().value, "v");
    em.add_component(
        e,
        StringFieldComponent {
            name: "k2".to_string(),
            value: "v2".to_string(),
        },
    )
    .unwrap();
    let c = em.get_component_ref::<StringFieldComponent>(e).unwrap();
    assert_eq!(c.get_inner().value, "v");
}

#[test]
fn held_archetype_describes_as_its_content() {
    let held = Archetype::new(CharacterArchetype {});
    let d = held.describe();
    assert_eq!(d.get_name(), "Character");
    assert_eq!(d.get_components().len(), 7);
    assert!(d
        .get_signature()
        .same_as(&CharacterArchetype {}.describe().get_signature()));
}

#[test]
fn character_components_hold_their_defaults() {
    let d = CharacterArchetype {}.describe();
    let cs = d.get_components();
    match &cs[0] {
        EComponentGraphTypes::CharacterNameComponent(n) => {
            assert_eq!(n.name.given_name, "Given name");
            assert_eq!(n.name.family_name, "Family name");
        }
        _ => panic!("first component is not a name"),
    }
    let fields = ["Age", "Height", "Weight"];
    for i in 0..3 {
        match &cs[i + 1] {
            EComponentGraphTypes::NumericalFieldComponent(f) => {
                assert_eq!(f.name, fields[i]);
                assert_eq!(f.value, 0);
            }
            _ => panic!("not a numerical field"),
        }
    }
    match &cs[6] {
        EComponentGraphTypes::StringFieldComponent(f) => {
            assert_eq!(f.name, "Description");
            assert_eq!(f.value, "");
        }
        _ => panic!("last component is not a text field"),
    }
}

#[test]
fn query_keeps_accepted_entities_with_their_own_components() {
    let mut entman = Entman::new();
    let names = ["Ann", "Bob", "Cid", "Dee"];
    let mut ids = Vec::new();
    for n in names.iter() {
        let e = entman.add_entity();
        entman
            .add_component::<NameComponent>(
                e,
                NameComponent {
                    name: n.to_string(),
                    aliases: vec![],
                },
            )
            .unwrap();
        ids.push(e);
    }
    let q = Query::from_pred(bob_predicate);
    let res = entman.query(&q);
    let found: Vec<_> = res.iter().into_iter().map(|(id, _)| id).collect();
    assert_eq!(found, vec![ids[1]]);
    assert_eq!(res.get_component::<NameComponent>(ids[1]).unwrap().name, "Bob");
    let all = entman.query(&Query::<NameComponent>::new());
    assert_eq!(all.iter().len(), 4);
    for (i, e) in ids.iter().enumerate() {
        assert_eq!(all.get_component::<NameComponent>(*e).unwrap().name, names[i]);
    }
}

#[test]
fn owned_components_skip_stores_without_the_entity() {
    let mut st = Storage::new();
    st.insert_component(1, StringFieldComponent::default()).unwrap();
    st.insert_component(2, NameComponent::default()).unwrap();
    let v = st.get_entity_owned_components(1).unwrap();
    assert_eq!(v.len(), 1);
    assert_eq!(v[0].get_type_id(), StringFieldComponent::get_type_id());
}

#[test]
fn common_store_knows_its_type() {
    let s = CommonComponentStore::<StringFieldComponent>::new();
    assert_eq!(s.get_common_type(), Ok(EComponentTypes::StringFieldComponent));
}
