use novella::nvfs::{BinaryTy, Vfs, VfsError};

#[derive(Debug, Clone, PartialEq)]
struct TestStruct {
    id: u32,
    name: String,
    description: String,
}

impl BinaryTy for TestStruct {}

#[test]
fn test_dir_create() {
    let mut vfs = Vfs::<TestStruct>::new();
    vfs.create_dir("/test").unwrap();
    vfs.create_dir("/test/test2").unwrap();
    vfs.create_dir("/test/test3").unwrap();
    let inode1 = vfs.get_node_from_path("/test/test2").unwrap();
    let inode2 = vfs.get_node_from_path("/test/test3").unwrap();
    assert_eq!(inode1.name(), "test2");
    assert_eq!(inode2.name(), "test3");
    assert!(inode1.is_dir());
}

#[test]
fn test_add_payload() -> Result<(), VfsError> {
    let mut vfs = Vfs::new();
    vfs.create_dir("/test").unwrap();
    vfs.create_dir("/test/test1").unwrap();
    vfs.create_dir("/test/test2").unwrap();
    let ts1 = TestStruct {
        id: 1,
        name: String::from("test"),
        description: String::from("test"),
    };
    let ts2 = TestStruct {
        id: 2,
        name: String::from("test2"),
        description: String::from("test2"),
    };
    vfs.add_item(ts1, "/test/test1", "test1.struct".to_string()).unwrap();
    vfs.add_item(ts2, "/test/test2", "test2.struct".to_string()).unwrap();
    let inode1 = vfs.get_node_from_path("/test/test1/test1.struct").unwrap();
    let inode2 = vfs.get_node_from_path("/test/test2/test2.struct").unwrap();
    assert_eq!(inode1.name(), "test1.struct");
    assert_eq!(inode2.name(), "test2.struct");
    let item1 = vfs.get_item_payload(inode1.item_get_payload_id()?).unwrap();
    let item2 = vfs.get_item_payload(inode2.item_get_payload_id()?).unwrap();
    assert_eq!(item1.id, 1);
    assert_eq!(item2.id, 2);
    Ok(())
}

#[test]
fn missing_path_is_not_found() {
    let mut vfs = Vfs::<TestStruct>::new();
    vfs.create_dir("/test").unwrap();
    assert_eq!(
        vfs.get_node_from_path("/nothing").err(),
        Some(VfsError::PathNotFound)
    );
    assert!(vfs.verify_path("/test"));
    assert!(!vfs.verify_path("/test/none"));
}

#[test]
fn item_is_not_a_directory() {
    let mut vfs = Vfs::new();
    vfs.create_dir("/d").unwrap();
    let ts = TestStruct {
        id: 7,
        name: String::new(),
        description: String::new(),
    };
    vfs.add_item(ts.clone(), "/d", "x".to_string()).unwrap();
    assert_eq!(
        vfs.add_item(ts, "/d/x", "y".to_string()),
        Err(VfsError::NotADirectory)
    );
    let node = vfs.get_node_from_path("/d/x").unwrap();
    assert!(node.is_item());
    assert_eq!(node.dir_get_child_item_ids(), None);
}

#[test]
fn created_dir_ids_count_used_ids() {
    let mut vfs = Vfs::<TestStruct>::new();
    vfs.create_dir("/a").unwrap();
    vfs.create_dir("/a/b").unwrap();
    assert_eq!(vfs.get_node_from_path("/a").unwrap().id(), 1);
    assert_eq!(vfs.get_node_from_path("/a/b").unwrap().id(), 2);
    assert_eq!(vfs.get_node_from_path("/a/b").unwrap().parent_id(), 1);
}

#[test]
fn item_ids_have_top_bits_one_zero() {
    let mut vfs = Vfs::new();
    vfs.create_dir("/d").unwrap();
    let ts = TestStruct {
        id: 3,
        name: String::new(),
        description: String::new(),
    };
    vfs.add_item(ts, "/d", "x".to_string()).unwrap();
    let node = vfs.get_node_from_path("/d/x").unwrap();
    assert_eq!(node.id() >> 62, 2);
    assert_eq!(node.item_get_payload_id().unwrap() >> 62, 2);
}
