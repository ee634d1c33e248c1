use novella::common::StringExt;

#[test]
fn lib_test_to_snake_case() {
    let test = "TestStringVEN";
    assert_eq!(test.to_snake_case(), "test_string_ven");
}

#[test]
fn test_get_type_name() {}

#[test]
fn lib_it_works() {
    let result = 2 + 2;
    assert_eq!(result, 4);
}

#[test]
fn test_b_tree() {
    let btree = std::collections::BTreeSet::<u32>::from_iter(vec![11, 1, 2, 3, 4, 5, 6, 7, 8, 9, 10]);
    assert_eq!(btree.len(), 11);
    for i in btree.iter() {
        println!("{}", i);
    }
}

#[test]
fn snake_case_of_lower_text_is_itself() {
    assert_eq!("already".to_snake_case(), "already");
    assert_eq!("A".to_snake_case(), "a");
}

#[test]
fn camel_case_words_are_joined_by_underscores() {
    assert_eq!("HelloWorld".to_snake_case(), "hello_world");
}
