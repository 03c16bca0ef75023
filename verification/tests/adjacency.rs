use cluster::adjacency::{contains, link, position, push_unique, remove_first, unlink};

#[test]
fn position_finds_the_first_place() {
    let adj: Vec<u32> = vec![4, 9, 4, 7];
    assert_eq!(position(&adj, &4), Some(0));
    assert_eq!(position(&adj, &9), Some(1));
    assert_eq!(position(&adj, &7), Some(3));
}

#[test]
fn position_of_a_missing_key_is_none() {
    let adj: Vec<u32> = vec![4, 9, 7];
    assert_eq!(position(&adj, &5), None);
    let empty: Vec<u32> = Vec::new();
    assert_eq!(position(&empty, &4), None);
}

#[test]
fn contains_tells_presence() {
    let adj: Vec<u32> = vec![1, 2, 3];
    assert!(contains(&adj, &1));
    assert!(contains(&adj, &3));
    assert!(!contains(&adj, &0));
    let empty: Vec<u32> = Vec::new();
    assert!(!contains(&empty, &1));
}

#[test]
fn push_unique_appends_a_new_key_at_the_end() {
    let mut adj: Vec<u32> = vec![5, 3];
    push_unique(&mut adj, 8);
    assert_eq!(adj, vec![5, 3, 8]);
    let mut empty: Vec<u32> = Vec::new();
    push_unique(&mut empty, 1);
    assert_eq!(empty, vec![1]);
}

#[test]
fn push_unique_leaves_a_list_that_holds_the_key() {
    let mut adj: Vec<u32> = vec![5, 3, 8];
    push_unique(&mut adj, 3);
    assert_eq!(adj, vec![5, 3, 8]);
    push_unique(&mut adj, 5);
    push_unique(&mut adj, 8);
    assert_eq!(adj, vec![5, 3, 8]);
}

#[test]
fn remove_first_keeps_the_order_of_the_rest() {
    let mut adj: Vec<u32> = vec![5, 3, 8, 1];
    remove_first(&mut adj, &3);
    assert_eq!(adj, vec![5, 8, 1]);
    remove_first(&mut adj, &5);
    assert_eq!(adj, vec![8, 1]);
    remove_first(&mut adj, &1);
    assert_eq!(adj, vec![8]);
    remove_first(&mut adj, &8);
    assert_eq!(adj, Vec::<u32>::new());
}

#[test]
fn remove_first_takes_one_occurrence_only() {
    let mut adj: Vec<u32> = vec![2, 6, 2, 6];
    remove_first(&mut adj, &6);
    assert_eq!(adj, vec![2, 2, 6]);
    remove_first(&mut adj, &2);
    assert_eq!(adj, vec![2, 6]);
}

#[test]
fn remove_first_of_a_missing_key_changes_nothing() {
    let mut adj: Vec<u32> = vec![5, 3];
    remove_first(&mut adj, &4);
    assert_eq!(adj, vec![5, 3]);
    let mut empty: Vec<u32> = Vec::new();
    remove_first(&mut empty, &4);
    assert!(empty.is_empty());
}

#[test]
fn lists_of_owned_strings_work_too() {
    let mut adj: Vec<String> = vec![String::from("a"), String::from("b")];
    push_unique(&mut adj, String::from("a"));
    push_unique(&mut adj, String::from("c"));
    assert_eq!(adj, vec!["a", "b", "c"]);
    remove_first(&mut adj, &String::from("b"));
    assert_eq!(adj, vec!["a", "c"]);
    assert_eq!(position(&adj, &String::from("c")), Some(1));
}

#[test]
fn link_adds_the_edge_to_the_list_it_is_given() {
    let mut adj: Vec<u32> = vec![4];
    assert!(link(Some(&mut adj), 6).is_ok());
    assert_eq!(adj, vec![4, 6]);
    assert!(link(Some(&mut adj), 4).is_ok());
    assert_eq!(adj, vec![4, 6]);
}

#[test]
fn link_without_a_list_fails() {
    let e = link::<u32>(None, 6).err().unwrap();
    assert_eq!(e.message(), "To add edge, both node must exists in the Cluster.");
}

#[test]
fn unlink_removes_the_edge_from_the_list_it_is_given() {
    let mut adj: Vec<u32> = vec![4, 6, 8];
    assert!(unlink(Some(&mut adj), &6).is_ok());
    assert_eq!(adj, vec![4, 8]);
    assert!(unlink(Some(&mut adj), &6).is_ok());
    assert_eq!(adj, vec![4, 8]);
}

#[test]
fn unlink_without_a_list_fails() {
    let e = unlink::<u32>(None, &6).err().unwrap();
    assert_eq!(e.message(), "<src> node does not exists.");
}
