use ghopac::ancestor::{ancestor_chain, closest_ancestor_dir};

fn strings(v: &[&str]) -> Vec<String> {
    v.iter().map(|s| s.to_string()).collect()
}

#[test]
fn chain_walks_up_to_the_root() {
    assert_eq!(ancestor_chain("/a/b/c"), strings(&["/a/b/c", "/a/b", "/a", "/"]));
    assert_eq!(ancestor_chain("/"), strings(&["/"]));
    assert_eq!(ancestor_chain("a/b"), strings(&["a/b", "a", ""]));
}

#[test]
fn only_grandparent_exists() {
    let chain = ancestor_chain("/a/b/c");
    let is_dir = vec![false, false, true, true];
    assert_eq!(closest_ancestor_dir(&chain, &is_dir), Some("/a".to_string()));
}

#[test]
fn immediate_parent_exists() {
    let chain = ancestor_chain("/a/b/c");
    let is_dir = vec![false, true, true, true];
    assert_eq!(closest_ancestor_dir(&chain, &is_dir), Some("/a/b".to_string()));
}

#[test]
fn existing_directory_is_its_own_working_directory() {
    let chain = ancestor_chain("/a/b/c");
    let is_dir = vec![true, true, true, true];
    assert_eq!(closest_ancestor_dir(&chain, &is_dir), Some("/a/b/c".to_string()));
}

#[test]
fn no_existing_ancestor() {
    let chain = ancestor_chain("/a/b/c");
    let is_dir = vec![false, false, false, false];
    assert_eq!(closest_ancestor_dir(&chain, &is_dir), None);
    assert_eq!(closest_ancestor_dir(&Vec::new(), &Vec::new()), None);
}
