use grarr::commit_tree::{CommitTree, ReferencedCommit};
use grarr::config::Config;
use grarr::oid::Oid;
use std::path::PathBuf;

fn oid(b: u8) -> Oid {
    Oid { bytes: [b; 20] }
}

#[test]
fn each_commit_comes_with_what_its_subtree_stops_at() {
    let mut tree = CommitTree::create(vec![oid(1), oid(2), oid(3)], Some(oid(4)), vec![oid(9)]);
    assert_eq!(tree.len(), 3);
    assert!(!tree.is_empty());
    assert_eq!(tree.next_after(), Some(oid(4)));
    assert_eq!(tree.next(), Some((oid(1), vec![oid(9), oid(2)])));
    assert_eq!(tree.len(), 2);
    assert_eq!(tree.next(), Some((oid(2), vec![oid(9), oid(3)])));
    assert_eq!(tree.next(), Some((oid(3), vec![oid(9)])));
    assert_eq!(tree.len(), 0);
    assert!(tree.is_empty());
    assert_eq!(tree.next(), None);
    assert_eq!(tree.next_after(), Some(oid(4)));
}

#[test]
fn empty_level() {
    let mut tree = CommitTree::create(Vec::new(), None, Vec::new());
    assert!(tree.is_empty());
    assert_eq!(tree.len(), 0);
    assert_eq!(tree.next_after(), None);
    assert_eq!(tree.next(), None);
}

#[test]
fn referenced_commit_names() {
    let named = ReferencedCommit { commit: oid(0xcd), reference: Some("master".to_string()) };
    assert_eq!(named.shorthand_or_id(), "master");
    assert_eq!(named.tree_parent("user/repo"), "/user/repo/tree/master");
    let bare = ReferencedCommit { commit: oid(0xcd), reference: None };
    assert_eq!(bare.shorthand_or_id(), "cd".repeat(20));
    assert_eq!(bare.tree_parent("r"), format!("/r/tree/{}", "cd".repeat(20)));
}

#[test]
fn configuration_for_a_directory() {
    let c = Config::for_directory(PathBuf::from("/srv/git"));
    assert_eq!(c.repos.root, PathBuf::from("/srv/git"));
    assert!(c.avatars.cache.enable);
    assert_eq!(c.avatars.cache.capacity, 100);
    assert_eq!(c.avatars.cache.ttl_seconds, 60);
    assert!(c.avatars.gravatar.enable);
}

#[test]
fn history_cut_at_the_limit() {
    let mut tree = CommitTree::from_walk(vec![oid(1), oid(2), oid(3)], 2);
    assert_eq!(tree.len(), 2);
    assert_eq!(tree.next_after(), Some(oid(3)));
    assert_eq!(tree.next(), Some((oid(1), vec![oid(2)])));
    assert_eq!(tree.next(), Some((oid(2), vec![])));
    assert_eq!(tree.next(), None);
    let short = CommitTree::from_walk(vec![oid(1)], 50);
    assert_eq!(short.len(), 1);
    assert_eq!(short.next_after(), None);
}
