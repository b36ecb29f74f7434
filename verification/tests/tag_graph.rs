use std::collections::HashMap;
use memedb::api::TagDetails;
use memedb::tags::{TagGraph, TagNode};

fn details(id: usize, name: &str, parents: Vec<usize>) -> TagDetails {
    TagDetails { id, name: name.to_string(), parents }
}

/// 6 -> 5 -> 2 -> {1, 0}; 3 -> 2; 4 -> 2
fn sample() -> TagGraph {
    let mut g = TagGraph::new();
    g.insert(details(0, "TagA", vec![]));
    g.insert(details(1, "TagB", vec![]));
    g.insert(details(2, "TagC", vec![1, 0]));
    g.insert(details(3, "TagC1", vec![2]));
    g.insert(details(4, "TagC2", vec![2]));
    g.insert(details(5, "TagC3", vec![2]));
    g.insert(details(6, "TagC31", vec![5]));
    g
}

fn sorted(mut v: Vec<usize>) -> Vec<usize> {
    v.sort();
    v
}

#[test]
fn ancestors_reach_grandparents() {
    let g = sample();
    assert_eq!(sorted(g.get_ancestor_ids(6)), vec![0, 1, 2, 5]);
    assert_eq!(sorted(g.get_ancestor_ids(3)), vec![0, 1, 2]);
    assert_eq!(sorted(g.get_ancestor_ids(2)), vec![0, 1]);
    assert!(g.get_ancestor_ids(0).is_empty());
}

#[test]
fn ancestors_are_listed_once_in_a_diamond() {
    let mut g = TagGraph::new();
    g.insert(details(0, "root", vec![]));
    g.insert(details(1, "left", vec![0]));
    g.insert(details(2, "right", vec![0]));
    g.insert(details(3, "bottom", vec![1, 2, 1]));
    let a = g.get_ancestor_ids(3);
    assert_eq!(a.len(), 3);
    assert_eq!(sorted(a), vec![0, 1, 2]);
}

#[test]
fn ancestors_in_a_cycle_include_the_tag_itself() {
    let mut g = TagGraph::new();
    g.insert(details(1, "a", vec![2]));
    g.insert(details(2, "b", vec![1]));
    assert_eq!(sorted(g.get_ancestor_ids(1)), vec![1, 2]);
}

#[test]
fn parents_without_nodes_are_still_ancestors() {
    let mut g = TagGraph::new();
    g.insert(details(1, "a", vec![40, 41]));
    assert_eq!(sorted(g.get_ancestor_ids(1)), vec![40, 41]);
}

#[test]
fn parents_are_among_ancestors() {
    let g = sample();
    for id in 0..7 {
        let ancestors = g.get_ancestor_ids(id);
        for p in g.get_parent_ids(id) {
            assert!(ancestors.contains(&p));
        }
    }
}

#[test]
fn ancestors_of_ancestors_are_ancestors() {
    let g = sample();
    let a6 = g.get_ancestor_ids(6);
    for a in a6.clone() {
        if g.graph.contains_key(&a) {
            for b in g.get_ancestor_ids(a) {
                assert!(a6.contains(&b));
            }
        }
    }
}

#[test]
fn parent_ids_are_returned_in_order() {
    let g = sample();
    assert_eq!(g.get_parent_ids(2), vec![1, 0]);
    assert_eq!(g.get_parent_ids(0), Vec::<usize>::new());
}

#[test]
fn insert_replaces_and_reads_back() {
    let mut g = sample();
    g.insert(details(2, "Renamed", vec![4]));
    assert_eq!(g.get_parent_ids(2), vec![4]);
    assert_eq!(g.graph[&2].name, "Renamed");
    assert_eq!(g.graph[&2].colour, 0);
    assert_eq!(g.get_parent_ids(6), vec![5]);
}

#[test]
fn from_details_sets_colour_zero() {
    let node = TagNode::from(details(7, "seven", vec![1, 2]));
    assert_eq!(node.id, 7);
    assert_eq!(node.name, "seven");
    assert_eq!(node.parents, vec![1, 2]);
    assert_eq!(node.colour, 0);
    let iso = TagNode::new_isolated_node(8, "eight".to_string());
    assert!(iso.parents.is_empty());
    assert_eq!(iso.colour, 0);
}

#[test]
fn populate_from_rows() {
    let rows = vec![(0, 2), (1, 2), (2, 5), (5, 6), (0, 2)];
    let mut names = HashMap::new();
    for (id, n) in [(0, "A"), (1, "B"), (2, "C"), (5, "C3"), (6, "C31")] {
        names.insert(id, n.to_string());
    }
    let g = TagGraph::new_populated(&rows, &names);
    assert_eq!(g.graph.len(), 5);
    assert_eq!(g.get_parent_ids(2), vec![0, 1, 0]);
    assert_eq!(g.get_parent_ids(6), vec![5]);
    assert_eq!(g.get_parent_ids(0), Vec::<usize>::new());
    assert_eq!(g.graph[&5].name, "C3");
    assert_eq!(g.graph[&5].id, 5);
    assert_eq!(sorted(g.get_ancestor_ids(6)), vec![0, 1, 2, 5]);
}
