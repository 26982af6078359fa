use petgraph::graph::Graph;
use std::collections::HashMap;
use uuid::Uuid;
use zettelkasten::errors::AppError;
use zettelkasten::identity::Timestamp;
use zettelkasten::zettel::MetaData;
use zettelkasten::{Kasten, Zettel};

fn note(id: u128, body: &str) -> Zettel {
    let mut z = Zettel::from_parts(
        MetaData { id, title: String::new(), creation_date: Timestamp { seconds: 0, nanos: 0 } },
        String::new(),
    );
    z.update_body(body.to_string());
    z
}

fn edges(k: &Kasten) -> Vec<(u128, u128)> {
    let g = k.index();
    g.raw_edges()
        .iter()
        .map(|e| (g[e.source()].as_u128(), g[e.target()].as_u128()))
        .collect()
}

#[test]
fn new_kasten_is_empty() {
    let k = Kasten::new();
    assert_eq!(k.index().node_count(), 0);
    assert_eq!(k.index().edge_count(), 0);
    assert!(k.meta_data().is_empty());
    assert!(k.dirty_ids().is_empty());
}

#[test]
fn root_note_is_added_and_found() {
    let mut k = Kasten::new();
    assert_eq!(k.add_zettel(note(1, "Root"), vec![]), Ok(()));
    assert_eq!(k.get_node_index(1), Ok(0));
    assert_eq!(k.meta_data()[&1].title, "Root");
    assert_eq!(k.get_zettel(1).unwrap().body, "Root");
}

#[test]
fn missing_parent_changes_nothing() {
    let mut k = Kasten::new();
    k.add_zettel(note(1, "Root"), vec![]).unwrap();
    let r = k.add_zettel(note(2, "Child"), vec![1, 99]);
    assert_eq!(r, Err(AppError::ZettelDoesntExistsError));
    assert_eq!(k.index().node_count(), 1);
    assert_eq!(k.index().edge_count(), 0);
    assert!(!k.meta_data().contains_key(&2));
    assert_eq!(k.get_zettel(2).unwrap_err(), AppError::ZettelDoesntExistsError);
}

#[test]
fn duplicate_identifier_is_refused() {
    let mut k = Kasten::new();
    k.add_zettel(note(1, "Parent"), vec![]).unwrap();
    k.add_zettel(note(2, "Child"), vec![1]).unwrap();
    let r = k.add_zettel(note(2, "Again"), vec![]);
    assert_eq!(r, Err(AppError::ZettelExistsError));
    assert_eq!(k.index().node_count(), 2);
    assert_eq!(k.index().edge_count(), 1);
    assert_eq!(k.meta_data()[&2].title, "Child");
}

#[test]
fn note_is_linked_to_every_parent() {
    let mut k = Kasten::new();
    k.add_zettel(note(10, "A"), vec![]).unwrap();
    k.add_zettel(note(20, "B"), vec![10]).unwrap();
    k.add_zettel(note(30, "C"), vec![10, 20]).unwrap();
    assert_eq!(edges(&k), vec![(10, 20), (10, 30), (20, 30)]);
    assert_eq!(k.get_node_index(30), Ok(2));
}

#[test]
fn unknown_identifier_has_no_node() {
    let k = Kasten::new();
    assert_eq!(k.get_node_index(5), Err(AppError::ZettelDoesntExistsError));
}

#[test]
fn update_zettel_overwrites_cache_and_metadata() {
    let mut k = Kasten::new();
    k.add_zettel(note(1, "first"), vec![]).unwrap();
    let mut z = k.get_zettel(1).unwrap();
    z.update_body("second\nmore".to_string());
    k.update_zettel(z);
    assert_eq!(k.meta_data()[&1].title, "second");
    assert_eq!(k.get_zettel(1).unwrap().body, "second\nmore");
    assert_eq!(k.index().node_count(), 1);
}

#[test]
fn only_dirty_notes_are_to_be_written() {
    let mut k = Kasten::new();
    k.add_zettel(note(1, "one"), vec![]).unwrap();
    k.add_zettel(note(2, "two"), vec![1]).unwrap();
    let mut ids = k.dirty_ids();
    ids.sort();
    assert_eq!(ids, vec![1, 2]);
    k.mark_clean(1);
    assert_eq!(k.dirty_ids(), vec![2]);
    assert!(!k.get_zettel(1).unwrap().dirty);
    k.mark_clean(2);
    assert!(k.dirty_ids().is_empty());
    let loaded = Zettel::from_parts(k.meta_data()[&1].clone(), "one".to_string());
    k.update_zettel(loaded);
    assert!(k.dirty_ids().is_empty());
}

#[test]
fn index_round_trip_keeps_graph_and_metadata() {
    let mut k = Kasten::new();
    k.add_zettel(note(1, "Root"), vec![]).unwrap();
    k.add_zettel(note(2, "Child"), vec![1]).unwrap();
    let k2 = Kasten::from_index(k.index().clone(), k.meta_data().clone()).unwrap();
    assert_eq!(edges(&k2), edges(&k));
    assert_eq!(k2.index().node_count(), 2);
    assert_eq!(k2.meta_data()[&1].title, "Root");
    assert_eq!(k2.meta_data()[&2].title, "Child");
    assert_eq!(k2.get_zettel(1).unwrap_err(), AppError::ZettelDoesntExistsError);
    assert!(k2.dirty_ids().is_empty());
}

#[test]
fn root_and_child_survive_json_export_and_import() {
    let mut s = Kasten::new();
    let root = Zettel::new("Root".to_string());
    let r = root.meta_data.id;
    s.add_zettel(root, vec![]).unwrap();
    let child = Zettel::new("Child".to_string());
    let c = child.meta_data.id;
    s.add_zettel(child, vec![r]).unwrap();

    let text = serde_json::to_string(s.index()).unwrap();
    let graph: Graph<Uuid, u8> = serde_json::from_str(&text).unwrap();
    let s2 = Kasten::from_index(graph, s.meta_data().clone()).unwrap();

    assert_eq!(edges(&s2), vec![(r, c)]);
    assert_eq!(s2.meta_data().len(), 2);
    assert_eq!(s2.meta_data()[&r].title, "Root");
    assert_eq!(s2.meta_data()[&c].title, "Child");
}

#[test]
fn index_with_repeated_identifier_is_rejected() {
    let mut g: Graph<Uuid, u8> = Graph::new();
    g.add_node(Uuid::from_u128(3));
    g.add_node(Uuid::from_u128(3));
    let r = Kasten::from_index(g, HashMap::new());
    assert!(matches!(r, Err(AppError::SerializationError { .. })));
}

#[test]
fn index_with_backward_edge_is_rejected() {
    let mut g: Graph<Uuid, u8> = Graph::new();
    let a = g.add_node(Uuid::from_u128(1));
    let b = g.add_node(Uuid::from_u128(2));
    g.add_edge(b, a, 0);
    let r = Kasten::from_index(g, HashMap::new());
    assert!(matches!(r, Err(AppError::SerializationError { .. })));
    let mut ok: Graph<Uuid, u8> = Graph::new();
    let x = ok.add_node(Uuid::from_u128(1));
    let y = ok.add_node(Uuid::from_u128(2));
    ok.add_edge(x, y, 0);
    assert!(Kasten::from_index(ok, HashMap::new()).is_ok());
}

#[test]
fn dot_lists_nodes_and_unlabelled_edges() {
    let mut k = Kasten::new();
    k.add_zettel(note(1, "Root"), vec![]).unwrap();
    k.add_zettel(note(2, "Child"), vec![1]).unwrap();
    let dot = k.dot();
    assert!(dot.starts_with("digraph {"));
    assert!(dot.contains("0 -> 1 [ ]"));
    assert!(dot.contains("00000000-0000-0000-0000-000000000001"));
}
