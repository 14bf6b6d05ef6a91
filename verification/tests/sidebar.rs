use forge::appstate::AppState;
use forge::collection::{Collection, CollectionItem, CollectionRequest, Folder};
use forge::sidebar::{flatten_tree, NodeKind};

fn state_with_tree() -> AppState {
    let mut state = AppState::default();
    let mut col = Collection::new("API".to_string());
    col.id = "col-1".to_string();
    let mut folder = Folder::new("Users".to_string());
    folder.id = "folder-1".to_string();
    let mut nested = CollectionRequest::new("List users".to_string());
    nested.id = "req-1".to_string();
    nested.method = "POST".to_string();
    folder.items.push(CollectionItem::Request(nested));
    col.items.push(CollectionItem::Folder(folder));
    let mut top = CollectionRequest::new("Ping".to_string());
    top.id = "req-2".to_string();
    col.items.push(CollectionItem::Request(top));
    state.workspace.collections.push(col);
    state
}

#[test]
fn test_flatten_tree_order_and_depth() {
    let state = state_with_tree();
    let nodes = flatten_tree(&state);
    assert_eq!(nodes.len(), 4);
    assert_eq!(nodes[0].id, "col-1");
    assert_eq!(nodes[0].depth, 0);
    assert!(matches!(nodes[0].kind, NodeKind::Collection { collapsed: false }));
    assert_eq!(nodes[1].id, "folder-1");
    assert_eq!(nodes[1].depth, 1);
    assert_eq!(nodes[2].id, "req-1");
    assert_eq!(nodes[2].depth, 2);
    match &nodes[2].kind {
        NodeKind::Request { method } => assert_eq!(method, "POST"),
        _ => panic!("expected request"),
    }
    assert_eq!(nodes[3].id, "req-2");
    assert_eq!(nodes[3].depth, 1);
}

#[test]
fn test_flatten_tree_collapse_hides_children() {
    let mut state = state_with_tree();
    state.sidebar.collapsed_ids.push("folder-1".to_string());
    let nodes = flatten_tree(&state);
    let ids: Vec<&str> = nodes.iter().map(|n| n.id.as_str()).collect();
    assert_eq!(ids, vec!["col-1", "folder-1", "req-2"]);
    state.sidebar.collapsed_ids.push("col-1".to_string());
    let nodes = flatten_tree(&state);
    let ids: Vec<&str> = nodes.iter().map(|n| n.id.as_str()).collect();
    assert_eq!(ids, vec!["col-1"]);
}

#[test]
fn test_flatten_tree_search_filters_and_ignores_collapse() {
    let mut state = state_with_tree();
    state.sidebar.collapsed_ids.push("col-1".to_string());
    state.sidebar.search_mode = true;
    state.sidebar.search_query = "USERS".to_string();
    let nodes = flatten_tree(&state);
    let ids: Vec<&str> = nodes.iter().map(|n| n.id.as_str()).collect();
    // matching is case-insensitive and collapse state is ignored
    assert_eq!(ids, vec!["folder-1", "req-1"]);
}

#[test]
fn test_flatten_tree_empty_search_shows_all() {
    let mut state = state_with_tree();
    state.sidebar.search_mode = true;
    state.sidebar.search_query = String::new();
    assert_eq!(flatten_tree(&state).len(), 4);
}
