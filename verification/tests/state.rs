use forge::appstate::{ActiveTab, AppState};
use forge::collection::{
    add_request_to_folder, find_col_request_by_id, find_collection_id_for_node,
    find_request_in_items, insert_after_in_list, item_exists_in_list, remove_item_from_list,
    rename_item_in_list, update_col_request_state, Collection, CollectionItem, CollectionRequest,
    Folder,
};
use forge::focus::Focus;
use forge::request::{cycle_method_next, cycle_method_prev, HttpMethod, KeyValuePair};
use forge::text::{cursor_row_col, pad_right};
use forge::workspace::RequestTab;

#[test]
fn test_http_method_round_trip() {
    let mut m = HttpMethod::Get;
    for _ in 0..7 {
        assert_eq!(HttpMethod::from_str_or_get(m.as_str()), m);
        m = m.next();
    }
    assert_eq!(m, HttpMethod::Get);
    assert_eq!(m.prev(), HttpMethod::Options);
    assert_eq!(HttpMethod::from_str_or_get("BREW"), HttpMethod::Get);
}

#[test]
fn test_cycle_method_strings() {
    assert_eq!(cycle_method_next("GET"), "POST");
    assert_eq!(cycle_method_next("OPTIONS"), "GET");
    assert_eq!(cycle_method_prev("GET"), "OPTIONS");
    assert_eq!(cycle_method_prev("POST"), "GET");
    // unknown names count as GET
    assert_eq!(cycle_method_next("BREW"), "POST");
}

#[test]
fn test_focus_and_tab_cycles() {
    let mut f = Focus::Sidebar;
    for _ in 0..6 {
        assert_eq!(f.next().prev(), f);
        f = f.next();
    }
    assert_eq!(f, Focus::Sidebar);
    let t = ActiveTab::Headers;
    assert_eq!(t.next(), ActiveTab::Body);
    assert_eq!(t.prev(), ActiveTab::Scripts);
}

#[test]
fn test_key_value_pair_new() {
    let p = KeyValuePair::new("k".to_string(), "v".to_string());
    assert_eq!(p.key, "k");
    assert_eq!(p.value, "v");
    assert!(p.enabled);
    assert_eq!(p.description, "");
}

#[test]
fn test_pad_right_cases() {
    assert_eq!(pad_right("ab", 5), "ab   ");
    assert_eq!(pad_right("abcdef", 3), "abc");
    assert_eq!(pad_right("ab", 0), "");
    assert_eq!(pad_right("", 2), "  ");
}

#[test]
fn test_cursor_row_col() {
    assert_eq!(cursor_row_col("hello", 3), (0, 3));
    assert_eq!(cursor_row_col("ab\ncd\nef", 4), (1, 1));
    assert_eq!(cursor_row_col("ab\ncd", 3), (1, 0));
    // a cursor past the end counts as the end
    assert_eq!(cursor_row_col("ab", 99), (0, 2));
}

fn sample_collection() -> Collection {
    let mut col = Collection::new("API".to_string());
    let mut folder = Folder::new("Users".to_string());
    folder.id = "folder-1".to_string();
    let mut req = CollectionRequest::new("List users".to_string());
    req.id = "req-1".to_string();
    folder.items.push(CollectionItem::Request(req));
    col.items.push(CollectionItem::Folder(folder));
    let mut top = CollectionRequest::new("Ping".to_string());
    top.id = "req-2".to_string();
    col.items.push(CollectionItem::Request(top));
    col
}

#[test]
fn test_item_exists_and_find() {
    let col = sample_collection();
    assert!(item_exists_in_list(&col.items, "req-1"));
    assert!(item_exists_in_list(&col.items, "folder-1"));
    assert!(!item_exists_in_list(&col.items, "missing"));
    let found = find_request_in_items(&col.items, "req-1").expect("nested request");
    assert_eq!(found.name, "List users");
    assert!(find_request_in_items(&col.items, "folder-1").is_none());
    let cols = vec![sample_collection()];
    assert_eq!(find_col_request_by_id(&cols, "req-2").unwrap().name, "Ping");
    assert!(find_col_request_by_id(&cols, "zzz").is_none());
}

#[test]
fn test_rename_item_in_list() {
    let mut col = sample_collection();
    assert!(rename_item_in_list(&mut col.items, "req-1", "Fetch users"));
    let found = find_request_in_items(&col.items, "req-1").unwrap();
    assert_eq!(found.name, "Fetch users");
    assert!(rename_item_in_list(&mut col.items, "folder-1", "People"));
    match &col.items[0] {
        CollectionItem::Folder(f) => assert_eq!(f.name, "People"),
        _ => panic!("expected folder"),
    }
    assert!(!rename_item_in_list(&mut col.items, "missing", "x"));
}

#[test]
fn test_remove_item_from_list() {
    let mut col = sample_collection();
    assert!(remove_item_from_list(&mut col.items, "req-1"));
    assert!(!item_exists_in_list(&col.items, "req-1"));
    // the folder itself stays
    assert!(item_exists_in_list(&col.items, "folder-1"));
    assert!(remove_item_from_list(&mut col.items, "folder-1"));
    assert!(!item_exists_in_list(&col.items, "folder-1"));
    assert!(!remove_item_from_list(&mut col.items, "gone"));
}

#[test]
fn test_insert_after_in_list() {
    let mut col = sample_collection();
    let mut extra = CollectionRequest::new("Extra".to_string());
    extra.id = "req-3".to_string();
    assert!(insert_after_in_list(
        &mut col.items,
        "req-1",
        CollectionItem::Request(extra),
    ));
    match &col.items[0] {
        CollectionItem::Folder(f) => {
            assert_eq!(f.items.len(), 2);
            match &f.items[1] {
                CollectionItem::Request(r) => assert_eq!(r.id, "req-3"),
                _ => panic!("expected request"),
            }
        },
        _ => panic!("expected folder"),
    }
}

#[test]
fn test_add_request_to_folder() {
    let mut col = sample_collection();
    let mut req = CollectionRequest::new("New".to_string());
    req.id = "req-9".to_string();
    assert!(add_request_to_folder(
        &mut col.items,
        "folder-1",
        CollectionItem::Request(req),
    ));
    match &col.items[0] {
        CollectionItem::Folder(f) => assert_eq!(f.items.len(), 2),
        _ => panic!("expected folder"),
    }
    let mut lost = CollectionRequest::new("Nowhere".to_string());
    lost.id = "req-10".to_string();
    assert!(!add_request_to_folder(
        &mut col.items,
        "no-folder",
        CollectionItem::Request(lost),
    ));
}

#[test]
fn test_update_col_request_state() {
    let mut col = sample_collection();
    assert!(update_col_request_state(
        &mut col.items,
        "req-1",
        "https://example.com/users",
        "POST",
        "{}",
    ));
    let r = find_request_in_items(&col.items, "req-1").unwrap();
    assert_eq!(r.url, "https://example.com/users");
    assert_eq!(r.method, "POST");
    assert_eq!(r.body_raw, "{}");
    assert_eq!(r.name, "List users");
}

#[test]
fn test_active_tab_lookup() {
    let mut state = AppState::default();
    assert!(state.active_tab().is_none());
    state.workspace.open_tabs.push(RequestTab::default());
    assert!(state.active_tab().is_some());
    state.workspace.active_tab_idx = 5;
    assert!(state.active_tab().is_none());
}

#[test]
fn test_find_collection_id_for_node() {
    let mut col = sample_collection();
    col.id = "col-1".to_string();
    let cols = vec![col];
    assert_eq!(find_collection_id_for_node(&cols, "col-1").as_deref(), Some("col-1"));
    assert_eq!(find_collection_id_for_node(&cols, "req-1").as_deref(), Some("col-1"));
    assert!(find_collection_id_for_node(&cols, "nope").is_none());
}

#[test]
fn test_open_tab_cycling_and_close() {
    let mut ws = forge::workspace::WorkspaceState::default();
    ws.open_tabs.push(RequestTab::default());
    ws.open_tabs.push(RequestTab::default());
    ws.open_tabs.push(RequestTab::default());
    assert_eq!(ws.active_tab_idx, 0);
    ws.next_open_tab();
    assert_eq!(ws.active_tab_idx, 1);
    ws.prev_open_tab();
    ws.prev_open_tab();
    assert_eq!(ws.active_tab_idx, 2);
    ws.close_active_tab();
    assert_eq!(ws.open_tabs.len(), 2);
    assert_eq!(ws.active_tab_idx, 1);
    ws.close_active_tab();
    ws.close_active_tab();
    // closing the last tab leaves a fresh one in place
    assert_eq!(ws.open_tabs.len(), 1);
    assert_eq!(ws.active_tab_idx, 0);
}
