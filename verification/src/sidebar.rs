//! The sidebar's flat view of the collection trees: which nodes are
//! visible given the collapse state and an optional search query.

use vstd::prelude::*;

use crate::appstate::{key_views, AppState};
use crate::collection::{items_view, Collection, CollectionItem, ItemView};
use crate::text::{contains_seq, str_contains, str_eq_str};

verus! {

/// What kind of node one sidebar row shows.
#[derive(Debug, Clone)]
pub enum NodeKind {
    Collection { collapsed: bool },
    Folder { collapsed: bool },
    Request { method: String },
}

/// One visible row of the sidebar tree.
#[derive(Debug, Clone)]
pub struct SidebarNode {
    pub depth: u16,
    pub kind: NodeKind,
    pub id: String,
    pub label: String,
}

/// The mathematical model of a node's kind.
pub enum KindView {
    Collection { collapsed: bool },
    Folder { collapsed: bool },
    Request { method: Seq<char> },
}

/// The mathematical model of one sidebar row.
pub struct NodeView {
    pub depth: int,
    pub kind: KindView,
    pub id: Seq<char>,
    pub label: Seq<char>,
}

/// The model of one row.
pub open spec fn node_view(n: SidebarNode) -> NodeView {
    NodeView {
        depth: n.depth as int,
        kind: match n.kind {
            NodeKind::Collection { collapsed } => KindView::Collection { collapsed },
            NodeKind::Folder { collapsed } => KindView::Folder { collapsed },
            NodeKind::Request { method } => KindView::Request { method: method@ },
        },
        id: n.id@,
        label: n.label@,
    }
}

/// The model of a list of rows.
pub open spec fn nodes_view(v: Seq<SidebarNode>) -> Seq<NodeView> {
    v.map_values(|n: SidebarNode| node_view(n))
}

proof fn lemma_nodes_view_push(s: Seq<SidebarNode>, x: SidebarNode)
    ensures
        nodes_view(s.push(x)) == nodes_view(s) + seq![node_view(x)],
{
    assert forall|j: int| 0 <= j < s.len() + 1 implies nodes_view(s.push(x))[j] == (nodes_view(s)
        + seq![node_view(x)])[j] by {
        if j < s.len() {
            assert(s.push(x)[j] == s[j]);
        } else {
            assert(s.push(x)[j] == x);
        }
    }
    assert(nodes_view(s.push(x)) =~= nodes_view(s) + seq![node_view(x)]);
}

/// Is this id in the collapsed set?
pub open spec fn ids_contain(ids: Seq<Seq<char>>, id: Seq<char>) -> bool {
    exists|i: int| 0 <= i < ids.len() && ids[i] == id
}

fn id_in_list(ids: &Vec<String>, id: &str) -> (r: bool)
    ensures
        r == ids_contain(key_views(ids@), id@),
{
    let n = ids.len();
    let mut k: usize = 0;
    while k < n
        invariant
            n == ids@.len(),
            k <= n,
            forall|j: int| 0 <= j < k ==> ids@[j]@ != id@,
        decreases n - k,
    {
        if str_eq_str(ids[k].as_str(), id) {
            proof {
                assert(key_views(ids@)[k as int] == id@);
            }
            return true;
        }
        k = k + 1;
    }
    proof {
        assert forall|i: int| 0 <= i < ids@.len() implies key_views(ids@)[i] != id@ by {
            assert(key_views(ids@)[i] == ids@[i]@);
        }
    }
    false
}

/// What lower-casing yields for a string: a deterministic function of its
/// characters alone.
pub uninterp spec fn lower_of(s: Seq<char>) -> Seq<char>;

/// Relies on `str::to_lowercase`: the result depends on the characters
/// alone; an empty string stays empty.
#[verifier::external_body]
fn lowercase(s: &str) -> (r: String)
    ensures
        r@ == lower_of(s@),
        s@.len() == 0 ==> r@.len() == 0,
{
    s.to_lowercase()
}

/// Does this label match the (already lower-cased) query?
pub open spec fn label_matches(label: Seq<char>, query: Seq<char>) -> bool {
    contains_seq(lower_of(label), query)
}

/// One level deeper, capped at the widest depth a row can carry.
pub open spec fn deeper(depth: int) -> int {
    if depth < 65535 {
        depth + 1
    } else {
        depth
    }
}

/// The visible rows for a list of tree nodes: a folder shows when not
/// searching, or when its name matches; its children show when it is not
/// collapsed or a search is on; a request shows unless a search is on and
/// its name does not match.
pub open spec fn push_items_spec(
    items: Seq<ItemView>,
    depth: int,
    collapsed: Seq<Seq<char>>,
    query: Seq<char>,
    searching: bool,
) -> Seq<NodeView>
    decreases items,
{
    if items.len() == 0 {
        Seq::empty()
    } else {
        let head: Seq<NodeView> = match items[0] {
            ItemView::Folder { id, name, items: fitems } => {
                let coll = ids_contain(collapsed, id);
                let own: Seq<NodeView> = if !searching || (searching && label_matches(
                    name,
                    query,
                )) {
                    seq![NodeView {
                        depth,
                        kind: KindView::Folder {
                            collapsed: if searching {
                                false
                            } else {
                                coll
                            },
                        },
                        id,
                        label: name,
                    }]
                } else {
                    Seq::empty()
                };
                let kids: Seq<NodeView> = if !coll || searching {
                    push_items_spec(fitems, deeper(depth), collapsed, query, searching)
                } else {
                    Seq::empty()
                };
                own + kids
            },
            ItemView::Request { id, name, method, .. } => {
                if searching && !label_matches(name, query) {
                    Seq::empty()
                } else {
                    seq![NodeView { depth, kind: KindView::Request { method }, id, label: name }]
                }
            },
        };
        head + push_items_spec(items.drop_first(), depth, collapsed, query, searching)
    }
}

/// The visible rows of whole collections: a collection's own row shows
/// when not searching (with its collapse state) or when its name matches
/// (expanded); its children show when it is not collapsed or a search is
/// on.
pub open spec fn flatten_spec(
    cols: Seq<Collection>,
    collapsed: Seq<Seq<char>>,
    query: Seq<char>,
    searching: bool,
) -> Seq<NodeView>
    decreases cols,
{
    if cols.len() == 0 {
        Seq::empty()
    } else {
        let c = cols[0];
        let coll = ids_contain(collapsed, c.id@);
        let own: Seq<NodeView> = if !searching {
            seq![NodeView {
                depth: 0,
                kind: KindView::Collection { collapsed: coll },
                id: c.id@,
                label: c.name@,
            }]
        } else if label_matches(c.name@, query) {
            seq![NodeView {
                depth: 0,
                kind: KindView::Collection { collapsed: false },
                id: c.id@,
                label: c.name@,
            }]
        } else {
            Seq::empty()
        };
        let kids: Seq<NodeView> = if !coll || searching {
            push_items_spec(items_view(c.items@), 1, collapsed, query, searching)
        } else {
            Seq::empty()
        };
        own + kids + flatten_spec(cols.drop_first(), collapsed, query, searching)
    }
}

fn push_items(
    items: &Vec<CollectionItem>,
    depth: u16,
    out: &mut Vec<SidebarNode>,
    collapsed_ids: &Vec<String>,
    query: &str,
    searching: bool,
)
    ensures
        nodes_view(final(out)@) == nodes_view(old(out)@) + push_items_spec(
            items_view(items@),
            depth as int,
            key_views(collapsed_ids@),
            query@,
            searching,
        ),
    decreases *items,
{
    let ghost vs = items_view(items@);
    let ghost cset = key_views(collapsed_ids@);
    let ghost base = nodes_view(out@);
    let n = items.len();
    let mut k: usize = 0;
    proof {
        crate::collection::lemma_items_view_index(items@);
        assert(vs.skip(0) =~= vs);
        assert(base + push_items_spec(vs.skip(0), depth as int, cset, query@, searching)
            =~= base + push_items_spec(vs, depth as int, cset, query@, searching));
    }
    while k < n
        invariant
            vs == items_view(items@),
            cset == key_views(collapsed_ids@),
            n == items@.len(),
            vs.len() == n,
            forall|j: int|
                0 <= j < n ==> vs[j] == crate::collection::item_view(#[trigger] items@[j]),
            k <= n,
            base + push_items_spec(vs, depth as int, cset, query@, searching) == nodes_view(out@)
                + push_items_spec(vs.skip(k as int), depth as int, cset, query@, searching),
        decreases n - k,
    {
        proof {
            let sub = vs.skip(k as int);
            assert(sub[0] == vs[k as int]);
            assert(sub.drop_first() =~= vs.skip(k + 1));
            assert(decreases_to!(*items => items@[k as int]));
        }
        match &items[k] {
            CollectionItem::Folder(f) => {
                proof {
                    assert(items@[k as int] == CollectionItem::Folder(*f));
                    assert(vs[k as int] == crate::collection::item_view(items@[k as int]));
                }
                let collapsed = id_in_list(collapsed_ids, f.id.as_str());
                let lowered = lowercase(f.name.as_str());
                let folder_match = searching && str_contains(lowered.as_str(), query);
                let ghost before_own = nodes_view(out@);
                if !searching || folder_match {
                    let node = SidebarNode {
                        depth,
                        kind: NodeKind::Folder {
                            collapsed: if searching {
                                false
                            } else {
                                collapsed
                            },
                        },
                        id: f.id.clone(),
                        label: f.name.clone(),
                    };
                    let ghost b = out@;
                    out.push(node);
                    proof {
                        lemma_nodes_view_push(b, node);
                    }
                }
                if !collapsed || searching {
                    let d2 = if depth < 65535 {
                        depth + 1
                    } else {
                        depth
                    };
                    push_items(&f.items, d2, out, collapsed_ids, query, searching);
                }
                proof {
                    assert(nodes_view(out@) =~= before_own + (match vs[k as int] {
                        ItemView::Folder { id, name, items: fitems } => {
                            let coll = ids_contain(cset, id);
                            let own: Seq<NodeView> = if !searching || (searching && label_matches(
                                name,
                                query@,
                            )) {
                                seq![NodeView {
                                    depth: depth as int,
                                    kind: KindView::Folder {
                                        collapsed: if searching {
                                            false
                                        } else {
                                            coll
                                        },
                                    },
                                    id,
                                    label: name,
                                }]
                            } else {
                                Seq::empty()
                            };
                            let kids: Seq<NodeView> = if !coll || searching {
                                push_items_spec(fitems, deeper(depth as int), cset, query@, searching)
                            } else {
                                Seq::empty()
                            };
                            own + kids
                        },
                        _ => Seq::empty(),
                    }));
                }
            },
            CollectionItem::Request(rq) => {
                proof {
                    assert(items@[k as int] == CollectionItem::Request(*rq));
                    assert(vs[k as int] == crate::collection::item_view(items@[k as int]));
                }
                let lowered = lowercase(rq.name.as_str());
                let hide = searching && !str_contains(lowered.as_str(), query);
                if !hide {
                    let node = SidebarNode {
                        depth,
                        kind: NodeKind::Request { method: rq.method.clone() },
                        id: rq.id.clone(),
                        label: rq.name.clone(),
                    };
                    let ghost b = out@;
                    out.push(node);
                    proof {
                        lemma_nodes_view_push(b, node);
                    }
                }
            },
        }
        proof {
            assert(nodes_view(out@) + push_items_spec(
                vs.skip(k + 1),
                depth as int,
                cset,
                query@,
                searching,
            ) =~= base + push_items_spec(vs, depth as int, cset, query@, searching));
        }
        k = k + 1;
    }
    proof {
        assert(push_items_spec(vs.skip(n as int), depth as int, cset, query@, searching)
            =~= Seq::<NodeView>::empty());
        assert(nodes_view(out@) =~= base + push_items_spec(
            vs,
            depth as int,
            cset,
            query@,
            searching,
        ));
    }
}

/// Walk the workspace collections and produce the flat ordered list of
/// visible rows. Collapsed collections and folders hide their children;
/// with a non-empty search query only rows whose label contains the
/// query are shown, and search ignores collapse state.
pub fn flatten_tree(state: &AppState) -> (r: Vec<SidebarNode>)
    ensures
        ({
            let query = lower_of(state.sidebar.search_query@);
            let searching = state.sidebar.search_mode && query.len() > 0;
            nodes_view(r@) == flatten_spec(
                state.workspace.collections@,
                key_views(state.sidebar.collapsed_ids@),
                query,
                searching,
            )
        }),
{
    let query = lowercase(state.sidebar.search_query.as_str());
    let searching = state.sidebar.search_mode && query.as_str().unicode_len() > 0;
    let ghost cols = state.workspace.collections@;
    let ghost cset = key_views(state.sidebar.collapsed_ids@);
    let mut out: Vec<SidebarNode> = Vec::new();
    let n = state.workspace.collections.len();
    let mut k: usize = 0;
    proof {
        assert(cols.skip(0) =~= cols);
        assert(nodes_view(out@) + flatten_spec(cols.skip(0), cset, query@, searching)
            =~= flatten_spec(cols, cset, query@, searching));
    }
    while k < n
        invariant
            cols == state.workspace.collections@,
            cset == key_views(state.sidebar.collapsed_ids@),
            n == cols.len(),
            k <= n,
            query@ == lower_of(state.sidebar.search_query@),
            searching == (state.sidebar.search_mode && lower_of(
                state.sidebar.search_query@,
            ).len() > 0),
            nodes_view(out@) + flatten_spec(cols.skip(k as int), cset, query@, searching)
                == flatten_spec(cols, cset, query@, searching),
        decreases n - k,
    {
        proof {
            let sub = cols.skip(k as int);
            assert(sub[0] == cols[k as int]);
            assert(sub.drop_first() =~= cols.skip(k + 1));
        }
        let col = &state.workspace.collections[k];
        let collapsed = id_in_list(&state.sidebar.collapsed_ids, col.id.as_str());
        let ghost before_own = nodes_view(out@);
        if !searching {
            let node = SidebarNode {
                depth: 0,
                kind: NodeKind::Collection { collapsed },
                id: col.id.clone(),
                label: col.name.clone(),
            };
            let ghost b = out@;
            out.push(node);
            proof {
                lemma_nodes_view_push(b, node);
            }
        } else {
            let lowered = lowercase(col.name.as_str());
            if str_contains(lowered.as_str(), query.as_str()) {
                let node = SidebarNode {
                    depth: 0,
                    kind: NodeKind::Collection { collapsed: false },
                    id: col.id.clone(),
                    label: col.name.clone(),
                };
                let ghost b = out@;
                out.push(node);
                proof {
                    lemma_nodes_view_push(b, node);
                }
            }
        }
        if !collapsed || searching {
            push_items(&col.items, 1, &mut out, &state.sidebar.collapsed_ids, query.as_str(), searching);
        }
        proof {
            assert(nodes_view(out@) + flatten_spec(cols.skip(k + 1), cset, query@, searching)
                =~= before_own + flatten_spec(cols.skip(k as int), cset, query@, searching));
        }
        k = k + 1;
    }
    proof {
        assert(flatten_spec(cols.skip(n as int), cset, query@, searching)
            =~= Seq::<NodeView>::empty());
        assert(nodes_view(out@) =~= flatten_spec(cols, cset, query@, searching));
    }
    out
}

} // verus!
