//! Collections: trees of folders and saved requests, with the operations
//! the sidebar performs on them.
//!
//! Tree values are compared through `ItemView`, a mathematical model of a
//! node in which every string is a sequence of characters; every operation
//! here is specified as a transform on that model.

use vstd::prelude::*;

use crate::ids::new_id;
use crate::text::str_eq_str;

verus! {

/// A saved request inside a collection.
#[derive(Debug)]
pub struct CollectionRequest {
    pub id: String,
    pub name: String,
    pub method: String,
    pub url: String,
    pub body_raw: String,
}

impl CollectionRequest {
    /// A fresh GET request. The id is freshly drawn, so nothing is
    /// promised of it.
    pub fn new(name: String) -> (r: CollectionRequest)
        ensures
            r.name == name,
            r.method@ == "GET"@,
            r.url@ == Seq::<char>::empty(),
            r.body_raw@ == Seq::<char>::empty(),
    {
        CollectionRequest {
            id: new_id(),
            name,
            method: "GET".to_owned(),
            url: String::new(),
            body_raw: String::new(),
        }
    }
}

impl Clone for CollectionRequest {
    fn clone(&self) -> (res: Self)
        ensures
            res == *self,
    {
        CollectionRequest {
            id: self.id.clone(),
            name: self.name.clone(),
            method: self.method.clone(),
            url: self.url.clone(),
            body_raw: self.body_raw.clone(),
        }
    }
}

/// A folder inside a collection.
#[derive(Debug)]
pub struct Folder {
    pub id: String,
    pub name: String,
    pub items: Vec<CollectionItem>,
}

impl Folder {
    /// A fresh empty folder. The id is freshly drawn, so nothing is
    /// promised of it.
    pub fn new(name: String) -> (r: Folder)
        ensures
            r.name == name,
            r.items@ == Seq::<CollectionItem>::empty(),
    {
        Folder { id: new_id(), name, items: Vec::new() }
    }
}

/// One node of a collection tree.
#[derive(Debug)]
pub enum CollectionItem {
    Folder(Folder),
    Request(CollectionRequest),
}

/// A named collection of folders and requests.
#[derive(Debug)]
pub struct Collection {
    pub id: String,
    pub name: String,
    pub items: Vec<CollectionItem>,
}

impl Collection {
    /// A fresh empty collection. The id is freshly drawn, so nothing is
    /// promised of it.
    pub fn new(name: String) -> (r: Collection)
        ensures
            r.name == name,
            r.items@ == Seq::<CollectionItem>::empty(),
    {
        Collection { id: new_id(), name, items: Vec::new() }
    }
}

/// The mathematical model of one tree node.
pub enum ItemView {
    Folder { id: Seq<char>, name: Seq<char>, items: Seq<ItemView> },
    Request {
        id: Seq<char>,
        name: Seq<char>,
        method: Seq<char>,
        url: Seq<char>,
        body_raw: Seq<char>,
    },
}

/// The model of one node.
pub open spec fn item_view(item: CollectionItem) -> ItemView
    decreases item,
{
    match item {
        CollectionItem::Folder(f) => ItemView::Folder {
            id: f.id@,
            name: f.name@,
            items: items_view(f.items@),
        },
        CollectionItem::Request(r) => ItemView::Request {
            id: r.id@,
            name: r.name@,
            method: r.method@,
            url: r.url@,
            body_raw: r.body_raw@,
        },
    }
}

/// The model of a list of nodes.
pub open spec fn items_view(items: Seq<CollectionItem>) -> Seq<ItemView>
    decreases items,
{
    if items.len() == 0 {
        Seq::empty()
    } else {
        seq![item_view(items[0])] + items_view(items.drop_first())
    }
}

/// The model keeps lengths and maps elements pointwise.
pub proof fn lemma_items_view_index(items: Seq<CollectionItem>)
    ensures
        items_view(items).len() == items.len(),
        forall|k: int|
            0 <= k < items.len() ==> items_view(items)[k] == item_view(#[trigger] items[k]),
    decreases items,
{
    if items.len() > 0 {
        lemma_items_view_index(items.drop_first());
        assert forall|k: int| 0 <= k < items.len() implies items_view(items)[k] == item_view(
            #[trigger] items[k],
        ) by {
            if k > 0 {
                assert(items.drop_first()[k - 1] == items[k]);
            }
        }
    }
}

/// Deep copy of one tree node, with the same model.
pub fn clone_item(item: &CollectionItem) -> (res: CollectionItem)
    ensures
        item_view(res) == item_view(*item),
    decreases *item,
{
    match item {
        CollectionItem::Folder(f) => CollectionItem::Folder(
            Folder { id: f.id.clone(), name: f.name.clone(), items: clone_items(&f.items) },
        ),
        CollectionItem::Request(r) => CollectionItem::Request(r.clone()),
    }
}

/// Deep copy of a list of tree nodes, with the same model.
pub fn clone_items(items: &Vec<CollectionItem>) -> (res: Vec<CollectionItem>)
    ensures
        items_view(res@) == items_view(items@),
    decreases *items,
{
    let n = items.len();
    let mut out: Vec<CollectionItem> = Vec::new();
    let mut k: usize = 0;
    proof {
        lemma_items_view_index(out@);
        lemma_items_view_index(items@.take(0));
        assert(items_view(out@) =~= items_view(items@.take(0)));
    }
    while k < n
        invariant
            n == items@.len(),
            k <= n,
            out@.len() == k,
            items_view(out@) == items_view(items@.take(k as int)),
        decreases n - k,
    {
        proof {
            assert(decreases_to!(*items => items@[k as int]));
        }
        let c = clone_item(&items[k]);
        let ghost before = out@;
        out.push(c);
        proof {
            lemma_items_view_push(before, c);
            lemma_items_view_push(items@.take(k as int), items@[k as int]);
            assert(items@.take(k + 1) =~= items@.take(k as int).push(items@[k as int]));
        }
        k = k + 1;
    }
    proof {
        assert(items@.take(n as int) =~= items@);
    }
    out
}

impl Clone for CollectionItem {
    fn clone(&self) -> (res: Self)
        ensures
            item_view(res) == item_view(*self),
    {
        clone_item(self)
    }
}

impl Clone for Folder {
    fn clone(&self) -> (res: Self)
        ensures
            res.id == self.id,
            res.name == self.name,
            items_view(res.items@) == items_view(self.items@),
    {
        Folder { id: self.id.clone(), name: self.name.clone(), items: clone_items(&self.items) }
    }
}

impl Clone for Collection {
    fn clone(&self) -> (res: Self)
        ensures
            res.id == self.id,
            res.name == self.name,
            items_view(res.items@) == items_view(self.items@),
    {
        Collection {
            id: self.id.clone(),
            name: self.name.clone(),
            items: clone_items(&self.items),
        }
    }
}

/// The id a node carries.
pub open spec fn node_id(item: ItemView) -> Seq<char> {
    match item {
        ItemView::Folder { id, .. } => id,
        ItemView::Request { id, .. } => id,
    }
}

/// Does this node, or any node below it, carry the given id?
pub open spec fn one_contains(item: ItemView, id: Seq<char>) -> bool
    decreases item,
{
    match item {
        ItemView::Folder { id: fid, items, .. } => fid == id || items_contain(items, id),
        ItemView::Request { id: rid, .. } => rid == id,
    }
}

/// Does any node of these trees carry the given id?
pub open spec fn items_contain(items: Seq<ItemView>, id: Seq<char>) -> bool
    decreases items,
{
    if items.len() == 0 {
        false
    } else {
        one_contains(items[0], id) || items_contain(items.drop_first(), id)
    }
}

/// Is an item with this id anywhere in the list's trees?
pub fn item_exists_in_list(items: &Vec<CollectionItem>, id: &str) -> (r: bool)
    ensures
        r == items_contain(items_view(items@), id@),
    decreases *items,
{
    let ghost vs = items_view(items@);
    let n = items.len();
    let mut k: usize = 0;
    proof {
        lemma_items_view_index(items@);
        assert(vs.skip(0) =~= vs);
    }
    while k < n
        invariant
            vs == items_view(items@),
            n == items@.len(),
            vs.len() == n,
            forall|j: int| 0 <= j < n ==> vs[j] == item_view(#[trigger] items@[j]),
            k <= n,
            items_contain(vs, id@) == items_contain(vs.skip(k as int), id@),
        decreases n - k,
    {
        proof {
            let sub = vs.skip(k as int);
            assert(sub[0] == vs[k as int]);
            assert(sub.drop_first() =~= vs.skip(k + 1));
            assert(decreases_to!(*items => items@[k as int]));
        }
        match &items[k] {
            CollectionItem::Folder(f) => {
                proof {
                    assert(items@[k as int] == CollectionItem::Folder(*f));
                    assert(vs[k as int] == item_view(items@[k as int]));
                }
                if str_eq_str(f.id.as_str(), id) {
                    proof {
                        assert(one_contains(vs[k as int], id@));
                        assert(items_contain(vs.skip(k as int), id@));
                    }
                    return true;
                }
                if item_exists_in_list(&f.items, id) {
                    proof {
                        assert(one_contains(vs[k as int], id@));
                        assert(items_contain(vs.skip(k as int), id@));
                    }
                    return true;
                }
                proof {
                    assert(!one_contains(vs[k as int], id@));
                }
            },
            CollectionItem::Request(r) => {
                proof {
                    assert(items@[k as int] == CollectionItem::Request(*r));
                    assert(vs[k as int] == item_view(items@[k as int]));
                }
                if str_eq_str(r.id.as_str(), id) {
                    proof {
                        assert(one_contains(vs[k as int], id@));
                        assert(items_contain(vs.skip(k as int), id@));
                    }
                    return true;
                }
                proof {
                    assert(!one_contains(vs[k as int], id@));
                }
            },
        }
        proof {
            assert(items_contain(vs.skip(k as int), id@) == items_contain(
                vs.skip(k + 1),
                id@,
            ));
        }
        k = k + 1;
    }
    proof {
        assert(vs.skip(n as int) =~= Seq::<ItemView>::empty());
    }
    false
}

/// The model of the request with this id in one subtree, if any.
pub open spec fn find_in_one(item: ItemView, id: Seq<char>) -> Option<ItemView>
    decreases item,
{
    match item {
        ItemView::Request { id: rid, .. } => if rid == id {
            Some(item)
        } else {
            None
        },
        ItemView::Folder { items, .. } => find_request_spec(items, id),
    }
}

/// The model of the first request with this id in these trees, if any.
pub open spec fn find_request_spec(items: Seq<ItemView>, id: Seq<char>) -> Option<ItemView>
    decreases items,
{
    if items.len() == 0 {
        None
    } else {
        match find_in_one(items[0], id) {
            Some(r) => Some(r),
            None => find_request_spec(items.drop_first(), id),
        }
    }
}

/// Find the request with this id in the list's trees.
pub fn find_request_in_items<'a>(items: &'a Vec<CollectionItem>, id: &str) -> (r: Option<
    &'a CollectionRequest,
>)
    ensures
        match r {
            Some(req) => find_request_spec(items_view(items@), id@) == Some(
                item_view(CollectionItem::Request(*req)),
            ),
            None => find_request_spec(items_view(items@), id@) is None,
        },
    decreases *items,
{
    let ghost vs = items_view(items@);
    let n = items.len();
    let mut k: usize = 0;
    proof {
        lemma_items_view_index(items@);
        assert(vs.skip(0) =~= vs);
    }
    while k < n
        invariant
            vs == items_view(items@),
            n == items@.len(),
            vs.len() == n,
            forall|j: int| 0 <= j < n ==> vs[j] == item_view(#[trigger] items@[j]),
            k <= n,
            find_request_spec(vs, id@) == find_request_spec(vs.skip(k as int), id@),
        decreases n - k,
    {
        proof {
            let sub = vs.skip(k as int);
            assert(sub[0] == vs[k as int]);
            assert(sub.drop_first() =~= vs.skip(k + 1));
            assert(decreases_to!(*items => items@[k as int]));
        }
        match &items[k] {
            CollectionItem::Request(req) => {
                proof {
                    assert(items@[k as int] == CollectionItem::Request(*req));
                    assert(vs[k as int] == item_view(items@[k as int]));
                }
                if str_eq_str(req.id.as_str(), id) {
                    proof {
                        assert(find_in_one(vs[k as int], id@) == Some(vs[k as int]));
                        assert(find_request_spec(vs.skip(k as int), id@) == Some(
                            vs[k as int],
                        ));
                    }
                    return Some(req);
                }
                proof {
                    assert(find_in_one(vs[k as int], id@) is None);
                }
            },
            CollectionItem::Folder(f) => {
                proof {
                    assert(items@[k as int] == CollectionItem::Folder(*f));
                    assert(vs[k as int] == item_view(items@[k as int]));
                }
                let found = find_request_in_items(&f.items, id);
                if found.is_some() {
                    proof {
                        assert(find_in_one(vs[k as int], id@) == find_request_spec(
                            items_view(f.items@),
                            id@,
                        ));
                    }
                    return found;
                }
                proof {
                    assert(find_in_one(vs[k as int], id@) is None);
                }
            },
        }
        proof {
            assert(find_request_spec(vs.skip(k as int), id@) == find_request_spec(
                vs.skip(k + 1),
                id@,
            ));
        }
        k = k + 1;
    }
    proof {
        assert(vs.skip(n as int) =~= Seq::<ItemView>::empty());
    }
    None
}

/// The model of the first request with this id across collections.
pub open spec fn find_col_request_spec(cols: Seq<Seq<ItemView>>, id: Seq<char>) -> Option<
    ItemView,
>
    decreases cols,
{
    if cols.len() == 0 {
        None
    } else {
        match find_request_spec(cols[0], id) {
            Some(r) => Some(r),
            None => find_col_request_spec(cols.drop_first(), id),
        }
    }
}

/// The models of all collections' item lists.
pub open spec fn collections_view(cols: Seq<Collection>) -> Seq<Seq<ItemView>> {
    cols.map_values(|c: Collection| items_view(c.items@))
}

/// Find the request with this id across all collections; the first
/// collection containing it wins.
pub fn find_col_request_by_id<'a>(collections: &'a Vec<Collection>, id: &str) -> (r: Option<
    &'a CollectionRequest,
>)
    ensures
        match r {
            Some(req) => find_col_request_spec(collections_view(collections@), id@) == Some(
                item_view(CollectionItem::Request(*req)),
            ),
            None => find_col_request_spec(collections_view(collections@), id@) is None,
        },
{
    let ghost vs = collections_view(collections@);
    let n = collections.len();
    let mut k: usize = 0;
    proof {
        assert(vs.skip(0) =~= vs);
    }
    while k < n
        invariant
            vs == collections_view(collections@),
            n == collections@.len(),
            vs.len() == n,
            k <= n,
            find_col_request_spec(vs, id@) == find_col_request_spec(vs.skip(k as int), id@),
        decreases n - k,
    {
        proof {
            let sub = vs.skip(k as int);
            assert(sub[0] == vs[k as int]);
            assert(sub.drop_first() =~= vs.skip(k + 1));
        }
        let found = find_request_in_items(&collections[k].items, id);
        if found.is_some() {
            return found;
        }
        k = k + 1;
    }
    proof {
        assert(vs.skip(n as int) =~= Seq::<Seq<ItemView>>::empty());
    }
    None
}


proof fn lemma_items_view_push(s: Seq<CollectionItem>, x: CollectionItem)
    ensures
        items_view(s.push(x)) == items_view(s) + seq![item_view(x)],
{
    lemma_items_view_index(s.push(x));
    lemma_items_view_index(s);
    assert forall|j: int| 0 <= j < s.len() + 1 implies items_view(s.push(x))[j] == (items_view(s)
        + seq![item_view(x)])[j] by {
        if j < s.len() {
            assert(s.push(x)[j] == s[j]);
        } else {
            assert(s.push(x)[j] == x);
        }
    }
    assert(items_view(s.push(x)) =~= items_view(s) + seq![item_view(x)]);
}

/// Renaming in a list of trees: the first node carrying the id — a folder
/// checked before its children, children before later siblings — gets the
/// new name; everything else is unchanged. The flag says whether a node
/// was found.
pub open spec fn rename_items_view(items: Seq<ItemView>, id: Seq<char>, name: Seq<char>) -> (
    bool,
    Seq<ItemView>,
)
    decreases items,
{
    if items.len() == 0 {
        (false, items)
    } else {
        match items[0] {
            ItemView::Folder { id: fid, name: fname, items: fitems } => {
                if fid == id {
                    (true, seq![ItemView::Folder { id: fid, name: name, items: fitems }]
                        + items.drop_first())
                } else {
                    let sub = rename_items_view(fitems, id, name);
                    if sub.0 {
                        (true, seq![ItemView::Folder { id: fid, name: fname, items: sub.1 }]
                            + items.drop_first())
                    } else {
                        let rest = rename_items_view(items.drop_first(), id, name);
                        (rest.0, seq![items[0]] + rest.1)
                    }
                }
            },
            ItemView::Request { id: rid, name: rname, method, url, body_raw } => {
                if rid == id {
                    (true, seq![ItemView::Request {
                        id: rid,
                        name: name,
                        method: method,
                        url: url,
                        body_raw: body_raw,
                    }] + items.drop_first())
                } else {
                    let rest = rename_items_view(items.drop_first(), id, name);
                    (rest.0, seq![items[0]] + rest.1)
                }
            },
        }
    }
}

fn rename_items_in(items: &Vec<CollectionItem>, id: &str, name: &str) -> (res: (
    bool,
    Vec<CollectionItem>,
))
    ensures
        (res.0, items_view(res.1@)) == rename_items_view(items_view(items@), id@, name@),
    decreases *items,
{
    let ghost vs = items_view(items@);
    let ghost target = rename_items_view(vs, id@, name@);
    let n = items.len();
    let mut out: Vec<CollectionItem> = Vec::new();
    let mut found = false;
    let mut k: usize = 0;
    proof {
        lemma_items_view_index(items@);
        lemma_items_view_index(out@);
        assert(vs.skip(0) =~= vs);
        assert(items_view(out@) =~= vs.take(0));
        assert(vs.take(0) + rename_items_view(vs.skip(0), id@, name@).1 =~= rename_items_view(
            vs.skip(0),
            id@,
            name@,
        ).1);
    }
    while k < n
        invariant
            vs == items_view(items@),
            target == rename_items_view(vs, id@, name@),
            n == items@.len(),
            vs.len() == n,
            forall|j: int| 0 <= j < n ==> vs[j] == item_view(#[trigger] items@[j]),
            k <= n,
            out@.len() == k,
            !found ==> items_view(out@) == vs.take(k as int),
            !found ==> target.0 == rename_items_view(vs.skip(k as int), id@, name@).0,
            !found ==> target.1 == vs.take(k as int) + rename_items_view(
                vs.skip(k as int),
                id@,
                name@,
            ).1,
            found ==> target.0 == true,
            found ==> target.1 == items_view(out@) + vs.skip(k as int),
        decreases n - k,
    {
        proof {
            let sub = vs.skip(k as int);
            assert(sub[0] == vs[k as int]);
            assert(sub.drop_first() =~= vs.skip(k + 1));
            assert(vs.take(k + 1) =~= vs.take(k as int).push(vs[k as int]));
            assert(decreases_to!(*items => items@[k as int]));
        }
        let ghost out_before = out@;
        if found {
            let c = clone_item(&items[k]);
            out.push(c);
            proof {
                lemma_items_view_push(out_before, c);
                assert(items_view(out@) + vs.skip(k + 1) =~= items_view(out_before) + vs.skip(
                    k as int,
                ));
            }
        } else {
            match &items[k] {
                CollectionItem::Folder(f) => {
                    proof {
                        assert(items@[k as int] == CollectionItem::Folder(*f));
                        assert(vs[k as int] == item_view(items@[k as int]));
                    }
                    if str_eq_str(f.id.as_str(), id) {
                        let c = CollectionItem::Folder(
                            Folder {
                                id: f.id.clone(),
                                name: name.to_owned(),
                                items: clone_items(&f.items),
                            },
                        );
                        out.push(c);
                        found = true;
                        proof {
                            lemma_items_view_push(out_before, c);
                            assert(items_view(out@) + vs.skip(k + 1) =~= vs.take(k as int)
                                + rename_items_view(vs.skip(k as int), id@, name@).1);
                        }
                    } else {
                        let sub = rename_items_in(&f.items, id, name);
                        if sub.0 {
                            let c = CollectionItem::Folder(
                                Folder { id: f.id.clone(), name: f.name.clone(), items: sub.1 },
                            );
                            out.push(c);
                            found = true;
                            proof {
                                lemma_items_view_push(out_before, c);
                                assert(items_view(out@) + vs.skip(k + 1) =~= vs.take(k as int)
                                    + rename_items_view(vs.skip(k as int), id@, name@).1);
                            }
                        } else {
                            let c = clone_item(&items[k]);
                            out.push(c);
                            proof {
                                lemma_items_view_push(out_before, c);
                                assert(items_view(out@) =~= vs.take(k + 1));
                                assert(vs.take(k as int) + (seq![vs[k as int]]
                                    + rename_items_view(vs.skip(k + 1), id@, name@).1) =~= vs.take(
                                    k + 1,
                                ) + rename_items_view(vs.skip(k + 1), id@, name@).1);
                            }
                        }
                    }
                },
                CollectionItem::Request(rq) => {
                    proof {
                        assert(items@[k as int] == CollectionItem::Request(*rq));
                        assert(vs[k as int] == item_view(items@[k as int]));
                    }
                    if str_eq_str(rq.id.as_str(), id) {
                        let c = CollectionItem::Request(
                            CollectionRequest {
                                id: rq.id.clone(),
                                name: name.to_owned(),
                                method: rq.method.clone(),
                                url: rq.url.clone(),
                                body_raw: rq.body_raw.clone(),
                            },
                        );
                        out.push(c);
                        found = true;
                        proof {
                            lemma_items_view_push(out_before, c);
                            assert(items_view(out@) + vs.skip(k + 1) =~= vs.take(k as int)
                                + rename_items_view(vs.skip(k as int), id@, name@).1);
                        }
                    } else {
                        let c = clone_item(&items[k]);
                        out.push(c);
                        proof {
                            lemma_items_view_push(out_before, c);
                            assert(items_view(out@) =~= vs.take(k + 1));
                            assert(vs.take(k as int) + (seq![vs[k as int]] + rename_items_view(
                                vs.skip(k + 1),
                                id@,
                                name@,
                            ).1) =~= vs.take(k + 1) + rename_items_view(
                                vs.skip(k + 1),
                                id@,
                                name@,
                            ).1);
                        }
                    }
                },
            }
        }
        k = k + 1;
    }
    proof {
        if found {
            assert(items_view(out@) + vs.skip(n as int) =~= items_view(out@));
        } else {
            assert(vs.take(n as int) =~= vs);
            assert(vs.take(n as int) + rename_items_view(vs.skip(n as int), id@, name@).1
                =~= vs);
        }
    }
    (found, out)
}

/// Rename the first node carrying this id — folders checked before their
/// children, children before later siblings — leaving everything else
/// unchanged; say whether one was found.
pub fn rename_item_in_list(items: &mut Vec<CollectionItem>, id: &str, name: &str) -> (r: bool)
    ensures
        ({
            let t = rename_items_view(items_view(old(items)@), id@, name@);
            r == t.0 && items_view(final(items)@) == t.1
        }),
{
    let res = rename_items_in(items, id, name);
    *items = res.1;
    res.0
}


/// Inserting after a node: the new item lands right after the first node
/// carrying `after_id` — checked before a folder's children, children
/// before later siblings; everything else is unchanged.
pub open spec fn insert_after_view(
    items: Seq<ItemView>,
    after_id: Seq<char>,
    new_item: ItemView,
) -> (bool, Seq<ItemView>)
    decreases items,
{
    if items.len() == 0 {
        (false, items)
    } else if node_id(items[0]) == after_id {
        (true, seq![items[0], new_item] + items.drop_first())
    } else {
        match items[0] {
            ItemView::Folder { id: fid, name: fname, items: fitems } => {
                let sub = insert_after_view(fitems, after_id, new_item);
                if sub.0 {
                    (true, seq![ItemView::Folder { id: fid, name: fname, items: sub.1 }]
                        + items.drop_first())
                } else {
                    let rest = insert_after_view(items.drop_first(), after_id, new_item);
                    (rest.0, seq![items[0]] + rest.1)
                }
            },
            ItemView::Request { .. } => {
                let rest = insert_after_view(items.drop_first(), after_id, new_item);
                (rest.0, seq![items[0]] + rest.1)
            },
        }
    }
}

fn insert_after_in(items: &Vec<CollectionItem>, after_id: &str, new_item: &CollectionItem) -> (res:
    (bool, Vec<CollectionItem>))
    ensures
        (res.0, items_view(res.1@)) == insert_after_view(
            items_view(items@),
            after_id@,
            item_view(*new_item),
        ),
    decreases *items,
{
    let ghost vs = items_view(items@);
    let ghost nv = item_view(*new_item);
    let ghost target = insert_after_view(vs, after_id@, nv);
    let n = items.len();
    let mut out: Vec<CollectionItem> = Vec::new();
    let mut found = false;
    let mut k: usize = 0;
    proof {
        lemma_items_view_index(items@);
        lemma_items_view_index(out@);
        assert(vs.skip(0) =~= vs);
        assert(items_view(out@) =~= vs.take(0));
        assert(vs.take(0) + insert_after_view(vs.skip(0), after_id@, nv).1 =~= insert_after_view(
            vs.skip(0),
            after_id@,
            nv,
        ).1);
    }
    while k < n
        invariant
            vs == items_view(items@),
            nv == item_view(*new_item),
            target == insert_after_view(vs, after_id@, nv),
            n == items@.len(),
            vs.len() == n,
            forall|j: int| 0 <= j < n ==> vs[j] == item_view(#[trigger] items@[j]),
            k <= n,
            !found ==> out@.len() == k,
            !found ==> items_view(out@) == vs.take(k as int),
            !found ==> target.0 == insert_after_view(vs.skip(k as int), after_id@, nv).0,
            !found ==> target.1 == vs.take(k as int) + insert_after_view(
                vs.skip(k as int),
                after_id@,
                nv,
            ).1,
            found ==> target.0 == true,
            found ==> target.1 == items_view(out@) + vs.skip(k as int),
        decreases n - k,
    {
        proof {
            let sub = vs.skip(k as int);
            assert(sub[0] == vs[k as int]);
            assert(sub.drop_first() =~= vs.skip(k + 1));
            assert(vs.take(k + 1) =~= vs.take(k as int).push(vs[k as int]));
            assert(decreases_to!(*items => items@[k as int]));
        }
        let ghost out_before = out@;
        if found {
            let c = clone_item(&items[k]);
            out.push(c);
            proof {
                lemma_items_view_push(out_before, c);
                assert(items_view(out@) + vs.skip(k + 1) =~= items_view(out_before) + vs.skip(
                    k as int,
                ));
            }
        } else {
            match &items[k] {
                CollectionItem::Folder(f) => {
                    proof {
                        assert(items@[k as int] == CollectionItem::Folder(*f));
                        assert(vs[k as int] == item_view(items@[k as int]));
                    }
                    if str_eq_str(f.id.as_str(), after_id) {
                        let c = clone_item(&items[k]);
                        out.push(c);
                        let c2 = clone_item(new_item);
                        let ghost mid = out@;
                        out.push(c2);
                        found = true;
                        proof {
                            lemma_items_view_push(out_before, c);
                            lemma_items_view_push(mid, c2);
                            assert(items_view(out@) + vs.skip(k + 1) =~= vs.take(k as int)
                                + insert_after_view(vs.skip(k as int), after_id@, nv).1);
                        }
                    } else {
                        let sub = insert_after_in(&f.items, after_id, new_item);
                        if sub.0 {
                            let c = CollectionItem::Folder(
                                Folder { id: f.id.clone(), name: f.name.clone(), items: sub.1 },
                            );
                            out.push(c);
                            found = true;
                            proof {
                                lemma_items_view_push(out_before, c);
                                assert(items_view(out@) + vs.skip(k + 1) =~= vs.take(k as int)
                                    + insert_after_view(vs.skip(k as int), after_id@, nv).1);
                            }
                        } else {
                            let c = clone_item(&items[k]);
                            out.push(c);
                            proof {
                                lemma_items_view_push(out_before, c);
                                assert(items_view(out@) =~= vs.take(k + 1));
                                assert(vs.take(k as int) + (seq![vs[k as int]] + insert_after_view(
                                    vs.skip(k + 1),
                                    after_id@,
                                    nv,
                                ).1) =~= vs.take(k + 1) + insert_after_view(
                                    vs.skip(k + 1),
                                    after_id@,
                                    nv,
                                ).1);
                            }
                        }
                    }
                },
                CollectionItem::Request(rq) => {
                    proof {
                        assert(items@[k as int] == CollectionItem::Request(*rq));
                        assert(vs[k as int] == item_view(items@[k as int]));
                    }
                    if str_eq_str(rq.id.as_str(), after_id) {
                        let c = clone_item(&items[k]);
                        out.push(c);
                        let c2 = clone_item(new_item);
                        let ghost mid = out@;
                        out.push(c2);
                        found = true;
                        proof {
                            lemma_items_view_push(out_before, c);
                            lemma_items_view_push(mid, c2);
                            assert(items_view(out@) + vs.skip(k + 1) =~= vs.take(k as int)
                                + insert_after_view(vs.skip(k as int), after_id@, nv).1);
                        }
                    } else {
                        let c = clone_item(&items[k]);
                        out.push(c);
                        proof {
                            lemma_items_view_push(out_before, c);
                            assert(items_view(out@) =~= vs.take(k + 1));
                            assert(vs.take(k as int) + (seq![vs[k as int]] + insert_after_view(
                                vs.skip(k + 1),
                                after_id@,
                                nv,
                            ).1) =~= vs.take(k + 1) + insert_after_view(
                                vs.skip(k + 1),
                                after_id@,
                                nv,
                            ).1);
                        }
                    }
                },
            }
        }
        k = k + 1;
    }
    proof {
        if found {
            assert(items_view(out@) + vs.skip(n as int) =~= items_view(out@));
        } else {
            assert(vs.take(n as int) =~= vs);
            assert(vs.take(n as int) + insert_after_view(vs.skip(n as int), after_id@, nv).1
                =~= vs);
        }
    }
    (found, out)
}

/// Insert `new_item` right after the first node carrying `after_id`,
/// leaving everything else unchanged; say whether that node was found.
pub fn insert_after_in_list(
    items: &mut Vec<CollectionItem>,
    after_id: &str,
    new_item: CollectionItem,
) -> (r: bool)
    ensures
        ({
            let t = insert_after_view(
                items_view(old(items)@),
                after_id@,
                item_view(new_item),
            );
            r == t.0 && items_view(final(items)@) == t.1
        }),
{
    let res = insert_after_in(items, after_id, &new_item);
    *items = res.1;
    res.0
}

/// Adding a request to a folder: the first folder carrying `folder_id` —
/// checked before its children — gets the item appended to its own list;
/// everything else is unchanged.
pub open spec fn add_to_folder_view(
    items: Seq<ItemView>,
    folder_id: Seq<char>,
    new_item: ItemView,
) -> (bool, Seq<ItemView>)
    decreases items,
{
    if items.len() == 0 {
        (false, items)
    } else {
        match items[0] {
            ItemView::Folder { id: fid, name: fname, items: fitems } => {
                if fid == folder_id {
                    (true, seq![ItemView::Folder {
                        id: fid,
                        name: fname,
                        items: fitems.push(new_item),
                    }] + items.drop_first())
                } else {
                    let sub = add_to_folder_view(fitems, folder_id, new_item);
                    if sub.0 {
                        (true, seq![ItemView::Folder { id: fid, name: fname, items: sub.1 }]
                            + items.drop_first())
                    } else {
                        let rest = add_to_folder_view(items.drop_first(), folder_id, new_item);
                        (rest.0, seq![items[0]] + rest.1)
                    }
                }
            },
            ItemView::Request { .. } => {
                let rest = add_to_folder_view(items.drop_first(), folder_id, new_item);
                (rest.0, seq![items[0]] + rest.1)
            },
        }
    }
}

fn add_to_folder_in(items: &Vec<CollectionItem>, folder_id: &str, new_item: &CollectionItem) -> (res:
    (bool, Vec<CollectionItem>))
    ensures
        (res.0, items_view(res.1@)) == add_to_folder_view(
            items_view(items@),
            folder_id@,
            item_view(*new_item),
        ),
    decreases *items,
{
    let ghost vs = items_view(items@);
    let ghost nv = item_view(*new_item);
    let ghost target = add_to_folder_view(vs, folder_id@, nv);
    let n = items.len();
    let mut out: Vec<CollectionItem> = Vec::new();
    let mut found = false;
    let mut k: usize = 0;
    proof {
        lemma_items_view_index(items@);
        lemma_items_view_index(out@);
        assert(vs.skip(0) =~= vs);
        assert(items_view(out@) =~= vs.take(0));
        assert(vs.take(0) + add_to_folder_view(vs.skip(0), folder_id@, nv).1
            =~= add_to_folder_view(vs.skip(0), folder_id@, nv).1);
    }
    while k < n
        invariant
            vs == items_view(items@),
            nv == item_view(*new_item),
            target == add_to_folder_view(vs, folder_id@, nv),
            n == items@.len(),
            vs.len() == n,
            forall|j: int| 0 <= j < n ==> vs[j] == item_view(#[trigger] items@[j]),
            k <= n,
            !found ==> out@.len() == k,
            !found ==> items_view(out@) == vs.take(k as int),
            !found ==> target.0 == add_to_folder_view(vs.skip(k as int), folder_id@, nv).0,
            !found ==> target.1 == vs.take(k as int) + add_to_folder_view(
                vs.skip(k as int),
                folder_id@,
                nv,
            ).1,
            found ==> target.0 == true,
            found ==> target.1 == items_view(out@) + vs.skip(k as int),
        decreases n - k,
    {
        proof {
            let sub = vs.skip(k as int);
            assert(sub[0] == vs[k as int]);
            assert(sub.drop_first() =~= vs.skip(k + 1));
            assert(vs.take(k + 1) =~= vs.take(k as int).push(vs[k as int]));
            assert(decreases_to!(*items => items@[k as int]));
        }
        let ghost out_before = out@;
        if found {
            let c = clone_item(&items[k]);
            out.push(c);
            proof {
                lemma_items_view_push(out_before, c);
                assert(items_view(out@) + vs.skip(k + 1) =~= items_view(out_before) + vs.skip(
                    k as int,
                ));
            }
        } else {
            match &items[k] {
                CollectionItem::Folder(f) => {
                    proof {
                        assert(items@[k as int] == CollectionItem::Folder(*f));
                        assert(vs[k as int] == item_view(items@[k as int]));
                    }
                    if str_eq_str(f.id.as_str(), folder_id) {
                        let mut sub_items = clone_items(&f.items);
                        let ghost sub_before = sub_items@;
                        sub_items.push(clone_item(new_item));
                        let c = CollectionItem::Folder(
                            Folder { id: f.id.clone(), name: f.name.clone(), items: sub_items },
                        );
                        out.push(c);
                        found = true;
                        proof {
                            lemma_items_view_push(sub_before, c->Folder_0.items@[sub_before.len() as int]);
                            lemma_items_view_push(out_before, c);
                            assert(items_view(items@[k as int]->Folder_0.items@).push(nv)
                                =~= items_view(items@[k as int]->Folder_0.items@) + seq![nv]);
                            assert(items_view(out@) + vs.skip(k + 1) =~= vs.take(k as int)
                                + add_to_folder_view(vs.skip(k as int), folder_id@, nv).1);
                        }
                    } else {
                        let sub = add_to_folder_in(&f.items, folder_id, new_item);
                        if sub.0 {
                            let c = CollectionItem::Folder(
                                Folder { id: f.id.clone(), name: f.name.clone(), items: sub.1 },
                            );
                            out.push(c);
                            found = true;
                            proof {
                                lemma_items_view_push(out_before, c);
                                assert(items_view(out@) + vs.skip(k + 1) =~= vs.take(k as int)
                                    + add_to_folder_view(vs.skip(k as int), folder_id@, nv).1);
                            }
                        } else {
                            let c = clone_item(&items[k]);
                            out.push(c);
                            proof {
                                lemma_items_view_push(out_before, c);
                                assert(items_view(out@) =~= vs.take(k + 1));
                                assert(vs.take(k as int) + (seq![vs[k as int]]
                                    + add_to_folder_view(vs.skip(k + 1), folder_id@, nv).1)
                                    =~= vs.take(k + 1) + add_to_folder_view(
                                    vs.skip(k + 1),
                                    folder_id@,
                                    nv,
                                ).1);
                            }
                        }
                    }
                },
                CollectionItem::Request(rq) => {
                    proof {
                        assert(items@[k as int] == CollectionItem::Request(*rq));
                        assert(vs[k as int] == item_view(items@[k as int]));
                    }
                    let c = clone_item(&items[k]);
                    out.push(c);
                    proof {
                        lemma_items_view_push(out_before, c);
                        assert(items_view(out@) =~= vs.take(k + 1));
                        assert(vs.take(k as int) + (seq![vs[k as int]] + add_to_folder_view(
                            vs.skip(k + 1),
                            folder_id@,
                            nv,
                        ).1) =~= vs.take(k + 1) + add_to_folder_view(
                            vs.skip(k + 1),
                            folder_id@,
                            nv,
                        ).1);
                    }
                },
            }
        }
        k = k + 1;
    }
    proof {
        if found {
            assert(items_view(out@) + vs.skip(n as int) =~= items_view(out@));
        } else {
            assert(vs.take(n as int) =~= vs);
            assert(vs.take(n as int) + add_to_folder_view(vs.skip(n as int), folder_id@, nv).1
                =~= vs);
        }
    }
    (found, out)
}

/// Append `req` to the item list of the first folder carrying `folder_id`
/// — checked before its children — leaving everything else unchanged; say
/// whether that folder was found.
pub fn add_request_to_folder(
    items: &mut Vec<CollectionItem>,
    folder_id: &str,
    req: CollectionItem,
) -> (r: bool)
    ensures
        ({
            let t = add_to_folder_view(items_view(old(items)@), folder_id@, item_view(req));
            r == t.0 && items_view(final(items)@) == t.1
        }),
{
    let res = add_to_folder_in(items, folder_id, &req);
    *items = res.1;
    res.0
}

/// Updating a saved request: the first request carrying the id — folders
/// searched in order — gets the new url, method and raw body; its id and
/// name, and everything else, stay.
pub open spec fn update_request_view(
    items: Seq<ItemView>,
    id: Seq<char>,
    url: Seq<char>,
    method: Seq<char>,
    body_raw: Seq<char>,
) -> (bool, Seq<ItemView>)
    decreases items,
{
    if items.len() == 0 {
        (false, items)
    } else {
        match items[0] {
            ItemView::Request { id: rid, name: rname, .. } => {
                if rid == id {
                    (true, seq![ItemView::Request {
                        id: rid,
                        name: rname,
                        method: method,
                        url: url,
                        body_raw: body_raw,
                    }] + items.drop_first())
                } else {
                    let rest = update_request_view(items.drop_first(), id, url, method, body_raw);
                    (rest.0, seq![items[0]] + rest.1)
                }
            },
            ItemView::Folder { id: fid, name: fname, items: fitems } => {
                let sub = update_request_view(fitems, id, url, method, body_raw);
                if sub.0 {
                    (true, seq![ItemView::Folder { id: fid, name: fname, items: sub.1 }]
                        + items.drop_first())
                } else {
                    let rest = update_request_view(items.drop_first(), id, url, method, body_raw);
                    (rest.0, seq![items[0]] + rest.1)
                }
            },
        }
    }
}

fn update_request_in(
    items: &Vec<CollectionItem>,
    id: &str,
    url: &str,
    method: &str,
    body_raw: &str,
) -> (res: (bool, Vec<CollectionItem>))
    ensures
        (res.0, items_view(res.1@)) == update_request_view(
            items_view(items@),
            id@,
            url@,
            method@,
            body_raw@,
        ),
    decreases *items,
{
    let ghost vs = items_view(items@);
    let ghost target = update_request_view(vs, id@, url@, method@, body_raw@);
    let n = items.len();
    let mut out: Vec<CollectionItem> = Vec::new();
    let mut found = false;
    let mut k: usize = 0;
    proof {
        lemma_items_view_index(items@);
        lemma_items_view_index(out@);
        assert(vs.skip(0) =~= vs);
        assert(items_view(out@) =~= vs.take(0));
        assert(vs.take(0) + update_request_view(vs.skip(0), id@, url@, method@, body_raw@).1
            =~= update_request_view(vs.skip(0), id@, url@, method@, body_raw@).1);
    }
    while k < n
        invariant
            vs == items_view(items@),
            target == update_request_view(vs, id@, url@, method@, body_raw@),
            n == items@.len(),
            vs.len() == n,
            forall|j: int| 0 <= j < n ==> vs[j] == item_view(#[trigger] items@[j]),
            k <= n,
            !found ==> out@.len() == k,
            !found ==> items_view(out@) == vs.take(k as int),
            !found ==> target.0 == update_request_view(
                vs.skip(k as int),
                id@,
                url@,
                method@,
                body_raw@,
            ).0,
            !found ==> target.1 == vs.take(k as int) + update_request_view(
                vs.skip(k as int),
                id@,
                url@,
                method@,
                body_raw@,
            ).1,
            found ==> target.0 == true,
            found ==> target.1 == items_view(out@) + vs.skip(k as int),
        decreases n - k,
    {
        proof {
            let sub = vs.skip(k as int);
            assert(sub[0] == vs[k as int]);
            assert(sub.drop_first() =~= vs.skip(k + 1));
            assert(vs.take(k + 1) =~= vs.take(k as int).push(vs[k as int]));
            assert(decreases_to!(*items => items@[k as int]));
        }
        let ghost out_before = out@;
        if found {
            let c = clone_item(&items[k]);
            out.push(c);
            proof {
                lemma_items_view_push(out_before, c);
                assert(items_view(out@) + vs.skip(k + 1) =~= items_view(out_before) + vs.skip(
                    k as int,
                ));
            }
        } else {
            match &items[k] {
                CollectionItem::Request(rq) => {
                    proof {
                        assert(items@[k as int] == CollectionItem::Request(*rq));
                        assert(vs[k as int] == item_view(items@[k as int]));
                    }
                    if str_eq_str(rq.id.as_str(), id) {
                        let c = CollectionItem::Request(
                            CollectionRequest {
                                id: rq.id.clone(),
                                name: rq.name.clone(),
                                method: method.to_owned(),
                                url: url.to_owned(),
                                body_raw: body_raw.to_owned(),
                            },
                        );
                        out.push(c);
                        found = true;
                        proof {
                            lemma_items_view_push(out_before, c);
                            assert(items_view(out@) + vs.skip(k + 1) =~= vs.take(k as int)
                                + update_request_view(
                                vs.skip(k as int),
                                id@,
                                url@,
                                method@,
                                body_raw@,
                            ).1);
                        }
                    } else {
                        let c = clone_item(&items[k]);
                        out.push(c);
                        proof {
                            lemma_items_view_push(out_before, c);
                            assert(items_view(out@) =~= vs.take(k + 1));
                            assert(vs.take(k as int) + (seq![vs[k as int]] + update_request_view(
                                vs.skip(k + 1),
                                id@,
                                url@,
                                method@,
                                body_raw@,
                            ).1) =~= vs.take(k + 1) + update_request_view(
                                vs.skip(k + 1),
                                id@,
                                url@,
                                method@,
                                body_raw@,
                            ).1);
                        }
                    }
                },
                CollectionItem::Folder(f) => {
                    proof {
                        assert(items@[k as int] == CollectionItem::Folder(*f));
                        assert(vs[k as int] == item_view(items@[k as int]));
                    }
                    let sub = update_request_in(&f.items, id, url, method, body_raw);
                    if sub.0 {
                        let c = CollectionItem::Folder(
                            Folder { id: f.id.clone(), name: f.name.clone(), items: sub.1 },
                        );
                        out.push(c);
                        found = true;
                        proof {
                            lemma_items_view_push(out_before, c);
                            assert(items_view(out@) + vs.skip(k + 1) =~= vs.take(k as int)
                                + update_request_view(
                                vs.skip(k as int),
                                id@,
                                url@,
                                method@,
                                body_raw@,
                            ).1);
                        }
                    } else {
                        let c = clone_item(&items[k]);
                        out.push(c);
                        proof {
                            lemma_items_view_push(out_before, c);
                            assert(items_view(out@) =~= vs.take(k + 1));
                            assert(vs.take(k as int) + (seq![vs[k as int]] + update_request_view(
                                vs.skip(k + 1),
                                id@,
                                url@,
                                method@,
                                body_raw@,
                            ).1) =~= vs.take(k + 1) + update_request_view(
                                vs.skip(k + 1),
                                id@,
                                url@,
                                method@,
                                body_raw@,
                            ).1);
                        }
                    }
                },
            }
        }
        k = k + 1;
    }
    proof {
        if found {
            assert(items_view(out@) + vs.skip(n as int) =~= items_view(out@));
        } else {
            assert(vs.take(n as int) =~= vs);
            assert(vs.take(n as int) + update_request_view(
                vs.skip(n as int),
                id@,
                url@,
                method@,
                body_raw@,
            ).1 =~= vs);
        }
    }
    (found, out)
}

/// Store url, method and raw body into the first saved request carrying
/// this id, leaving everything else unchanged; say whether one was found.
pub fn update_col_request_state(
    items: &mut Vec<CollectionItem>,
    id: &str,
    url: &str,
    method: &str,
    body_raw: &str,
) -> (r: bool)
    ensures
        ({
            let t = update_request_view(
                items_view(old(items)@),
                id@,
                url@,
                method@,
                body_raw@,
            );
            r == t.0 && items_view(final(items)@) == t.1
        }),
{
    let res = update_request_in(items, id, url, method, body_raw);
    *items = res.1;
    res.0
}


/// The top level of a list with every node carrying the id filtered out;
/// children are not entered.
pub open spec fn top_filter(items: Seq<ItemView>, id: Seq<char>) -> Seq<ItemView>
    decreases items,
{
    if items.len() == 0 {
        items
    } else {
        let rest = top_filter(items.drop_first(), id);
        if node_id(items[0]) == id {
            rest
        } else {
            seq![items[0]] + rest
        }
    }
}

/// Removing by id: every node at the top level carrying the id goes;
/// only when none did, the first folder whose subtree holds one is
/// rewritten the same way, and everything else is unchanged.
pub open spec fn remove_items_view(items: Seq<ItemView>, id: Seq<char>) -> (bool, Seq<ItemView>)
    decreases items, 1int,
{
    let filtered = top_filter(items, id);
    if filtered.len() < items.len() {
        (true, filtered)
    } else {
        remove_rec(items, id)
    }
}

/// The recursive phase of removal: the first folder whose subtree removes
/// something is replaced by the rewritten folder.
pub open spec fn remove_rec(items: Seq<ItemView>, id: Seq<char>) -> (bool, Seq<ItemView>)
    decreases items, 0int,
{
    if items.len() == 0 {
        (false, items)
    } else {
        match items[0] {
            ItemView::Folder { id: fid, name: fname, items: fitems } => {
                let sub = remove_items_view(fitems, id);
                if sub.0 {
                    (true, seq![ItemView::Folder { id: fid, name: fname, items: sub.1 }]
                        + items.drop_first())
                } else {
                    let rest = remove_rec(items.drop_first(), id);
                    (rest.0, seq![items[0]] + rest.1)
                }
            },
            ItemView::Request { .. } => {
                let rest = remove_rec(items.drop_first(), id);
                (rest.0, seq![items[0]] + rest.1)
            },
        }
    }
}

fn remove_in(items: &Vec<CollectionItem>, id: &str) -> (res: (bool, Vec<CollectionItem>))
    ensures
        (res.0, items_view(res.1@)) == remove_items_view(items_view(items@), id@),
    decreases *items,
{
    let ghost vs = items_view(items@);
    let n = items.len();
    let mut filtered: Vec<CollectionItem> = Vec::new();
    let mut k: usize = 0;
    proof {
        lemma_items_view_index(items@);
        lemma_items_view_index(filtered@);
        assert(vs.skip(0) =~= vs);
        assert(items_view(filtered@) + top_filter(vs.skip(0), id@) =~= top_filter(
            vs.skip(0),
            id@,
        ));
    }
    while k < n
        invariant
            vs == items_view(items@),
            n == items@.len(),
            vs.len() == n,
            forall|j: int| 0 <= j < n ==> vs[j] == item_view(#[trigger] items@[j]),
            k <= n,
            filtered@.len() <= k,
            items_view(filtered@) + top_filter(vs.skip(k as int), id@) == top_filter(vs, id@),
        decreases n - k,
    {
        proof {
            let sub = vs.skip(k as int);
            assert(sub[0] == vs[k as int]);
            assert(sub.drop_first() =~= vs.skip(k + 1));
            assert(decreases_to!(*items => items@[k as int]));
        }
        let ghost f_before = filtered@;
        let matched = match &items[k] {
            CollectionItem::Folder(f) => {
                proof {
                    assert(items@[k as int] == CollectionItem::Folder(*f));
                    assert(vs[k as int] == item_view(items@[k as int]));
                }
                str_eq_str(f.id.as_str(), id)
            },
            CollectionItem::Request(rq) => {
                proof {
                    assert(items@[k as int] == CollectionItem::Request(*rq));
                    assert(vs[k as int] == item_view(items@[k as int]));
                }
                str_eq_str(rq.id.as_str(), id)
            },
        };
        proof {
            assert(matched == (node_id(vs[k as int]) == id@));
        }
        if !matched {
            let c = clone_item(&items[k]);
            filtered.push(c);
            proof {
                lemma_items_view_push(f_before, c);
                assert(items_view(filtered@) + top_filter(vs.skip(k + 1), id@) =~= items_view(
                    f_before,
                ) + (seq![vs[k as int]] + top_filter(vs.skip(k + 1), id@)));
            }
        }
        k = k + 1;
    }
    proof {
        assert(vs.skip(n as int) =~= Seq::<ItemView>::empty());
        assert(items_view(filtered@) + top_filter(vs.skip(n as int), id@) =~= items_view(
            filtered@,
        ));
        lemma_items_view_index(filtered@);
    }
    if filtered.len() < items.len() {
        return (true, filtered);
    }
    // nothing matched at the top level; recurse into folders
    let ghost target = remove_rec(vs, id@);
    let mut out: Vec<CollectionItem> = Vec::new();
    let mut found = false;
    let mut k2: usize = 0;
    proof {
        lemma_items_view_index(out@);
        assert(items_view(out@) =~= vs.take(0));
        assert(vs.take(0) + remove_rec(vs.skip(0), id@).1 =~= remove_rec(vs.skip(0), id@).1);
    }
    while k2 < n
        invariant
            vs == items_view(items@),
            target == remove_rec(vs, id@),
            n == items@.len(),
            vs.len() == n,
            forall|j: int| 0 <= j < n ==> vs[j] == item_view(#[trigger] items@[j]),
            k2 <= n,
            !found ==> out@.len() == k2,
            !found ==> items_view(out@) == vs.take(k2 as int),
            !found ==> target.0 == remove_rec(vs.skip(k2 as int), id@).0,
            !found ==> target.1 == vs.take(k2 as int) + remove_rec(vs.skip(k2 as int), id@).1,
            found ==> target.0 == true,
            found ==> target.1 == items_view(out@) + vs.skip(k2 as int),
        decreases n - k2,
    {
        proof {
            let sub = vs.skip(k2 as int);
            assert(sub[0] == vs[k2 as int]);
            assert(sub.drop_first() =~= vs.skip(k2 + 1));
            assert(vs.take(k2 + 1) =~= vs.take(k2 as int).push(vs[k2 as int]));
            assert(decreases_to!(*items => items@[k2 as int]));
        }
        let ghost out_before = out@;
        if found {
            let c = clone_item(&items[k2]);
            out.push(c);
            proof {
                lemma_items_view_push(out_before, c);
                assert(items_view(out@) + vs.skip(k2 + 1) =~= items_view(out_before) + vs.skip(
                    k2 as int,
                ));
            }
        } else {
            match &items[k2] {
                CollectionItem::Folder(f) => {
                    proof {
                        assert(items@[k2 as int] == CollectionItem::Folder(*f));
                        assert(vs[k2 as int] == item_view(items@[k2 as int]));
                    }
                    let sub = remove_in(&f.items, id);
                    if sub.0 {
                        let c = CollectionItem::Folder(
                            Folder { id: f.id.clone(), name: f.name.clone(), items: sub.1 },
                        );
                        out.push(c);
                        found = true;
                        proof {
                            lemma_items_view_push(out_before, c);
                            assert(items_view(out@) + vs.skip(k2 + 1) =~= vs.take(k2 as int)
                                + remove_rec(vs.skip(k2 as int), id@).1);
                        }
                    } else {
                        let c = clone_item(&items[k2]);
                        out.push(c);
                        proof {
                            lemma_items_view_push(out_before, c);
                            assert(items_view(out@) =~= vs.take(k2 + 1));
                            assert(vs.take(k2 as int) + (seq![vs[k2 as int]] + remove_rec(
                                vs.skip(k2 + 1),
                                id@,
                            ).1) =~= vs.take(k2 + 1) + remove_rec(vs.skip(k2 + 1), id@).1);
                        }
                    }
                },
                CollectionItem::Request(rq) => {
                    proof {
                        assert(items@[k2 as int] == CollectionItem::Request(*rq));
                        assert(vs[k2 as int] == item_view(items@[k2 as int]));
                    }
                    let c = clone_item(&items[k2]);
                    out.push(c);
                    proof {
                        lemma_items_view_push(out_before, c);
                        assert(items_view(out@) =~= vs.take(k2 + 1));
                        assert(vs.take(k2 as int) + (seq![vs[k2 as int]] + remove_rec(
                            vs.skip(k2 + 1),
                            id@,
                        ).1) =~= vs.take(k2 + 1) + remove_rec(vs.skip(k2 + 1), id@).1);
                    }
                },
            }
        }
        k2 = k2 + 1;
    }
    proof {
        if found {
            assert(items_view(out@) + vs.skip(n as int) =~= items_view(out@));
        } else {
            assert(vs.take(n as int) =~= vs);
            assert(vs.take(n as int) + remove_rec(vs.skip(n as int), id@).1 =~= vs);
        }
    }
    (found, out)
}

/// Remove every top-level node carrying this id; when none does, remove
/// inside the first folder whose subtree holds one, leaving everything
/// else unchanged. Say whether anything was removed.
pub fn remove_item_from_list(items: &mut Vec<CollectionItem>, id: &str) -> (r: bool)
    ensures
        ({
            let t = remove_items_view(items_view(old(items)@), id@);
            r == t.0 && items_view(final(items)@) == t.1
        }),
{
    let res = remove_in(items, id);
    *items = res.1;
    res.0
}


/// The id of the first collection that is, or contains, the node with
/// this id, if any.
pub open spec fn collection_id_for_spec(cols: Seq<Collection>, node_id: Seq<char>) -> Option<
    Seq<char>,
>
    decreases cols,
{
    if cols.len() == 0 {
        None
    } else if cols[0].id@ == node_id || items_contain(items_view(cols[0].items@), node_id) {
        Some(cols[0].id@)
    } else {
        collection_id_for_spec(cols.drop_first(), node_id)
    }
}

/// Find the collection that is, or contains, the node with this id.
pub fn find_collection_id_for_node(collections: &Vec<Collection>, node_id: &str) -> (r: Option<
    String,
>)
    ensures
        match r {
            Some(id) => collection_id_for_spec(collections@, node_id@) == Some(id@),
            None => collection_id_for_spec(collections@, node_id@) is None,
        },
{
    let n = collections.len();
    let mut k: usize = 0;
    proof {
        assert(collections@.skip(0) =~= collections@);
    }
    while k < n
        invariant
            n == collections@.len(),
            k <= n,
            collection_id_for_spec(collections@, node_id@) == collection_id_for_spec(
                collections@.skip(k as int),
                node_id@,
            ),
        decreases n - k,
    {
        proof {
            let sub = collections@.skip(k as int);
            assert(sub[0] == collections@[k as int]);
            assert(sub.drop_first() =~= collections@.skip(k + 1));
        }
        let col = &collections[k];
        if str_eq_str(col.id.as_str(), node_id) || item_exists_in_list(&col.items, node_id) {
            return Some(col.id.clone());
        }
        k = k + 1;
    }
    proof {
        assert(collections@.skip(n as int) =~= Seq::<Collection>::empty());
    }
    None
}

} // verus!
