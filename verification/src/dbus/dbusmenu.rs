//! The `com.canonical.dbusmenu` model and its layout rendering.
//!
//! The public [`Menu`] is flattened into an integer-id'd node table:
//! dbusmenu identifies every entry (buttons, separators, submenus) by a plain
//! `i32`, with id `0` reserved for the invisible root. Entries are numbered in
//! pre-order, so a submenu's children always come after it. `GetLayout` and
//! `GetGroupProperties` replies are rendered from the table, and clicks, which
//! arrive as a dbusmenu id, map back to the caller's menu id.
use vstd::prelude::*;
use vstd::string::*;
use crate::menu::{items_model, lemma_items_model, ItemModel, Menu, MenuItem};
use super::props::{dict_entry, entry_sig, entry_ty, entry_val, PropValue};
use super::value::{
    all_typed, type_of, value_model, values_model, well_typed,
    lemma_values_model_push, lemma_all_typed_push, lemma_all_typed_concat,
    lemma_struct2, lemma_struct3, sig_model, sigs_model, DValue, Sig, Ty, Val,
};

verus! {

/// One dbusmenu entry. Its index in the node table is its dbusmenu id.
pub struct Node {
    pub label: Option<String>,
    pub separator: bool,
    pub enabled: bool,
    /// `Some(checked)` renders a checkmark toggle in that state.
    pub toggle: Option<bool>,
    /// dbusmenu ids of child entries (submenu contents).
    pub children: Vec<i32>,
    /// The caller's menu id, for buttons; used to map clicks back.
    pub menu_id: Option<u32>,
}

/// The content of a [`Node`].
pub struct NodeModel {
    pub label: Option<Seq<char>>,
    pub separator: bool,
    pub enabled: bool,
    pub toggle: Option<bool>,
    pub children: Seq<i32>,
    pub menu_id: Option<u32>,
}

pub open spec fn label_model(label: Option<String>) -> Option<Seq<char>> {
    match label {
        Some(l) => Some(l@),
        None => None,
    }
}

pub open spec fn node_model(n: Node) -> NodeModel {
    NodeModel {
        label: label_model(n.label),
        separator: n.separator,
        enabled: n.enabled,
        toggle: n.toggle,
        children: n.children@,
        menu_id: n.menu_id,
    }
}

pub open spec fn nodes_model(ns: Seq<Node>) -> Seq<NodeModel> {
    ns.map_values(|n: Node| node_model(n))
}

impl View for Node {
    type V = NodeModel;

    open spec fn view(&self) -> NodeModel {
        node_model(*self)
    }
}

/// The invisible root entry with the given children.
pub open spec fn root_node(children: Seq<i32>) -> NodeModel {
    NodeModel {
        label: None,
        separator: false,
        enabled: true,
        toggle: None,
        children,
        menu_id: None,
    }
}

/// The entry for a separator.
pub open spec fn separator_node() -> NodeModel {
    NodeModel {
        label: None,
        separator: true,
        enabled: true,
        toggle: None,
        children: Seq::empty(),
        menu_id: None,
    }
}

/// Number of dbusmenu entries an item takes: itself and everything nested in it.
pub open spec fn item_count(item: ItemModel) -> nat
    decreases item,
{
    match item {
        ItemModel::Submenu { items, .. } => 1 + items_count(items),
        _ => 1,
    }
}

/// Number of dbusmenu entries a sequence of items takes.
pub open spec fn items_count(items: Seq<ItemModel>) -> nat
    decreases items,
{
    if items.len() == 0 {
        0
    } else {
        items_count(items.drop_last()) + item_count(items.last())
    }
}

/// The entries for `item` when it is numbered `base`, in pre-order: the
/// item's own entry, then those of its children.
pub open spec fn item_nodes(item: ItemModel, base: int) -> Seq<NodeModel>
    decreases item,
{
    match item {
        ItemModel::Separator => seq![separator_node()],
        ItemModel::Button { id, label, enabled, checked } => seq![
            NodeModel {
                label: Some(label),
                separator: false,
                enabled,
                toggle: checked,
                children: Seq::empty(),
                menu_id: Some(id),
            },
        ],
        ItemModel::Submenu { label, enabled, items } => seq![
            NodeModel {
                label: Some(label),
                separator: false,
                enabled,
                toggle: None,
                children: child_ids(items, base + 1),
                menu_id: None,
            },
        ] + items_nodes(items, base + 1),
    }
}

/// The entries for a sequence of items, the first numbered `base`.
pub open spec fn items_nodes(items: Seq<ItemModel>, base: int) -> Seq<NodeModel>
    decreases items,
{
    if items.len() == 0 {
        Seq::empty()
    } else {
        items_nodes(items.drop_last(), base) + item_nodes(
            items.last(),
            base + items_count(items.drop_last()),
        )
    }
}

/// The ids given to a sequence of items, the first numbered `base`.
pub open spec fn child_ids(items: Seq<ItemModel>, base: int) -> Seq<i32>
    decreases items,
{
    if items.len() == 0 {
        Seq::empty()
    } else {
        child_ids(items.drop_last(), base).push((base + items_count(items.drop_last())) as i32)
    }
}

/// The whole node table for an optional menu: the root, then every entry in
/// pre-order, numbered from 1.
pub open spec fn menu_nodes(menu: Option<Seq<ItemModel>>) -> Seq<NodeModel> {
    match menu {
        Some(items) => seq![root_node(child_ids(items, 1))] + items_nodes(items, 1),
        None => seq![root_node(Seq::empty())],
    }
}

/// Whether every id of the menu's table fits in an `i32`.
pub open spec fn menu_fits(menu: Option<Seq<ItemModel>>) -> bool {
    match menu {
        Some(items) => items_count(items) <= i32::MAX,
        None => true,
    }
}

pub open spec fn optional_menu(menu: Option<&Menu>) -> Option<Seq<ItemModel>> {
    match menu {
        Some(m) => Some(m@),
        None => None,
    }
}

proof fn lemma_item_count_positive(item: ItemModel)
    ensures
        item_count(item) >= 1,
{
}

/// The table of one more item: the earlier entries, then the new item's,
/// numbered after them.
pub proof fn lemma_items_push(items: Seq<ItemModel>, item: ItemModel, base: int)
    ensures
        items_count(items.push(item)) == items_count(items) + item_count(item),
        items_nodes(items.push(item), base) == items_nodes(items, base) + item_nodes(
            item,
            base + items_count(items),
        ),
        child_ids(items.push(item), base) == child_ids(items, base).push(
            (base + items_count(items)) as i32,
        ),
{
    assert(items.push(item).drop_last() =~= items);
}

/// The entries of an item number exactly `item_count` of them, wherever the
/// numbering starts.
pub proof fn lemma_nodes_len_item(item: ItemModel, base: int)
    ensures
        item_nodes(item, base).len() == item_count(item),
    decreases item,
{
    match item {
        ItemModel::Submenu { items, .. } => {
            lemma_nodes_len_items(items, base + 1);
        },
        _ => {},
    }
}

/// Likewise for a sequence of items; it gets one id per item.
pub proof fn lemma_nodes_len_items(items: Seq<ItemModel>, base: int)
    ensures
        items_nodes(items, base).len() == items_count(items),
        child_ids(items, base).len() == items.len(),
    decreases items,
{
    if items.len() > 0 {
        lemma_nodes_len_items(items.drop_last(), base);
        lemma_nodes_len_item(items.last(), base + items_count(items.drop_last()));
    }
}

/// A prefix of a sequence of items never takes more entries than the whole.
pub proof fn lemma_items_count_prefix(items: Seq<ItemModel>, k: int)
    requires
        0 <= k <= items.len(),
    ensures
        items_count(items.take(k)) <= items_count(items),
    decreases items.len(),
{
    if k < items.len() {
        assert(items.drop_last().take(k) =~= items.take(k));
        lemma_items_count_prefix(items.drop_last(), k);
    } else {
        assert(items.take(k) =~= items);
    }
}

proof fn lemma_nodes_model_push(ns: Seq<Node>, n: Node)
    ensures
        nodes_model(ns.push(n)) == nodes_model(ns).push(node_model(n)),
{
    assert(nodes_model(ns.push(n)) =~= nodes_model(ns).push(node_model(n)));
}

proof fn lemma_nodes_model_update(ns: Seq<Node>, i: int, n: Node)
    requires
        0 <= i < ns.len(),
    ensures
        nodes_model(ns.update(i, n)) == nodes_model(ns).update(i, node_model(n)),
{
    assert(nodes_model(ns.update(i, n)) =~= nodes_model(ns).update(i, node_model(n)));
}

/// Appends the entries of `items` (numbered from the current length of
/// `nodes`) in pre-order, returning the ids given to the items themselves.
fn add_items(nodes: &mut Vec<Node>, items: &Vec<MenuItem>) -> (ids: Vec<i32>)
    requires
        old(nodes).len() + items_count(items_model(items@)) <= i32::MAX + 1,
    ensures
        nodes_model(final(nodes)@) == nodes_model(old(nodes)@) + items_nodes(
            items_model(items@),
            old(nodes).len() as int,
        ),
        ids@ == child_ids(items_model(items@), old(nodes).len() as int),
        final(nodes).len() == old(nodes).len() + items_count(items_model(items@)),
    decreases items,
{
    let ghost im = items_model(items@);
    let ghost base = nodes.len() as int;
    let ghost start = nodes_model(nodes@);
    proof {
        lemma_items_model(items@);
        assert(im.take(0) =~= Seq::<ItemModel>::empty());
    }
    let mut ids: Vec<i32> = Vec::new();
    let mut k: usize = 0;
    while k < items.len()
        invariant
            k <= items.len(),
            im == items_model(items@),
            im.len() == items.len(),
            forall|i: int| 0 <= i < items.len() ==> #[trigger] im[i] == items@[i]@,
            base + items_count(im) <= i32::MAX + 1,
            nodes.len() == base + items_count(im.take(k as int)),
            nodes_model(nodes@) == start + items_nodes(im.take(k as int), base),
            ids@ == child_ids(im.take(k as int), base),
        decreases items.len() - k,
    {
        let ghost before = nodes@;
        let ghost prefix = im.take(k as int);
        proof {
            assert(im.take(k + 1) =~= prefix.push(im[k as int]));
            lemma_items_push(prefix, im[k as int], base);
            lemma_items_count_prefix(im, k + 1);
            lemma_item_count_positive(im[k as int]);
            lemma_nodes_len_item(im[k as int], base + items_count(prefix));
        }
        let id = nodes.len();
        match &items[k] {
            MenuItem::Separator => {
                let n = Node {
                    label: None,
                    separator: true,
                    enabled: true,
                    toggle: None,
                    children: Vec::new(),
                    menu_id: None,
                };
                proof {
                    lemma_nodes_model_push(nodes@, n);
                    assert(node_model(n) == separator_node());
                    assert(item_nodes(im[k as int], id as int) =~= seq![separator_node()]);
                }
                nodes.push(n);
            },
            MenuItem::Button { id: menu_id, label, enabled, checked } => {
                let n = Node {
                    label: Some(label.clone()),
                    separator: false,
                    enabled: *enabled,
                    toggle: *checked,
                    children: Vec::new(),
                    menu_id: Some(menu_id.0),
                };
                proof {
                    lemma_nodes_model_push(nodes@, n);
                    assert(item_nodes(im[k as int], id as int) =~= seq![node_model(n)]);
                }
                nodes.push(n);
            },
            MenuItem::Submenu { label, enabled, items: sub } => {
                let placeholder = Node {
                    label: Some(label.clone()),
                    separator: false,
                    enabled: *enabled,
                    toggle: None,
                    children: Vec::new(),
                    menu_id: None,
                };
                proof {
                    lemma_nodes_model_push(nodes@, placeholder);
                    assert(decreases_to!(items => items@));
                    assert(decreases_to!(items@ => items@[k as int]));
                }
                nodes.push(placeholder);
                let children = add_items(nodes, sub);
                let n = Node {
                    label: Some(label.clone()),
                    separator: false,
                    enabled: *enabled,
                    toggle: None,
                    children,
                    menu_id: None,
                };
                let ghost mid = nodes@;
                proof {
                    lemma_nodes_model_update(mid, id as int, n);
                }
                nodes.set(id, n);
                proof {
                    assert(nodes_model(nodes@) =~= nodes_model(before) + item_nodes(
                        im[k as int],
                        id as int,
                    ));
                }
            },
        }
        ids.push(id as i32);
        proof {
            assert(nodes_model(nodes@) =~= start + items_nodes(im.take(k + 1), base));
        }
        k = k + 1;
    }
    proof {
        assert(im.take(items.len() as int) =~= im);
    }
    ids
}

/// Every child id of the entry at position `p` of `ns` (numbered from `base`)
/// lies after that entry and before `hi`.
pub open spec fn children_within(ns: Seq<NodeModel>, base: int, hi: int) -> bool {
    forall|p: int, j: int|
        0 <= p < ns.len() && 0 <= j < ns[p].children.len() ==> base + p < #[trigger] ns[p].children[j]
            < hi
}

/// A node table that forms a tree rooted at id 0: every id fits in an `i32`,
/// and every child comes after its parent and exists.
pub open spec fn is_tree(ns: Seq<NodeModel>) -> bool {
    &&& ns.len() >= 1
    &&& ns.len() <= i32::MAX + 1
    &&& children_within(ns, 0, ns.len() as int)
}

proof fn lemma_child_ids_bounds(items: Seq<ItemModel>, base: int)
    requires
        0 <= base,
        base + items_count(items) <= i32::MAX + 1,
    ensures
        forall|k: int|
            0 <= k < items.len() ==> base <= #[trigger] child_ids(items, base)[k] < base
                + items_count(items),
    decreases items.len(),
{
    lemma_nodes_len_items(items, base);
    if items.len() > 0 {
        lemma_item_count_positive(items.last());
        lemma_child_ids_bounds(items.drop_last(), base);
        lemma_nodes_len_items(items.drop_last(), base);
    }
}

proof fn lemma_children_within_concat(a: Seq<NodeModel>, b: Seq<NodeModel>, base: int, hi: int)
    requires
        children_within(a, base, hi),
        children_within(b, base + a.len(), hi),
        base + a.len() <= hi,
    ensures
        children_within(a + b, base, hi),
{
    assert forall|p: int, j: int|
        0 <= p < (a + b).len() && 0 <= j < (a + b)[p].children.len() implies base + p < #[trigger] (a
        + b)[p].children[j] < hi by {
        if p < a.len() {
            assert((a + b)[p] == a[p]);
        } else {
            assert((a + b)[p] == b[p - a.len()]);
        }
    }
}

/// The entries of an item form a tree segment: children after parents, inside
/// the item's own numbering range.
pub proof fn lemma_item_nodes_within(item: ItemModel, base: int)
    requires
        0 <= base,
        base + item_count(item) <= i32::MAX + 1,
    ensures
        children_within(item_nodes(item, base), base, base + item_count(item)),
    decreases item,
{
    lemma_nodes_len_item(item, base);
    match item {
        ItemModel::Submenu { items, .. } => {
            lemma_child_ids_bounds(items, base + 1);
            lemma_items_nodes_within(items, base + 1);
            lemma_nodes_len_items(items, base + 1);
            let head = item_nodes(item, base).take(1);
            assert(children_within(head, base, base + item_count(item))) by {
                assert forall|p: int, j: int|
                    0 <= p < head.len() && 0 <= j < head[p].children.len() implies base + p
                    < #[trigger] head[p].children[j] < base + item_count(item) by {
                    assert(head[p].children == child_ids(items, base + 1));
                }
            }
            assert(item_nodes(item, base) =~= head + items_nodes(items, base + 1));
            lemma_children_within_concat(
                head,
                items_nodes(items, base + 1),
                base,
                base + item_count(item),
            );
        },
        _ => {},
    }
}

/// Likewise for the entries of a sequence of items.
pub proof fn lemma_items_nodes_within(items: Seq<ItemModel>, base: int)
    requires
        0 <= base,
        base + items_count(items) <= i32::MAX + 1,
    ensures
        children_within(items_nodes(items, base), base, base + items_count(items)),
    decreases items,
{
    lemma_nodes_len_items(items, base);
    if items.len() > 0 {
        let rest = items.drop_last();
        lemma_nodes_len_items(rest, base);
        lemma_items_nodes_within(rest, base);
        lemma_item_nodes_within(items.last(), base + items_count(rest));
        lemma_nodes_len_item(items.last(), base + items_count(rest));
        lemma_children_within_concat(
            items_nodes(rest, base),
            item_nodes(items.last(), base + items_count(rest)),
            base,
            base + items_count(items),
        );
    }
}

/// The node table built from any menu whose ids fit in an `i32` is a tree
/// rooted at id 0, with one entry per menu item plus the root.
pub proof fn lemma_menu_nodes_tree(menu: Option<Seq<ItemModel>>)
    requires
        menu_fits(menu),
    ensures
        is_tree(menu_nodes(menu)),
        menu matches Some(items) ==> menu_nodes(menu).len() == 1 + items_count(items),
{
    match menu {
        Some(items) => {
            lemma_nodes_len_items(items, 1);
            lemma_child_ids_bounds(items, 1);
            lemma_items_nodes_within(items, 1);
            let head = seq![root_node(child_ids(items, 1))];
            assert(children_within(head, 0, 1 + items_count(items) as int)) by {
                assert forall|p: int, j: int|
                    0 <= p < head.len() && 0 <= j < head[p].children.len() implies 0 + p
                    < #[trigger] head[p].children[j] < 1 + items_count(items) by {
                    assert(head[p].children == child_ids(items, 1));
                }
            }
            lemma_children_within_concat(head, items_nodes(items, 1), 0, 1 + items_count(items) as int);
        },
        None => {},
    }
}

/// The caller's menu id of the entry with dbusmenu id `id`, if that entry
/// exists and is a button.
pub open spec fn id_lookup(ns: Seq<NodeModel>, id: int) -> Option<u32> {
    if 0 <= id < ns.len() {
        ns[id].menu_id
    } else {
        None
    }
}

/// The caller's menu ids of the buttons of an item, in pre-order.
pub open spec fn item_buttons(item: ItemModel) -> Seq<u32>
    decreases item,
{
    match item {
        ItemModel::Button { id, .. } => seq![id],
        ItemModel::Separator => Seq::empty(),
        ItemModel::Submenu { items, .. } => items_buttons(items),
    }
}

/// The caller's menu ids of the buttons of a sequence of items, in pre-order.
pub open spec fn items_buttons(items: Seq<ItemModel>) -> Seq<u32>
    decreases items,
{
    if items.len() == 0 {
        Seq::empty()
    } else {
        items_buttons(items.drop_last()) + item_buttons(items.last())
    }
}

/// The caller's menu ids recorded in a node table, in id order.
pub open spec fn table_ids(ns: Seq<NodeModel>) -> Seq<u32>
    decreases ns.len(),
{
    if ns.len() == 0 {
        Seq::empty()
    } else {
        table_ids(ns.drop_last()) + match ns.last().menu_id {
            Some(m) => seq![m],
            None => Seq::empty(),
        }
    }
}

/// The depth used for children: unlimited stays unlimited (-1), otherwise one
/// level less.
pub open spec fn next_depth(depth: int) -> int {
    if depth < 0 {
        -1
    } else {
        depth - 1
    }
}

/// The `{sv}` property entries of a node.
pub open spec fn prop_entries(n: NodeModel) -> Seq<Val> {
    if n.separator {
        seq![entry_val("type"@, Val::Str("separator"@))]
    } else {
        (match n.label {
            Some(l) => seq![entry_val("label"@, Val::Str(l))],
            None => Seq::empty(),
        }) + seq![
            entry_val("enabled"@, Val::Bool(n.enabled)),
            entry_val("visible"@, Val::Bool(true)),
        ] + (match n.toggle {
            Some(c) => seq![
                entry_val("toggle-type"@, Val::Str("checkmark"@)),
                entry_val("toggle-state"@, Val::Int32(if c { 1 } else { 0 })),
            ],
            None => Seq::empty(),
        }) + (if n.children.len() > 0 {
            seq![entry_val("children-display"@, Val::Str("submenu"@))]
        } else {
            Seq::empty()
        })
    }
}

/// The `a{sv}` property dictionary of a node.
pub open spec fn props_val(n: NodeModel) -> Val {
    Val::Array(entry_ty(), prop_entries(n))
}

/// The `(ia{sv}av)` layout item of entry `id`, with its children down to
/// `depth` levels (`depth < 0`: all of them; `0`: none).
pub open spec fn layout_val(ns: Seq<NodeModel>, id: int, depth: int) -> Val
    decreases ns.len() - id, ns[id].children.len() + 1,
{
    if 0 <= id < ns.len() {
        Val::Struct(
            seq![
                Val::Int32(id as i32),
                props_val(ns[id]),
                Val::Array(
                    Ty::Variant,
                    if depth != 0 {
                        kids_val(ns, id, ns[id].children, next_depth(depth))
                    } else {
                        Seq::empty()
                    },
                ),
            ],
        )
    } else {
        Val::Struct(Seq::empty())
    }
}

/// The layout items of the children `cs` of entry `parent`, each in a variant.
pub open spec fn kids_val(ns: Seq<NodeModel>, parent: int, cs: Seq<i32>, depth: int) -> Seq<Val>
    decreases ns.len() - parent, cs.len(),
{
    if cs.len() == 0 {
        Seq::empty()
    } else {
        let rest = kids_val(ns, parent, cs.drop_last(), depth);
        let c = cs.last() as int;
        if 0 <= parent < c < ns.len() {
            rest.push(Val::Variant(Box::new(layout_val(ns, c, depth))))
        } else {
            rest
        }
    }
}

/// The type of a layout item: `(ia{sv}av)`.
pub open spec fn layout_ty() -> Ty {
    Ty::Struct(
        seq![Ty::Int32, Ty::Array(Box::new(entry_ty())), Ty::Array(Box::new(Ty::Variant))],
    )
}

/// The type of a group-properties entry: `(ia{sv})`.
pub open spec fn group_entry_ty() -> Ty {
    Ty::Struct(seq![Ty::Int32, Ty::Array(Box::new(entry_ty()))])
}

/// The `(ia{sv})` entries for those of `ids` that exist, in the order asked.
pub open spec fn group_entries(ns: Seq<NodeModel>, ids: Seq<i32>) -> Seq<Val>
    decreases ids.len(),
{
    if ids.len() == 0 {
        Seq::empty()
    } else {
        let rest = group_entries(ns, ids.drop_last());
        let id = ids.last() as int;
        if 0 <= id < ns.len() {
            rest.push(Val::Struct(seq![Val::Int32(ids.last()), props_val(ns[id])]))
        } else {
            rest
        }
    }
}

/// Group properties answer in the order asked: when every id asked for
/// exists, the `k`-th entry is the `k`-th id with that entry's properties;
/// ids that name no entry are left out, so asking only for those gives
/// nothing.
pub proof fn lemma_group_entries_in_order(ns: Seq<NodeModel>, ids: Seq<i32>)
    ensures
        (forall|k: int| 0 <= k < ids.len() ==> 0 <= #[trigger] ids[k] < ns.len()) ==> {
            &&& group_entries(ns, ids).len() == ids.len()
            &&& forall|k: int|
                0 <= k < ids.len() ==> #[trigger] group_entries(ns, ids)[k] == Val::Struct(
                    seq![Val::Int32(ids[k]), props_val(ns[ids[k] as int])],
                )
        },
        (forall|k: int| 0 <= k < ids.len() ==> !(0 <= #[trigger] ids[k] < ns.len())) ==> group_entries(
            ns,
            ids,
        ).len() == 0,
    decreases ids.len(),
{
    if ids.len() > 0 {
        let rest = ids.drop_last();
        lemma_group_entries_in_order(ns, rest);
        if forall|k: int| 0 <= k < ids.len() ==> 0 <= #[trigger] ids[k] < ns.len() {
            assert(forall|k: int| 0 <= k < rest.len() ==> #[trigger] rest[k] == ids[k]);
            assert(0 <= ids[ids.len() - 1] < ns.len());
            assert forall|k: int| 0 <= k < ids.len() implies #[trigger] group_entries(ns, ids)[k]
                == Val::Struct(seq![Val::Int32(ids[k]), props_val(ns[ids[k] as int])]) by {
                if k < rest.len() {
                    assert(rest[k] == ids[k]);
                    assert(group_entries(ns, rest)[k] == Val::Struct(
                        seq![Val::Int32(rest[k]), props_val(ns[rest[k] as int])],
                    ));
                }
            }
        }
        if forall|k: int| 0 <= k < ids.len() ==> !(0 <= #[trigger] ids[k] < ns.len()) {
            assert(forall|k: int| 0 <= k < rest.len() ==> #[trigger] rest[k] == ids[k]);
            assert(!(0 <= ids[ids.len() - 1] < ns.len()));
        }
    }
}

/// `table_ids` of two tables one after the other.
pub proof fn lemma_table_ids_concat(a: Seq<NodeModel>, b: Seq<NodeModel>)
    ensures
        table_ids(a + b) == table_ids(a) + table_ids(b),
    decreases b.len(),
{
    if b.len() == 0 {
        assert(a + b =~= a);
        assert(table_ids(a) + table_ids(b) =~= table_ids(a));
    } else {
        assert((a + b).drop_last() =~= a + b.drop_last());
        lemma_table_ids_concat(a, b.drop_last());
        assert((a + b).last() == b.last());
        let tail = match b.last().menu_id {
            Some(m) => seq![m],
            None => Seq::<u32>::empty(),
        };
        assert(table_ids(a) + table_ids(b.drop_last()) + tail =~= table_ids(a) + (table_ids(
            b.drop_last(),
        ) + tail));
    }
}

proof fn lemma_table_ids_single(n: NodeModel)
    ensures
        table_ids(seq![n]) == match n.menu_id {
            Some(m) => seq![m],
            None => Seq::<u32>::empty(),
        },
{
    assert(seq![n].drop_last() =~= Seq::<NodeModel>::empty());
    assert(table_ids(Seq::<NodeModel>::empty()) + match n.menu_id {
        Some(m) => seq![m],
        None => Seq::<u32>::empty(),
    } =~= match n.menu_id {
        Some(m) => seq![m],
        None => Seq::<u32>::empty(),
    });
}

/// The menu ids recorded in an item's entries are its buttons, in pre-order.
pub proof fn lemma_item_table_ids(item: ItemModel, base: int)
    ensures
        table_ids(item_nodes(item, base)) == item_buttons(item),
    decreases item,
{
    match item {
        ItemModel::Submenu { items, .. } => {
            let head = seq![item_nodes(item, base)[0]];
            assert(item_nodes(item, base) =~= head + items_nodes(items, base + 1));
            lemma_table_ids_single(item_nodes(item, base)[0]);
            lemma_table_ids_concat(head, items_nodes(items, base + 1));
            lemma_items_table_ids(items, base + 1);
            assert(table_ids(head) + items_buttons(items) =~= items_buttons(items));
        },
        _ => {
            lemma_table_ids_single(item_nodes(item, base)[0]);
            assert(item_nodes(item, base) =~= seq![item_nodes(item, base)[0]]);
        },
    }
}

/// Likewise for a sequence of items.
pub proof fn lemma_items_table_ids(items: Seq<ItemModel>, base: int)
    ensures
        table_ids(items_nodes(items, base)) == items_buttons(items),
    decreases items,
{
    if items.len() > 0 {
        let rest = items.drop_last();
        lemma_items_table_ids(rest, base);
        lemma_item_table_ids(items.last(), base + items_count(rest));
        lemma_table_ids_concat(
            items_nodes(rest, base),
            item_nodes(items.last(), base + items_count(rest)),
        );
    }
}

/// Clicks map back: the caller's menu ids found in the node table, read in
/// dbusmenu-id order, are exactly the ids of the menu's buttons, in
/// pre-order; the root, separators and submenus carry none.
pub proof fn lemma_clicks_map_back(menu: Option<Seq<ItemModel>>)
    ensures
        table_ids(menu_nodes(menu)) == match menu {
            Some(items) => items_buttons(items),
            None => Seq::<u32>::empty(),
        },
{
    match menu {
        Some(items) => {
            let head = seq![root_node(child_ids(items, 1))];
            lemma_table_ids_single(root_node(child_ids(items, 1)));
            lemma_table_ids_concat(head, items_nodes(items, 1));
            lemma_items_table_ids(items, 1);
            assert(table_ids(head) + items_buttons(items) =~= items_buttons(items));
        },
        None => {
            lemma_table_ids_single(root_node(Seq::empty()));
        },
    }
}

/// Whether entry `n` shows `item` by itself: a separator is a separator; a
/// button carries its label, enabled state, checkmark state and menu id; a
/// submenu carries its label and enabled state and has one child per item.
pub open spec fn shows(n: NodeModel, item: ItemModel) -> bool {
    match item {
        ItemModel::Separator => {
            &&& n.separator
            &&& n.label is None
            &&& n.toggle is None
            &&& n.menu_id is None
            &&& n.children.len() == 0
        },
        ItemModel::Button { id, label, enabled, checked } => {
            &&& !n.separator
            &&& n.label == Some(label)
            &&& n.enabled == enabled
            &&& n.toggle == checked
            &&& n.menu_id == Some(id)
            &&& n.children.len() == 0
        },
        ItemModel::Submenu { label, enabled, items } => {
            &&& !n.separator
            &&& n.label == Some(label)
            &&& n.enabled == enabled
            &&& n.toggle is None
            &&& n.menu_id is None
            &&& n.children.len() == items.len()
        },
    }
}

/// Whether entry `id` of `ns` shows `item`, and, for a submenu, its child
/// entries show the submenu's items, each at every depth.
pub open spec fn item_shown(ns: Seq<NodeModel>, id: int, item: ItemModel) -> bool
    decreases item,
{
    &&& 0 <= id < ns.len()
    &&& shows(ns[id], item)
    &&& match item {
        ItemModel::Submenu { items, .. } => items_shown(ns, ns[id].children, items),
        _ => true,
    }
}

/// Whether the entries `ids` of `ns` show `items`, one for one and in order.
pub open spec fn items_shown(ns: Seq<NodeModel>, ids: Seq<i32>, items: Seq<ItemModel>) -> bool
    decreases items,
{
    &&& ids.len() == items.len()
    &&& items.len() > 0 ==> {
        &&& items_shown(ns, ids.drop_last(), items.drop_last())
        &&& item_shown(ns, ids.last() as int, items.last())
    }
}

/// Whether `seg` stands in `ns` from position `base` on.
pub open spec fn segment_at(ns: Seq<NodeModel>, base: int, seg: Seq<NodeModel>) -> bool {
    &&& 0 <= base
    &&& base + seg.len() <= ns.len()
    &&& forall|p: int| 0 <= p < seg.len() ==> ns[base + p] == #[trigger] seg[p]
}

proof fn lemma_item_shown(ns: Seq<NodeModel>, item: ItemModel, base: int)
    requires
        segment_at(ns, base, item_nodes(item, base)),
        base + item_count(item) <= i32::MAX + 1,
    ensures
        item_shown(ns, base, item),
    decreases item,
{
    lemma_nodes_len_item(item, base);
    assert(ns[base + 0] == item_nodes(item, base)[0]);
    match item {
        ItemModel::Submenu { items, .. } => {
            let tail = items_nodes(items, base + 1);
            lemma_nodes_len_items(items, base + 1);
            assert(item_nodes(item, base) =~= seq![item_nodes(item, base)[0]] + tail);
            assert forall|p: int| 0 <= p < tail.len() implies ns[(base + 1) + p] == #[trigger] tail[p] by {
                assert(item_nodes(item, base)[p + 1] == tail[p]);
            }
            lemma_items_shown(ns, items, base + 1);
        },
        _ => {},
    }
}

proof fn lemma_items_shown(ns: Seq<NodeModel>, items: Seq<ItemModel>, base: int)
    requires
        segment_at(ns, base, items_nodes(items, base)),
        base + items_count(items) <= i32::MAX + 1,
    ensures
        items_shown(ns, child_ids(items, base), items),
    decreases items,
{
    lemma_nodes_len_items(items, base);
    if items.len() > 0 {
        let rest = items.drop_last();
        let last = items.last();
        let at = base + items_count(rest);
        let first = items_nodes(rest, base);
        let second = item_nodes(last, at);
        lemma_nodes_len_items(rest, base);
        lemma_nodes_len_item(last, at);
        lemma_item_count_positive(last);
        assert forall|p: int| 0 <= p < first.len() implies ns[base + p] == #[trigger] first[p] by {
            assert(items_nodes(items, base)[p] == first[p]);
        }
        assert forall|p: int| 0 <= p < second.len() implies ns[at + p] == #[trigger] second[p] by {
            assert(items_nodes(items, base)[first.len() + p] == second[p]);
        }
        lemma_items_shown(ns, rest, base);
        lemma_item_shown(ns, last, at);
        let ids = child_ids(items, base);
        assert(ids.drop_last() =~= child_ids(rest, base));
        assert(ids.last() as int == at);
    }
}

/// The node table shows the menu: the root's children are the entries of the
/// menu's items, in order, and every entry carries what its item says (label,
/// enabled state, checkmark state, menu id, and for a submenu the entries of
/// its own items), whatever the nesting.
pub proof fn lemma_menu_shown(items: Seq<ItemModel>)
    requires
        menu_fits(Some(items)),
    ensures
        items_shown(menu_nodes(Some(items)), menu_nodes(Some(items))[0].children, items),
        menu_nodes(Some(items))[0].label is None,
        menu_nodes(Some(items))[0].menu_id is None,
{
    let ns = menu_nodes(Some(items));
    let tail = items_nodes(items, 1);
    lemma_nodes_len_items(items, 1);
    assert forall|p: int| 0 <= p < tail.len() implies ns[1 + p] == #[trigger] tail[p] by {}
    lemma_items_shown(ns, items, 1);
}

proof fn lemma_entry_typed(key: Seq<char>, content: Val)
    requires
        well_typed(content),
    ensures
        well_typed(entry_val(key, content)),
        type_of(entry_val(key, content)) == entry_ty(),
        all_typed(seq![entry_val(key, content)], entry_ty()),
{
    reveal_with_fuel(well_typed, 2);
    reveal_with_fuel(type_of, 2);
    lemma_all_typed_push(Seq::empty(), entry_val(key, content), entry_ty());
    assert(Seq::<Val>::empty().push(entry_val(key, content)) =~= seq![entry_val(key, content)]);
}

/// Whether `e` is a dictionary entry with key `key`.
pub open spec fn keyed(e: Val, key: Seq<char>) -> bool {
    match e {
        Val::DictEntry(k, _) => *k == Val::Str(key),
        _ => false,
    }
}

/// Whether `entries` has an entry with key `key`.
pub open spec fn has_key(entries: Seq<Val>, key: Seq<char>) -> bool {
    exists|i: int| 0 <= i < entries.len() && #[trigger] keyed(entries[i], key)
}

/// What a node's properties say: a separator is of type `separator`; any other
/// entry has its label, its enabled state and visibility; a checkmark entry
/// has toggle type `checkmark` and toggle state 1 when checked, 0 when not,
/// and an entry without one has neither key; an entry with children displays
/// them as a submenu.
pub proof fn lemma_props_show_node(n: NodeModel)
    ensures
        n.separator ==> prop_entries(n).contains(entry_val("type"@, Val::Str("separator"@))),
        !n.separator ==> {
            &&& n.label matches Some(l) ==> prop_entries(n).contains(
                entry_val("label"@, Val::Str(l)),
            )
            &&& prop_entries(n).contains(entry_val("enabled"@, Val::Bool(n.enabled)))
            &&& prop_entries(n).contains(entry_val("visible"@, Val::Bool(true)))
            &&& n.toggle matches Some(c) ==> {
                &&& prop_entries(n).contains(entry_val("toggle-type"@, Val::Str("checkmark"@)))
                &&& prop_entries(n).contains(
                    entry_val("toggle-state"@, Val::Int32(if c { 1 } else { 0 })),
                )
            }
            &&& n.toggle is None ==> !has_key(prop_entries(n), "toggle-state"@) && !has_key(
                prop_entries(n),
                "toggle-type"@,
            )
            &&& n.children.len() > 0 ==> prop_entries(n).contains(
                entry_val("children-display"@, Val::Str("submenu"@)),
            )
        },
{
    let es = prop_entries(n);
    if n.separator {
        assert(es[0] == entry_val("type"@, Val::Str("separator"@)));
    } else {
        let a: Seq<Val> = match n.label {
            Some(l) => seq![entry_val("label"@, Val::Str(l))],
            None => Seq::empty(),
        };
        let b = seq![
            entry_val("enabled"@, Val::Bool(n.enabled)),
            entry_val("visible"@, Val::Bool(true)),
        ];
        let c: Seq<Val> = match n.toggle {
            Some(t) => seq![
                entry_val("toggle-type"@, Val::Str("checkmark"@)),
                entry_val("toggle-state"@, Val::Int32(if t { 1 } else { 0 })),
            ],
            None => Seq::empty(),
        };
        let d: Seq<Val> = if n.children.len() > 0 {
            seq![entry_val("children-display"@, Val::Str("submenu"@))]
        } else {
            Seq::empty()
        };
        assert(es =~= a + b + c + d);
        match n.label {
            Some(l) => {
                assert(es[0] == entry_val("label"@, Val::Str(l)));
            },
            None => {},
        }
        assert(es[a.len() as int] == b[0]);
        assert(es[a.len() as int + 1] == b[1]);
        match n.toggle {
            Some(t) => {
                assert(es[a.len() as int + 2] == c[0]);
                assert(es[a.len() as int + 3] == c[1]);
            },
            None => {
                reveal_strlit("label");
                reveal_strlit("enabled");
                reveal_strlit("visible");
                reveal_strlit("children-display");
                reveal_strlit("toggle-state");
                reveal_strlit("toggle-type");
                assert(es =~= a + b + d);
                assert("label"@.len() == 5);
                assert("enabled"@.len() == 7);
                assert("visible"@.len() == 7);
                assert("children-display"@.len() == 16);
                assert("toggle-state"@.len() == 12);
                assert("toggle-type"@.len() == 11);
                assert forall|i: int| 0 <= i < es.len() implies !#[trigger] keyed(es[i], "toggle-state"@)
                    && !keyed(es[i], "toggle-type"@) by {
                    if i < a.len() {
                        assert(es[i] == a[i]);
                        assert(a[i] matches Val::DictEntry(k, _) && *k == Val::Str("label"@));
                    } else if i < a.len() + 2 {
                        assert(es[i] == b[i - a.len()]);
                    } else {
                        assert(es[i] == d[i - a.len() - 2]);
                    }
                }
            },
        }
        if n.children.len() > 0 {
            assert(es[es.len() - 1] == d[0]);
        }
    }
}

/// A checkbox of the menu's top level is rendered in its own state: the
/// entry that the root lists for it has toggle type `checkmark` and toggle
/// state 1 when the item is checked, 0 when it is not.
pub proof fn lemma_checkbox_rendered(items: Seq<ItemModel>, k: int)
    requires
        menu_fits(Some(items)),
        0 <= k < items.len(),
        items[k] matches ItemModel::Button { checked: Some(_), .. },
    ensures
        items[k] matches ItemModel::Button { checked: Some(c), .. } ==> {
            let ns = menu_nodes(Some(items));
            let id = ns[0].children[k] as int;
            &&& 0 <= id < ns.len()
            &&& prop_entries(ns[id]).contains(entry_val("toggle-type"@, Val::Str("checkmark"@)))
            &&& prop_entries(ns[id]).contains(
                entry_val("toggle-state"@, Val::Int32(if c { 1 } else { 0 })),
            )
        },
{
    let ns = menu_nodes(Some(items));
    lemma_menu_shown(items);
    lemma_items_shown_at(ns, ns[0].children, items, k);
    lemma_props_show_node(ns[ns[0].children[k] as int]);
}

/// The `k`-th of the items shown by `ids` is shown by the `k`-th id.
pub proof fn lemma_items_shown_at(ns: Seq<NodeModel>, ids: Seq<i32>, items: Seq<ItemModel>, k: int)
    requires
        items_shown(ns, ids, items),
        0 <= k < items.len(),
    ensures
        item_shown(ns, ids[k] as int, items[k]),
    decreases items.len(),
{
    if k < items.len() - 1 {
        lemma_items_shown_at(ns, ids.drop_last(), items.drop_last(), k);
    }
}

/// A node's property dictionary is a well-typed `a{sv}`.
pub proof fn lemma_props_typed(n: NodeModel)
    ensures
        well_typed(props_val(n)),
        type_of(props_val(n)) == Ty::Array(Box::new(entry_ty())),
{
    let e = entry_ty();
    if n.separator {
        lemma_entry_typed("type"@, Val::Str("separator"@));
    } else {
        let a = match n.label {
            Some(l) => seq![entry_val("label"@, Val::Str(l))],
            None => Seq::empty(),
        };
        match n.label {
            Some(l) => lemma_entry_typed("label"@, Val::Str(l)),
            None => {},
        }
        let b = seq![
            entry_val("enabled"@, Val::Bool(n.enabled)),
            entry_val("visible"@, Val::Bool(true)),
        ];
        lemma_entry_typed("enabled"@, Val::Bool(n.enabled));
        lemma_entry_typed("visible"@, Val::Bool(true));
        lemma_all_typed_concat(
            seq![entry_val("enabled"@, Val::Bool(n.enabled))],
            seq![entry_val("visible"@, Val::Bool(true))],
            e,
        );
        assert(seq![entry_val("enabled"@, Val::Bool(n.enabled))] + seq![
            entry_val("visible"@, Val::Bool(true)),
        ] =~= b);
        let c = match n.toggle {
            Some(t) => seq![
                entry_val("toggle-type"@, Val::Str("checkmark"@)),
                entry_val("toggle-state"@, Val::Int32(if t { 1 } else { 0 })),
            ],
            None => Seq::empty(),
        };
        match n.toggle {
            Some(t) => {
                lemma_entry_typed("toggle-type"@, Val::Str("checkmark"@));
                lemma_entry_typed("toggle-state"@, Val::Int32(if t { 1 } else { 0 }));
                lemma_all_typed_concat(
                    seq![entry_val("toggle-type"@, Val::Str("checkmark"@))],
                    seq![entry_val("toggle-state"@, Val::Int32(if t { 1 } else { 0 }))],
                    e,
                );
                assert(seq![entry_val("toggle-type"@, Val::Str("checkmark"@))] + seq![
                    entry_val("toggle-state"@, Val::Int32(if t { 1 } else { 0 })),
                ] =~= c);
            },
            None => {},
        }
        let d = if n.children.len() > 0 {
            seq![entry_val("children-display"@, Val::Str("submenu"@))]
        } else {
            Seq::empty()
        };
        lemma_entry_typed("children-display"@, Val::Str("submenu"@));
        lemma_all_typed_concat(a, b, e);
        lemma_all_typed_concat(a + b, c, e);
        lemma_all_typed_concat(a + b + c, d, e);
        assert(prop_entries(n) == a + b + c + d);
    }
}

/// Every layout item rendered from a tree is a well-typed `(ia{sv}av)`.
pub proof fn lemma_layout_typed(ns: Seq<NodeModel>, id: int, depth: int)
    requires
        is_tree(ns),
        0 <= id < ns.len(),
    ensures
        well_typed(layout_val(ns, id, depth)),
        type_of(layout_val(ns, id, depth)) == layout_ty(),
    decreases ns.len() - id, ns[id].children.len() + 1,
{
    let kids = if depth != 0 {
        kids_val(ns, id, ns[id].children, next_depth(depth))
    } else {
        Seq::empty()
    };
    if depth != 0 {
        lemma_kids_typed(ns, id, ns[id].children, next_depth(depth));
    }
    lemma_props_typed(ns[id]);
    if depth == 0 {
        assert(kids =~= Seq::<Val>::empty());
        assert(all_typed(kids, Ty::Variant));
    }
    assert(well_typed(Val::Array(Ty::Variant, kids)));
    lemma_struct3(Val::Int32(id as i32), props_val(ns[id]), Val::Array(Ty::Variant, kids));
}

/// The children's layout items, each in a variant, are well typed.
pub proof fn lemma_kids_typed(ns: Seq<NodeModel>, parent: int, cs: Seq<i32>, depth: int)
    requires
        is_tree(ns),
        0 <= parent < ns.len(),
    ensures
        all_typed(kids_val(ns, parent, cs, depth), Ty::Variant),
    decreases ns.len() - parent, cs.len(),
{
    if cs.len() > 0 {
        lemma_kids_typed(ns, parent, cs.drop_last(), depth);
        let c = cs.last() as int;
        if 0 <= parent < c < ns.len() {
            lemma_layout_typed(ns, c, depth);
            lemma_all_typed_push(
                kids_val(ns, parent, cs.drop_last(), depth),
                Val::Variant(Box::new(layout_val(ns, c, depth))),
                Ty::Variant,
            );
        }
    }
}

/// In a tree, every child of an entry is rendered, in order, each in a
/// variant holding its own layout item one level less deep.
pub proof fn lemma_kids_complete(ns: Seq<NodeModel>, parent: int, cs: Seq<i32>, depth: int)
    requires
        is_tree(ns),
        0 <= parent < ns.len(),
        forall|j: int| 0 <= j < cs.len() ==> parent < #[trigger] cs[j] < ns.len(),
    ensures
        kids_val(ns, parent, cs, depth).len() == cs.len(),
        forall|j: int|
            0 <= j < cs.len() ==> #[trigger] kids_val(ns, parent, cs, depth)[j] == Val::Variant(
                Box::new(layout_val(ns, cs[j] as int, depth)),
            ),
    decreases cs.len(),
{
    if cs.len() > 0 {
        let rest = cs.drop_last();
        assert forall|j: int| 0 <= j < rest.len() implies parent < #[trigger] rest[j] < ns.len() by {
            assert(rest[j] == cs[j]);
        }
        lemma_kids_complete(ns, parent, rest, depth);
        assert(parent < cs[cs.len() - 1]);
    }
}

/// A layout item rendered with any depth other than 0 lists every child of
/// its entry, in order; with depth 0 it lists none.
pub proof fn lemma_layout_children(ns: Seq<NodeModel>, id: int, depth: int)
    requires
        is_tree(ns),
        0 <= id < ns.len(),
    ensures
        layout_val(ns, id, depth) == Val::Struct(
            seq![
                Val::Int32(id as i32),
                props_val(ns[id]),
                Val::Array(
                    Ty::Variant,
                    if depth != 0 {
                        kids_val(ns, id, ns[id].children, next_depth(depth))
                    } else {
                        Seq::empty()
                    },
                ),
            ],
        ),
        depth != 0 ==> kids_val(ns, id, ns[id].children, next_depth(depth)).len()
            == ns[id].children.len(),
        depth != 0 ==> forall|j: int|
            0 <= j < ns[id].children.len() ==> #[trigger] kids_val(
                ns,
                id,
                ns[id].children,
                next_depth(depth),
            )[j] == Val::Variant(
                Box::new(layout_val(ns, ns[id].children[j] as int, next_depth(depth))),
            ),
{
    let cs = ns[id].children;
    assert forall|j: int| 0 <= j < cs.len() implies id < #[trigger] cs[j] < ns.len() by {
        assert(cs[j] == ns[id].children[j]);
    }
    lemma_kids_complete(ns, id, cs, next_depth(depth));
}

/// Every `GetGroupProperties` reply is a well-typed `a(ia{sv})`.
pub proof fn lemma_group_typed(ns: Seq<NodeModel>, ids: Seq<i32>)
    ensures
        well_typed(Val::Array(group_entry_ty(), group_entries(ns, ids))),
    decreases ids.len(),
{
    if ids.len() > 0 {
        lemma_group_typed(ns, ids.drop_last());
        reveal_with_fuel(type_of, 2);
        let id = ids.last() as int;
        if 0 <= id < ns.len() {
            lemma_props_typed(ns[id]);
            lemma_struct2(Val::Int32(ids.last()), props_val(ns[id]));
            let v = Val::Struct(seq![Val::Int32(ids.last()), props_val(ns[id])]);
            assert(type_of(v) == group_entry_ty());
            lemma_all_typed_push(group_entries(ns, ids.drop_last()), v, group_entry_ty());
            assert(group_entries(ns, ids) == group_entries(ns, ids.drop_last()).push(v));
        } else {
            assert(group_entries(ns, ids) == group_entries(ns, ids.drop_last()));
        }
    } else {
        assert(group_entries(ns, ids) =~= Seq::<Val>::empty());
        assert(all_typed(group_entries(ns, ids), group_entry_ty()));
    }
}

/// Appends `v` to `out`, keeping track of the models.
fn push_value(out: &mut Vec<DValue>, v: DValue)
    ensures
        values_model(final(out)@) == values_model(old(out)@).push(v@),
{
    proof {
        lemma_values_model_push(out@, v);
    }
    out.push(v);
}

/// The `a{sv}` property dictionary of a node.
fn node_props(n: &Node) -> (r: DValue)
    ensures
        r@ == props_val(n@),
{
    let mut entries: Vec<DValue> = Vec::new();
    if n.separator {
        push_value(&mut entries, dict_entry("type", PropValue::Str(String::from_str("separator"))));
    } else {
        match &n.label {
            Some(l) => push_value(&mut entries, dict_entry("label", PropValue::Str(l.clone()))),
            None => {},
        }
        push_value(&mut entries, dict_entry("enabled", PropValue::Bool(n.enabled)));
        push_value(&mut entries, dict_entry("visible", PropValue::Bool(true)));
        match n.toggle {
            Some(c) => {
                push_value(
                    &mut entries,
                    dict_entry("toggle-type", PropValue::Str(String::from_str("checkmark"))),
                );
                push_value(
                    &mut entries,
                    dict_entry("toggle-state", PropValue::Int32(if c { 1 } else { 0 })),
                );
            },
            None => {},
        }
        if n.children.len() > 0 {
            push_value(
                &mut entries,
                dict_entry("children-display", PropValue::Str(String::from_str("submenu"))),
            );
        }
    }
    proof {
        assert(values_model(entries@) =~= prop_entries(n@));
    }
    DValue::Array(entry_sig(), entries)
}

pub open spec fn min(a: int, b: int) -> int {
    if a < b {
        a
    } else {
        b
    }
}

/// The number of entries `item` takes, or `cap` if that is smaller.
fn item_count_capped(item: &MenuItem, cap: u64) -> (r: u64)
    ensures
        r == min(item_count(item@) as int, cap as int),
    decreases item,
{
    match item {
        MenuItem::Submenu { items, .. } => {
            if cap == 0 {
                0
            } else {
                1 + items_count_capped(items, cap - 1)
            }
        },
        _ => {
            if cap == 0 {
                0
            } else {
                1
            }
        },
    }
}

/// The number of entries `items` take, or `cap` if that is smaller.
fn items_count_capped(items: &Vec<MenuItem>, cap: u64) -> (r: u64)
    ensures
        r == min(items_count(items_model(items@)) as int, cap as int),
    decreases items,
{
    let ghost im = items_model(items@);
    proof {
        lemma_items_model(items@);
        assert(im.take(0) =~= Seq::<ItemModel>::empty());
    }
    let mut total: u64 = 0;
    let mut k: usize = 0;
    while k < items.len()
        invariant
            k <= items.len(),
            im == items_model(items@),
            im.len() == items.len(),
            forall|i: int| 0 <= i < items.len() ==> #[trigger] im[i] == items@[i]@,
            total == min(items_count(im.take(k as int)) as int, cap as int),
        decreases items.len() - k,
    {
        proof {
            assert(im.take(k + 1) =~= im.take(k as int).push(im[k as int]));
            lemma_items_push(im.take(k as int), im[k as int], 0);
            assert(decreases_to!(items => items@));
            assert(decreases_to!(items@ => items@[k as int]));
        }
        if total < cap {
            total = total + item_count_capped(&items[k], cap - total);
        }
        k = k + 1;
    }
    proof {
        assert(im.take(items.len() as int) =~= im);
    }
    total
}

/// The rendered menu: the node table plus a revision that hosts use to know
/// when to re-fetch the layout.
pub struct DbusMenu {
    revision: u32,
    nodes: Vec<Node>,
}

impl DbusMenu {
    #[verifier::type_invariant]
    closed spec fn well_formed(self) -> bool {
        is_tree(nodes_model(self.nodes@))
    }

    /// The content of the node table, indexed by dbusmenu id.
    pub closed spec fn nodes(self) -> Seq<NodeModel> {
        nodes_model(self.nodes@)
    }

    /// The layout revision this table was built with.
    pub closed spec fn spec_revision(self) -> u32 {
        self.revision
    }

    /// The layout revision this table was built with.
    pub fn revision(&self) -> (r: u32)
        ensures
            r == self.spec_revision(),
    {
        self.revision
    }

    /// Whether every id of the table built from `menu` fits in an `i32`, as
    /// [`DbusMenu::build`] requires.
    pub fn fits(menu: Option<&Menu>) -> (r: bool)
        ensures
            r == menu_fits(optional_menu(menu)),
    {
        match menu {
            Some(m) => items_count_capped(m.entries(), 2147483648u64) <= 2147483647u64,
            None => true,
        }
    }

    /// Builds a menu model. `revision` should be strictly greater than the
    /// previous model's so hosts notice the change after a `LayoutUpdated`.
    pub fn build(menu: Option<&Menu>, revision: u32) -> (r: DbusMenu)
        requires
            menu_fits(optional_menu(menu)),
        ensures
            r.spec_revision() == revision,
            r.nodes() == menu_nodes(optional_menu(menu)),
    {
        let mut nodes: Vec<Node> = Vec::new();
        nodes.push(Node {
            label: None,
            separator: false,
            enabled: true,
            toggle: None,
            children: Vec::new(),
            menu_id: None,
        });
        match menu {
            Some(m) => {
                let entries = m.entries();
                let children = add_items(&mut nodes, entries);
                let root = Node {
                    label: None,
                    separator: false,
                    enabled: true,
                    toggle: None,
                    children,
                    menu_id: None,
                };
                proof {
                    lemma_nodes_model_update(nodes@, 0, root);
                }
                nodes.set(0, root);
                proof {
                    assert(nodes_model(nodes@) =~= menu_nodes(optional_menu(menu)));
                }
            },
            None => {
                proof {
                    assert(nodes_model(nodes@) =~= menu_nodes(optional_menu(menu)));
                }
            },
        }
        proof {
            lemma_menu_nodes_tree(optional_menu(menu));
        }
        DbusMenu { revision, nodes }
    }

    /// The node with dbusmenu id `id`, if there is one.
    fn node(&self, id: i32) -> (r: Option<&Node>)
        ensures
            match r {
                Some(n) => 0 <= id < self.nodes().len() && n@ == self.nodes()[id as int],
                None => !(0 <= id < self.nodes().len()),
            },
    {
        if id < 0 {
            None
        } else {
            let i = id as usize;
            if i < self.nodes.len() {
                Some(&self.nodes[i])
            } else {
                None
            }
        }
    }

    /// Maps a dbusmenu id back to the caller's menu id: `Some` exactly when the
    /// id names an existing button entry.
    pub fn menu_id_for(&self, id: i32) -> (r: Option<u32>)
        ensures
            r == id_lookup(self.nodes(), id as int),
    {
        match self.node(id) {
            Some(n) => n.menu_id,
            None => None,
        }
    }

    /// The `(ia{sv}av)` layout item for `id`, with children down to `depth`
    /// levels (`depth < 0` means unlimited, matching dbusmenu's -1); `None`
    /// when there is no such entry.
    pub fn layout(&self, id: i32, depth: i32) -> (r: Option<DValue>)
        ensures
            match r {
                Some(v) => 0 <= id < self.nodes().len() && v@ == layout_val(
                    self.nodes(),
                    id as int,
                    depth as int,
                ),
                None => !(0 <= id < self.nodes().len()),
            },
        decreases self.nodes().len() - id,
    {
        proof {
            use_type_invariant(self);
        }
        let node = match self.node(id) {
            Some(n) => n,
            None => return None,
        };
        let ghost ns = self.nodes();
        let mut fields: Vec<DValue> = Vec::new();
        push_value(&mut fields, DValue::Int32(id));
        push_value(&mut fields, node_props(node));
        let mut kids: Vec<DValue> = Vec::new();
        if depth != 0 {
            let next = if depth < 0 { -1 } else { depth - 1 };
            let mut k: usize = 0;
            while k < node.children.len()
                invariant
                    0 <= id < ns.len(),
                    ns == self.nodes(),
                    is_tree(ns),
                    node@ == ns[id as int],
                    next as int == next_depth(depth as int),
                    k <= node.children.len(),
                    values_model(kids@) == kids_val(ns, id as int, node.children@.take(k as int), next as int),
                decreases node.children.len() - k,
            {
                let c = node.children[k];
                proof {
                    assert(c == ns[id as int].children[k as int]);
                    assert(0 <= id < c < ns.len());
                    assert(node.children@.take(k + 1).drop_last() =~= node.children@.take(k as int));
                }
                match self.layout(c, next) {
                    Some(v) => push_value(&mut kids, DValue::Variant(Box::new(v))),
                    None => {},
                }
                proof {
                    reveal_with_fuel(value_model, 2);
                }
                k = k + 1;
            }
            proof {
                assert(node.children@.take(node.children.len() as int) =~= node.children@);
            }
        }
        push_value(&mut fields, DValue::Array(Sig::Variant, kids));
        proof {
            assert(values_model(fields@) =~= seq![
                Val::Int32(id),
                props_val(ns[id as int]),
                Val::Array(
                    Ty::Variant,
                    if depth != 0 {
                        kids_val(ns, id as int, ns[id as int].children, next_depth(depth as int))
                    } else {
                        Seq::empty()
                    },
                ),
            ]);
        }
        Some(DValue::Struct(fields))
    }

    /// The `GetLayout` reply body: the revision, then the layout item rooted
    /// at `parent` (nothing more when there is no such entry).
    pub fn get_layout(&self, parent: i32, depth: i32) -> (r: Vec<DValue>)
        ensures
            values_model(r@) == seq![Val::UInt32(self.spec_revision())] + if 0 <= parent
                < self.nodes().len() {
                seq![layout_val(self.nodes(), parent as int, depth as int)]
            } else {
                Seq::empty()
            },
    {
        let mut out: Vec<DValue> = Vec::new();
        push_value(&mut out, DValue::UInt32(self.revision));
        match self.layout(parent, depth) {
            Some(v) => push_value(&mut out, v),
            None => {},
        }
        proof {
            assert(values_model(out@) =~= seq![Val::UInt32(self.spec_revision())] + if 0 <= parent
                < self.nodes().len() {
                seq![layout_val(self.nodes(), parent as int, depth as int)]
            } else {
                Seq::empty()
            });
        }
        out
    }

    /// The `GetGroupProperties` reply body: an `a(ia{sv})` array with one
    /// entry per requested id that exists, in the order requested.
    pub fn group_properties(&self, ids: &[i32]) -> (r: DValue)
        ensures
            r@ == Val::Array(group_entry_ty(), group_entries(self.nodes(), ids@)),
    {
        let ghost ns = self.nodes();
        let mut entries: Vec<DValue> = Vec::new();
        let mut k: usize = 0;
        while k < ids.len()
            invariant
                ns == self.nodes(),
                k <= ids.len(),
                values_model(entries@) == group_entries(ns, ids@.take(k as int)),
            decreases ids.len() - k,
        {
            let id = ids[k];
            proof {
                assert(ids@.take(k + 1).drop_last() =~= ids@.take(k as int));
            }
            match self.node(id) {
                Some(n) => {
                    let mut fields: Vec<DValue> = Vec::new();
                    push_value(&mut fields, DValue::Int32(id));
                    push_value(&mut fields, node_props(n));
                    proof {
                        assert(values_model(fields@) =~= seq![Val::Int32(id), props_val(ns[id as int])]);
                    }
                    push_value(&mut entries, DValue::Struct(fields));
                },
                None => {},
            }
            k = k + 1;
        }
        proof {
            assert(ids@.take(ids.len() as int) =~= ids@);
        }
        let mut fs: Vec<Sig> = Vec::new();
        fs.push(Sig::Int32);
        fs.push(Sig::Array(Box::new(entry_sig())));
        proof {
            reveal_with_fuel(sigs_model, 3);
            reveal_with_fuel(sig_model, 2);
            assert(sigs_model(fs@) =~= seq![Ty::Int32, Ty::Array(Box::new(entry_ty()))]);
        }
        DValue::Array(Sig::Struct(fs), entries)
    }
}

} // verus!
