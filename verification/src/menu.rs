//! Menu description: the caller-facing tree of buttons, checkboxes, separators
//! and submenus that a tray shows on right-click.
use vstd::prelude::*;
use vstd::string::*;

verus! {

/// Stable identifier for a clickable menu entry.
///
/// You choose the numbers; they are echoed back verbatim in `Event::Menu`
/// when the user activates the corresponding item.
#[derive(Clone, Copy, PartialEq, Eq, Hash, Debug)]
pub struct MenuId(pub u32);

/// A single entry in a [`Menu`].
#[derive(Debug)]
pub enum MenuItem {
    /// A clickable entry. When activated it emits `Event::Menu` with `id`.
    Button {
        /// Identifier reported back on click.
        id: MenuId,
        /// Text shown to the user.
        label: String,
        /// Whether the entry is selectable.
        enabled: bool,
        /// `Some(true)`/`Some(false)` renders a checkbox in that state; `None`
        /// renders a plain entry.
        checked: Option<bool>,
    },
    /// A horizontal separator line.
    Separator,
    /// A nested submenu.
    Submenu {
        /// Text shown to the user.
        label: String,
        /// Whether the submenu can be opened.
        enabled: bool,
        /// Child entries.
        items: Vec<MenuItem>,
    },
}

/// The mathematical content of a [`MenuItem`]: strings as character
/// sequences, children as a sequence of models.
pub enum ItemModel {
    Button { id: u32, label: Seq<char>, enabled: bool, checked: Option<bool> },
    Separator,
    Submenu { label: Seq<char>, enabled: bool, items: Seq<ItemModel> },
}

/// The model of one menu item.
pub open spec fn item_model(item: MenuItem) -> ItemModel
    decreases item,
{
    match item {
        MenuItem::Button { id, label, enabled, checked } => ItemModel::Button {
            id: id.0,
            label: label@,
            enabled,
            checked,
        },
        MenuItem::Separator => ItemModel::Separator,
        MenuItem::Submenu { label, enabled, items } => ItemModel::Submenu {
            label: label@,
            enabled,
            items: items_model(items@),
        },
    }
}

/// The models of a sequence of menu items, in order.
pub open spec fn items_model(items: Seq<MenuItem>) -> Seq<ItemModel>
    decreases items,
{
    if items.len() == 0 {
        Seq::empty()
    } else {
        items_model(items.drop_last()).push(item_model(items.last()))
    }
}

impl View for MenuItem {
    type V = ItemModel;

    open spec fn view(&self) -> ItemModel {
        item_model(*self)
    }
}

/// `items_model` keeps the length and maps each position.
pub proof fn lemma_items_model(items: Seq<MenuItem>)
    ensures
        items_model(items).len() == items.len(),
        forall|i: int| 0 <= i < items.len() ==> #[trigger] items_model(items)[i] == item_model(items[i]),
    decreases items.len(),
{
    if items.len() > 0 {
        lemma_items_model(items.drop_last());
    }
}

/// `items_model` distributes over appending one item.
pub proof fn lemma_items_model_push(items: Seq<MenuItem>, item: MenuItem)
    ensures
        items_model(items.push(item)) == items_model(items).push(item_model(item)),
{
    assert(items.push(item).drop_last() =~= items);
}

fn copy_item(item: &MenuItem) -> (r: MenuItem)
    ensures
        r@ == item@,
    decreases item,
{
    match item {
        MenuItem::Button { id, label, enabled, checked } => MenuItem::Button {
            id: *id,
            label: label.clone(),
            enabled: *enabled,
            checked: *checked,
        },
        MenuItem::Separator => MenuItem::Separator,
        MenuItem::Submenu { label, enabled, items } => {
            let copied = copy_items(items);
            MenuItem::Submenu { label: label.clone(), enabled: *enabled, items: copied }
        },
    }
}

fn copy_items(items: &Vec<MenuItem>) -> (r: Vec<MenuItem>)
    ensures
        items_model(r@) == items_model(items@),
    decreases items,
{
    let mut out: Vec<MenuItem> = Vec::new();
    let mut k: usize = 0;
    while k < items.len()
        invariant
            k <= items.len(),
            items_model(out@) == items_model(items@.take(k as int)),
        decreases items.len() - k,
    {
        proof {
            assert(decreases_to!(items => items@));
            assert(decreases_to!(items@ => items@[k as int]));
        }
        let c = copy_item(&items[k]);
        proof {
            lemma_items_model_push(out@, c);
            lemma_items_model_push(items@.take(k as int), items@[k as int]);
            assert(items@.take(k as int).push(items@[k as int]) =~= items@.take(k + 1));
        }
        out.push(c);
        k = k + 1;
    }
    assert(items@.take(items.len() as int) =~= items@);
    out
}

impl Clone for MenuItem {
    /// A deep copy: same model, children copied recursively.
    fn clone(&self) -> (r: Self)
        ensures
            r@ == self@,
    {
        copy_item(self)
    }
}

impl MenuItem {
    /// A plain clickable button.
    pub fn button(id: u32, label: &str) -> (r: MenuItem)
        ensures
            r@ == (ItemModel::Button { id, label: label@, enabled: true, checked: None }),
    {
        MenuItem::Button {
            id: MenuId(id),
            label: String::from_str(label),
            enabled: true,
            checked: None,
        }
    }

    /// A checkbox entry in the given state.
    pub fn checkbox(id: u32, label: &str, checked: bool) -> (r: MenuItem)
        ensures
            r@ == (ItemModel::Button { id, label: label@, enabled: true, checked: Some(checked) }),
    {
        MenuItem::Button {
            id: MenuId(id),
            label: String::from_str(label),
            enabled: true,
            checked: Some(checked),
        }
    }

    /// A separator line.
    pub fn separator() -> (r: MenuItem)
        ensures
            r@ == ItemModel::Separator,
    {
        MenuItem::Separator
    }

    /// A submenu containing `items`, in order.
    pub fn submenu(label: &str, items: Vec<MenuItem>) -> (r: MenuItem)
        ensures
            r@ == (ItemModel::Submenu { label: label@, enabled: true, items: items_model(items@) }),
    {
        MenuItem::Submenu { label: String::from_str(label), enabled: true, items }
    }

    /// Builder: set whether this entry is enabled. No-op on a separator.
    pub fn enabled(self, value: bool) -> (r: MenuItem)
        ensures
            r@ == (match self@ {
                ItemModel::Button { id, label, checked, .. } => ItemModel::Button {
                    id,
                    label,
                    enabled: value,
                    checked,
                },
                ItemModel::Separator => ItemModel::Separator,
                ItemModel::Submenu { label, items, .. } => ItemModel::Submenu {
                    label,
                    enabled: value,
                    items,
                },
            }),
    {
        match self {
            MenuItem::Button { id, label, checked, .. } => MenuItem::Button {
                id,
                label,
                enabled: value,
                checked,
            },
            MenuItem::Separator => MenuItem::Separator,
            MenuItem::Submenu { label, items, .. } => MenuItem::Submenu {
                label,
                enabled: value,
                items,
            },
        }
    }
}

/// An ordered list of [`MenuItem`]s shown when the tray icon is right-clicked
/// (or, on some desktops, on any click).
///
/// A `Menu` is a cheap, immutable description: rebuild and re-apply it
/// whenever it changes.
#[derive(Debug)]
pub struct Menu {
    items: Vec<MenuItem>,
}

impl View for Menu {
    type V = Seq<ItemModel>;

    closed spec fn view(&self) -> Seq<ItemModel> {
        items_model(self.items@)
    }
}

impl Clone for Menu {
    fn clone(&self) -> (r: Self)
        ensures
            r@ == self@,
    {
        Menu { items: copy_items(&self.items) }
    }
}

impl Default for Menu {
    fn default() -> (r: Self)
        ensures
            r@ == Seq::<ItemModel>::empty(),
    {
        Menu::new()
    }
}

impl Menu {
    /// An empty menu.
    pub fn new() -> (r: Menu)
        ensures
            r@ == Seq::<ItemModel>::empty(),
    {
        Menu { items: Vec::new() }
    }

    /// A menu holding `items`, in order.
    pub fn from_items(items: Vec<MenuItem>) -> (r: Menu)
        ensures
            r@ == items_model(items@),
    {
        Menu { items }
    }

    /// Builder: append an item after the existing ones.
    pub fn item(self, item: MenuItem) -> (r: Menu)
        ensures
            r@ == self@.push(item@),
    {
        let mut items = self.items;
        proof {
            lemma_items_model_push(items@, item);
        }
        items.push(item);
        Menu { items }
    }

    /// The menu's entries.
    pub fn items(&self) -> (r: &[MenuItem])
        ensures
            items_model(r@) == self@,
    {
        self.items.as_slice()
    }

    /// The menu's entries, as stored.
    pub(crate) fn entries(&self) -> (r: &Vec<MenuItem>)
        ensures
            items_model(r@) == self@,
    {
        &self.items
    }

    /// Whether the menu has no entries.
    pub fn is_empty(&self) -> (r: bool)
        ensures
            r == (self@.len() == 0),
    {
        proof {
            lemma_items_model(self.items@);
        }
        self.items.len() == 0
    }
}

} // verus!
