//! Property values of the StatusNotifierItem and dbusmenu interfaces, and the
//! `{sv}` dictionary entries that carry them.
use vstd::prelude::*;
use vstd::string::*;
use super::value::{
    all_typed, all_well_typed, type_of, types_of, value_model, values_model, well_typed,
    sig_model, sigs_model, DValue, Sig, Ty, Val,
};

verus! {

/// A value that can be wrapped in a D-Bus `variant`. Covers exactly the
/// property types the StatusNotifierItem interface exposes.
pub enum PropValue {
    /// `s`
    Str(String),
    /// `o`
    ObjectPath(String),
    /// `b`
    Bool(bool),
    /// `i`
    Int32(i32),
    /// `a(iiay)` with a single entry: the icon pixmap in ARGB32 (network order).
    Pixmap { width: i32, height: i32, argb: Vec<u8> },
    /// `(sa(iiay)ss)`: StatusNotifierItem tooltip (icon name, pixmaps, title, body).
    ToolTip { title: String, body: String },
}

/// The type of one pixmap: `(iiay)`.
pub open spec fn pixmap_entry_ty() -> Ty {
    Ty::Struct(seq![Ty::Int32, Ty::Int32, Ty::Array(Box::new(Ty::Byte))])
}

/// An `a(iiay)` array holding one `(width, height, ARGB bytes)` entry.
pub open spec fn pixmap_val(width: i32, height: i32, argb: Seq<u8>) -> Val {
    Val::Array(
        pixmap_entry_ty(),
        seq![Val::Struct(seq![Val::Int32(width), Val::Int32(height), Val::Bytes(argb)])],
    )
}

/// What a property value holds once wrapped in a variant.
pub open spec fn prop_content(p: PropValue) -> Val {
    match p {
        PropValue::Str(s) => Val::Str(s@),
        PropValue::ObjectPath(s) => Val::ObjectPath(s@),
        PropValue::Bool(b) => Val::Bool(b),
        PropValue::Int32(n) => Val::Int32(n),
        PropValue::Pixmap { width, height, argb } => pixmap_val(width, height, argb@),
        PropValue::ToolTip { title, body } => Val::Struct(
            seq![
                Val::Str(Seq::empty()),
                Val::Array(pixmap_entry_ty(), Seq::empty()),
                Val::Str(title@),
                Val::Str(body@),
            ],
        ),
    }
}

/// A `{sv}` dictionary entry: `key` and the variant holding `content`.
pub open spec fn entry_val(key: Seq<char>, content: Val) -> Val {
    Val::DictEntry(Box::new(Val::Str(key)), Box::new(Val::Variant(Box::new(content))))
}

/// The type of a `{sv}` entry.
pub open spec fn entry_ty() -> Ty {
    Ty::DictEntry(Box::new(Ty::Str), Box::new(Ty::Variant))
}

fn pixmap_entry_sig() -> (r: Sig)
    ensures
        r@ == pixmap_entry_ty(),
{
    let mut fs: Vec<Sig> = Vec::new();
    fs.push(Sig::Int32);
    fs.push(Sig::Int32);
    fs.push(Sig::Array(Box::new(Sig::Byte)));
    let r = Sig::Struct(fs);
    proof {
        reveal_with_fuel(sigs_model, 4);
        assert(sigs_model(fs@) =~= seq![Ty::Int32, Ty::Int32, Ty::Array(Box::new(Ty::Byte))]);
    }
    r
}

/// The `{sv}` entry type.
pub fn entry_sig() -> (r: Sig)
    ensures
        r@ == entry_ty(),
{
    let r = Sig::DictEntry(Box::new(Sig::Str), Box::new(Sig::Variant));
    proof {
        reveal_with_fuel(sig_model, 2);
    }
    r
}

/// An `a(iiay)` array holding one `(width, height, ARGB bytes)` entry.
pub fn pixmap(width: i32, height: i32, argb: Vec<u8>) -> (r: DValue)
    ensures
        r@ == pixmap_val(width, height, argb@),
{
    let mut fields: Vec<DValue> = Vec::new();
    fields.push(DValue::Int32(width));
    fields.push(DValue::Int32(height));
    fields.push(DValue::Bytes(argb));
    let entry = DValue::Struct(fields);
    let mut items: Vec<DValue> = Vec::new();
    items.push(entry);
    let r = DValue::Array(pixmap_entry_sig(), items);
    proof {
        reveal_with_fuel(values_model, 4);
        assert(values_model(fields@) =~= seq![
            Val::Int32(width),
            Val::Int32(height),
            Val::Bytes(argb@),
        ]);
        assert(values_model(items@) =~= seq![value_model(entry)]);
    }
    r
}

/// An empty array of elements of type `element`.
pub fn empty_array(element: Sig) -> (r: DValue)
    ensures
        r@ == Val::Array(element@, Seq::empty()),
{
    let r = DValue::Array(element, Vec::new());
    assert(values_model(Seq::<DValue>::empty()) =~= Seq::<Val>::empty());
    r
}

/// Wraps a property value in a D-Bus `variant`.
pub fn variant(value: PropValue) -> (r: DValue)
    ensures
        r@ == Val::Variant(Box::new(prop_content(value))),
        value matches PropValue::ToolTip { title, body } ==> r@ == Val::Variant(
            Box::new(
                Val::Struct(
                    seq![
                        Val::Str(Seq::empty()),
                        Val::Array(pixmap_entry_ty(), Seq::empty()),
                        Val::Str(title@),
                        Val::Str(body@),
                    ],
                ),
            ),
        ),
{
    let content = match value {
        PropValue::Str(s) => DValue::Str(s),
        PropValue::ObjectPath(s) => DValue::ObjectPath(s),
        PropValue::Bool(b) => DValue::Bool(b),
        PropValue::Int32(n) => DValue::Int32(n),
        PropValue::Pixmap { width, height, argb } => pixmap(width, height, argb),
        PropValue::ToolTip { title, body } => {
            let mut fields: Vec<DValue> = Vec::new();
            fields.push(DValue::Str(String::new()));
            fields.push(empty_array(pixmap_entry_sig()));
            fields.push(DValue::Str(title));
            fields.push(DValue::Str(body));
            proof {
                reveal_with_fuel(values_model, 5);
                assert(values_model(fields@) =~= seq![
                    Val::Str(Seq::empty()),
                    Val::Array(pixmap_entry_ty(), Seq::empty()),
                    Val::Str(title@),
                    Val::Str(body@),
                ]);
            }
            DValue::Struct(fields)
        },
    };
    proof {
        reveal_with_fuel(value_model, 2);
    }
    DValue::Variant(Box::new(content))
}

/// A `{sv}` dictionary entry: `key` mapped to `value` wrapped in a variant.
pub fn dict_entry(key: &str, value: PropValue) -> (r: DValue)
    ensures
        r@ == entry_val(key@, prop_content(value)),
{
    let k = DValue::Str(String::from_str(key));
    let v = variant(value);
    proof {
        reveal_with_fuel(value_model, 2);
    }
    DValue::DictEntry(Box::new(k), Box::new(v))
}

/// What each kind of property holds: a string, object path, boolean or
/// integer holds itself; a pixmap holds one `(width, height, bytes)` entry; a
/// tooltip holds an empty icon name, no pixmaps, then its title, then its
/// body.
pub proof fn lemma_prop_fields(p: PropValue)
    ensures
        p matches PropValue::Str(s) ==> prop_content(p) == Val::Str(s@),
        p matches PropValue::ObjectPath(s) ==> prop_content(p) == Val::ObjectPath(s@),
        p matches PropValue::Bool(b) ==> prop_content(p) == Val::Bool(b),
        p matches PropValue::Int32(n) ==> prop_content(p) == Val::Int32(n),
        p matches PropValue::Pixmap { width, height, argb } ==> {
            &&& prop_content(p) matches Val::Array(t, es)
            &&& t == pixmap_entry_ty()
            &&& es.len() == 1
            &&& es[0] matches Val::Struct(fs)
            &&& fs.len() == 3
            &&& fs[0] == Val::Int32(width)
            &&& fs[1] == Val::Int32(height)
            &&& fs[2] == Val::Bytes(argb@)
        },
        p matches PropValue::ToolTip { title, body } ==> {
            &&& prop_content(p) matches Val::Struct(fs)
            &&& fs.len() == 4
            &&& fs[0] == Val::Str(Seq::empty())
            &&& fs[1] matches Val::Array(t, es)
            &&& t == pixmap_entry_ty()
            &&& es.len() == 0
            &&& fs[2] == Val::Str(title@)
            &&& fs[3] == Val::Str(body@)
        },
{
}

/// Every property value, wrapped in a variant, is well typed.
pub proof fn lemma_prop_well_typed(p: PropValue)
    ensures
        well_typed(prop_content(p)),
        well_typed(Val::Variant(Box::new(prop_content(p)))),
{
    reveal_with_fuel(well_typed, 3);
    reveal_with_fuel(all_typed, 2);
    reveal_with_fuel(all_well_typed, 5);
    reveal_with_fuel(types_of, 4);
    reveal_with_fuel(type_of, 3);
    match p {
        PropValue::Pixmap { width, height, argb } => {
            let f = seq![Val::Int32(width), Val::Int32(height), Val::Bytes(argb@)];
            assert(f.drop_last().drop_last().drop_last() =~= Seq::<Val>::empty());
            assert(types_of(f) =~= seq![Ty::Int32, Ty::Int32, Ty::Array(Box::new(Ty::Byte))]);
            assert(seq![Val::Struct(f)].drop_last() =~= Seq::<Val>::empty());
            assert(all_well_typed(f));
            assert(well_typed(Val::Struct(f)));
            assert(type_of(Val::Struct(f)) == pixmap_entry_ty());
            assert(all_typed(seq![Val::Struct(f)], pixmap_entry_ty()));
        },
        PropValue::ToolTip { title, body } => {
            let f = seq![
                Val::Str(Seq::empty()),
                Val::Array(pixmap_entry_ty(), Seq::empty()),
                Val::Str(title@),
                Val::Str(body@),
            ];
            assert(f.drop_last().drop_last().drop_last().drop_last() =~= Seq::<Val>::empty());
            assert(well_typed(f[1]));
            assert(all_well_typed(f.drop_last().drop_last().drop_last()));
            assert(all_well_typed(f.drop_last().drop_last()));
            assert(all_well_typed(f.drop_last()));
            assert(all_well_typed(f));
        },
        _ => {},
    }
}

/// Every `{sv}` entry made from a property value is well typed and of the
/// `{sv}` type.
pub proof fn lemma_entry_well_typed(key: Seq<char>, p: PropValue)
    ensures
        well_typed(entry_val(key, prop_content(p))),
        type_of(entry_val(key, prop_content(p))) == entry_ty(),
{
    lemma_prop_well_typed(p);
    reveal_with_fuel(well_typed, 2);
    reveal_with_fuel(type_of, 2);
}

} // verus!
