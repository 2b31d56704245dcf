//! Typed D-Bus values and their signatures.
use vstd::prelude::*;
use vstd::string::*;

verus! {

/// A D-Bus type.
pub enum Sig {
    /// `y`
    Byte,
    /// `b`
    Bool,
    /// `i`
    Int32,
    /// `u`
    UInt32,
    /// `s`
    Str,
    /// `o`
    ObjectPath,
    /// `v`
    Variant,
    /// `a` followed by the element type.
    Array(Box<Sig>),
    /// `(` fields `)`
    Struct(Vec<Sig>),
    /// `{` key value `}`
    DictEntry(Box<Sig>, Box<Sig>),
}

/// The mathematical form of a D-Bus type.
pub enum Ty {
    Byte,
    Bool,
    Int32,
    UInt32,
    Str,
    ObjectPath,
    Variant,
    Array(Box<Ty>),
    Struct(Seq<Ty>),
    DictEntry(Box<Ty>, Box<Ty>),
}

pub open spec fn sig_model(s: Sig) -> Ty
    decreases s,
{
    match s {
        Sig::Byte => Ty::Byte,
        Sig::Bool => Ty::Bool,
        Sig::Int32 => Ty::Int32,
        Sig::UInt32 => Ty::UInt32,
        Sig::Str => Ty::Str,
        Sig::ObjectPath => Ty::ObjectPath,
        Sig::Variant => Ty::Variant,
        Sig::Array(e) => Ty::Array(Box::new(sig_model(*e))),
        Sig::Struct(fs) => Ty::Struct(sigs_model(fs@)),
        Sig::DictEntry(k, v) => Ty::DictEntry(Box::new(sig_model(*k)), Box::new(sig_model(*v))),
    }
}

pub open spec fn sigs_model(fs: Seq<Sig>) -> Seq<Ty>
    decreases fs,
{
    if fs.len() == 0 {
        Seq::empty()
    } else {
        sigs_model(fs.drop_last()).push(sig_model(fs.last()))
    }
}

impl View for Sig {
    type V = Ty;

    open spec fn view(&self) -> Ty {
        sig_model(*self)
    }
}

/// The signature text of a type, in the D-Bus type grammar.
pub open spec fn ty_text(t: Ty) -> Seq<char>
    decreases t,
{
    match t {
        Ty::Byte => seq!['y'],
        Ty::Bool => seq!['b'],
        Ty::Int32 => seq!['i'],
        Ty::UInt32 => seq!['u'],
        Ty::Str => seq!['s'],
        Ty::ObjectPath => seq!['o'],
        Ty::Variant => seq!['v'],
        Ty::Array(e) => seq!['a'] + ty_text(*e),
        Ty::Struct(fs) => seq!['('] + tys_text(fs) + seq![')'],
        Ty::DictEntry(k, v) => seq!['{'] + ty_text(*k) + ty_text(*v) + seq!['}'],
    }
}

/// The concatenated signature texts of a sequence of types.
pub open spec fn tys_text(fs: Seq<Ty>) -> Seq<char>
    decreases fs,
{
    if fs.len() == 0 {
        Seq::empty()
    } else {
        tys_text(fs.drop_last()) + ty_text(fs.last())
    }
}

/// Whether a value of type `t` may be a dictionary key (a basic type).
pub open spec fn is_basic(t: Ty) -> bool {
    match t {
        Ty::Byte | Ty::Bool | Ty::Int32 | Ty::UInt32 | Ty::Str | Ty::ObjectPath => true,
        _ => false,
    }
}

fn char_str(c: char) -> (r: &'static str)
    requires
        c == 'y' || c == 'b' || c == 'i' || c == 'u' || c == 's' || c == 'o' || c == 'v'
            || c == 'a' || c == '(' || c == ')' || c == '{' || c == '}',
    ensures
        r@ == seq![c],
{
    if c == 'y' {
        proof { reveal_strlit("y"); }
        "y"
    } else if c == 'b' {
        proof { reveal_strlit("b"); }
        "b"
    } else if c == 'i' {
        proof { reveal_strlit("i"); }
        "i"
    } else if c == 'u' {
        proof { reveal_strlit("u"); }
        "u"
    } else if c == 's' {
        proof { reveal_strlit("s"); }
        "s"
    } else if c == 'o' {
        proof { reveal_strlit("o"); }
        "o"
    } else if c == 'v' {
        proof { reveal_strlit("v"); }
        "v"
    } else if c == 'a' {
        proof { reveal_strlit("a"); }
        "a"
    } else if c == '(' {
        proof { reveal_strlit("("); }
        "("
    } else if c == ')' {
        proof { reveal_strlit(")"); }
        ")"
    } else if c == '{' {
        proof { reveal_strlit("{"); }
        "{"
    } else {
        proof { reveal_strlit("}"); }
        "}"
    }
}

/// Appends the signature text of `s` to `out`.
fn write_sig(s: &Sig, out: &mut String)
    ensures
        final(out)@ == old(out)@ + ty_text(s@),
    decreases s,
{
    match s {
        Sig::Byte => out.append(char_str('y')),
        Sig::Bool => out.append(char_str('b')),
        Sig::Int32 => out.append(char_str('i')),
        Sig::UInt32 => out.append(char_str('u')),
        Sig::Str => out.append(char_str('s')),
        Sig::ObjectPath => out.append(char_str('o')),
        Sig::Variant => out.append(char_str('v')),
        Sig::Array(e) => {
            out.append(char_str('a'));
            write_sig(e, out);
            assert(old(out)@ + seq!['a'] + ty_text(e@) =~= old(out)@ + ty_text(s@));
        },
        Sig::Struct(fs) => {
            out.append(char_str('('));
            write_sigs(fs, out);
            out.append(char_str(')'));
            assert(old(out)@ + seq!['('] + tys_text(sigs_model(fs@)) + seq![')'] =~= old(out)@
                + ty_text(s@));
        },
        Sig::DictEntry(k, v) => {
            out.append(char_str('{'));
            write_sig(k, out);
            write_sig(v, out);
            out.append(char_str('}'));
            assert(old(out)@ + seq!['{'] + ty_text(k@) + ty_text(v@) + seq!['}'] =~= old(out)@
                + ty_text(s@));
        },
    }
}

/// Appends the signature texts of `fs`, in order, to `out`.
fn write_sigs(fs: &Vec<Sig>, out: &mut String)
    ensures
        final(out)@ == old(out)@ + tys_text(sigs_model(fs@)),
    decreases fs,
{
    let ghost start = out@;
    let mut k: usize = 0;
    while k < fs.len()
        invariant
            k <= fs.len(),
            out@ == start + tys_text(sigs_model(fs@.take(k as int))),
        decreases fs.len() - k,
    {
        proof {
            assert(decreases_to!(fs => fs@));
            assert(decreases_to!(fs@ => fs@[k as int]));
        }
        write_sig(&fs[k], out);
        proof {
            assert(fs@.take(k + 1).drop_last() =~= fs@.take(k as int));
            assert(sigs_model(fs@.take(k + 1)).drop_last() =~= sigs_model(fs@.take(k as int)));
        }
        k = k + 1;
    }
    assert(fs@.take(fs.len() as int) =~= fs@);
}

impl Sig {
    /// This type's signature text, e.g. `a{sv}` or `(ia{sv}av)`.
    pub fn text(&self) -> (r: String)
        ensures
            r@ == ty_text(self@),
    {
        let mut s = String::new();
        write_sig(self, &mut s);
        assert(Seq::<char>::empty() + ty_text(self@) =~= ty_text(self@));
        s
    }
}

/// A D-Bus value, as appended to a message: basic values, byte arrays
/// (appended in one piece), and the containers that hold other values.
pub enum DValue {
    Bool(bool),
    Int32(i32),
    UInt32(u32),
    Str(String),
    ObjectPath(String),
    /// `ay`, appended as one fixed-size array.
    Bytes(Vec<u8>),
    /// An array whose elements all have the given type.
    Array(Sig, Vec<DValue>),
    Struct(Vec<DValue>),
    DictEntry(Box<DValue>, Box<DValue>),
    /// A variant; its signature is the type of the value inside.
    Variant(Box<DValue>),
}

/// The mathematical form of a D-Bus value.
pub enum Val {
    Bool(bool),
    Int32(i32),
    UInt32(u32),
    Str(Seq<char>),
    ObjectPath(Seq<char>),
    Bytes(Seq<u8>),
    Array(Ty, Seq<Val>),
    Struct(Seq<Val>),
    DictEntry(Box<Val>, Box<Val>),
    Variant(Box<Val>),
}

pub open spec fn value_model(v: DValue) -> Val
    decreases v,
{
    match v {
        DValue::Bool(b) => Val::Bool(b),
        DValue::Int32(n) => Val::Int32(n),
        DValue::UInt32(n) => Val::UInt32(n),
        DValue::Str(s) => Val::Str(s@),
        DValue::ObjectPath(s) => Val::ObjectPath(s@),
        DValue::Bytes(b) => Val::Bytes(b@),
        DValue::Array(t, items) => Val::Array(sig_model(t), values_model(items@)),
        DValue::Struct(fs) => Val::Struct(values_model(fs@)),
        DValue::DictEntry(k, x) => Val::DictEntry(
            Box::new(value_model(*k)),
            Box::new(value_model(*x)),
        ),
        DValue::Variant(x) => Val::Variant(Box::new(value_model(*x))),
    }
}

pub open spec fn values_model(vs: Seq<DValue>) -> Seq<Val>
    decreases vs,
{
    if vs.len() == 0 {
        Seq::empty()
    } else {
        values_model(vs.drop_last()).push(value_model(vs.last()))
    }
}

impl View for DValue {
    type V = Val;

    open spec fn view(&self) -> Val {
        value_model(*self)
    }
}

/// `values_model` keeps the length and maps each position.
pub proof fn lemma_values_model(vs: Seq<DValue>)
    ensures
        values_model(vs).len() == vs.len(),
        forall|i: int| 0 <= i < vs.len() ==> #[trigger] values_model(vs)[i] == value_model(vs[i]),
    decreases vs.len(),
{
    if vs.len() > 0 {
        lemma_values_model(vs.drop_last());
    }
}

/// `values_model` distributes over appending one value.
pub proof fn lemma_values_model_push(vs: Seq<DValue>, v: DValue)
    ensures
        values_model(vs.push(v)) == values_model(vs).push(value_model(v)),
{
    assert(vs.push(v).drop_last() =~= vs);
}

/// The type of a value.
pub open spec fn type_of(v: Val) -> Ty
    decreases v,
{
    match v {
        Val::Bool(_) => Ty::Bool,
        Val::Int32(_) => Ty::Int32,
        Val::UInt32(_) => Ty::UInt32,
        Val::Str(_) => Ty::Str,
        Val::ObjectPath(_) => Ty::ObjectPath,
        Val::Bytes(_) => Ty::Array(Box::new(Ty::Byte)),
        Val::Array(t, _) => Ty::Array(Box::new(t)),
        Val::Struct(fs) => Ty::Struct(types_of(fs)),
        Val::DictEntry(k, x) => Ty::DictEntry(Box::new(type_of(*k)), Box::new(type_of(*x))),
        Val::Variant(_) => Ty::Variant,
    }
}

/// The types of a sequence of values, in order.
pub open spec fn types_of(vs: Seq<Val>) -> Seq<Ty>
    decreases vs,
{
    if vs.len() == 0 {
        Seq::empty()
    } else {
        types_of(vs.drop_last()).push(type_of(vs.last()))
    }
}

/// Whether a value obeys the D-Bus typing rules: every array element has the
/// array's element type, dictionary keys are basic, structs are not empty,
/// and the same holds inside every container.
pub open spec fn well_typed(v: Val) -> bool
    decreases v,
{
    match v {
        Val::Array(t, items) => all_typed(items, t),
        Val::Struct(fs) => fs.len() > 0 && all_well_typed(fs),
        Val::DictEntry(k, x) => is_basic(type_of(*k)) && well_typed(*k) && well_typed(*x),
        Val::Variant(x) => well_typed(*x),
        _ => true,
    }
}

/// Every value in `vs` is well typed.
pub open spec fn all_well_typed(vs: Seq<Val>) -> bool
    decreases vs,
{
    vs.len() > 0 ==> all_well_typed(vs.drop_last()) && well_typed(vs.last())
}

/// Every value in `vs` is well typed and of type `t`.
pub open spec fn all_typed(vs: Seq<Val>, t: Ty) -> bool
    decreases vs,
{
    vs.len() > 0 ==> all_typed(vs.drop_last(), t) && well_typed(vs.last()) && type_of(vs.last())
        == t
}

/// `all_typed` of one more value.
pub proof fn lemma_all_typed_push(vs: Seq<Val>, v: Val, t: Ty)
    ensures
        all_typed(vs.push(v), t) == (all_typed(vs, t) && well_typed(v) && type_of(v) == t),
{
    assert(vs.push(v).drop_last() =~= vs);
}

/// Two sequences of well-typed values of type `t`, one after the other.
pub proof fn lemma_all_typed_concat(a: Seq<Val>, b: Seq<Val>, t: Ty)
    requires
        all_typed(a, t),
        all_typed(b, t),
    ensures
        all_typed(a + b, t),
    decreases b.len(),
{
    if b.len() == 0 {
        assert(a + b =~= a);
    } else {
        lemma_all_typed_concat(a, b.drop_last(), t);
        assert((a + b).drop_last() =~= a + b.drop_last());
    }
}

/// `all_well_typed` of one more value.
pub proof fn lemma_all_well_typed_push(vs: Seq<Val>, v: Val)
    ensures
        all_well_typed(vs.push(v)) == (all_well_typed(vs) && well_typed(v)),
{
    assert(vs.push(v).drop_last() =~= vs);
}

/// `types_of` of one more value.
pub proof fn lemma_types_of_push(vs: Seq<Val>, v: Val)
    ensures
        types_of(vs.push(v)) == types_of(vs).push(type_of(v)),
{
    assert(vs.push(v).drop_last() =~= vs);
}

/// A sequence whose values are each well typed.
pub proof fn lemma_all_well_typed_from(vs: Seq<Val>)
    requires
        forall|i: int| 0 <= i < vs.len() ==> well_typed(#[trigger] vs[i]),
    ensures
        all_well_typed(vs),
    decreases vs.len(),
{
    if vs.len() > 0 {
        lemma_all_well_typed_from(vs.drop_last());
    }
}

/// A sequence whose values are each well typed and of type `t`.
pub proof fn lemma_all_typed_from(vs: Seq<Val>, t: Ty)
    requires
        forall|i: int| 0 <= i < vs.len() ==> well_typed(#[trigger] vs[i]) && type_of(vs[i]) == t,
    ensures
        all_typed(vs, t),
    decreases vs.len(),
{
    if vs.len() > 0 {
        lemma_all_typed_from(vs.drop_last(), t);
    }
}

/// The struct of three well-typed fields is well typed, and its type lists
/// theirs.
pub proof fn lemma_struct3(a: Val, b: Val, c: Val)
    requires
        well_typed(a),
        well_typed(b),
        well_typed(c),
    ensures
        well_typed(Val::Struct(seq![a, b, c])),
        type_of(Val::Struct(seq![a, b, c])) == Ty::Struct(seq![type_of(a), type_of(b), type_of(c)]),
{
    let e = Seq::<Val>::empty();
    lemma_all_well_typed_push(e, a);
    lemma_all_well_typed_push(e.push(a), b);
    lemma_all_well_typed_push(e.push(a).push(b), c);
    lemma_types_of_push(e, a);
    lemma_types_of_push(e.push(a), b);
    lemma_types_of_push(e.push(a).push(b), c);
    assert(e.push(a).push(b).push(c) =~= seq![a, b, c]);
    assert(types_of(e) =~= Seq::<Ty>::empty());
    assert(types_of(seq![a, b, c]) =~= seq![type_of(a), type_of(b), type_of(c)]);
}

/// The struct of two well-typed fields is well typed, and its type lists
/// theirs.
pub proof fn lemma_struct2(a: Val, b: Val)
    requires
        well_typed(a),
        well_typed(b),
    ensures
        well_typed(Val::Struct(seq![a, b])),
        type_of(Val::Struct(seq![a, b])) == Ty::Struct(seq![type_of(a), type_of(b)]),
{
    let e = Seq::<Val>::empty();
    lemma_all_well_typed_push(e, a);
    lemma_all_well_typed_push(e.push(a), b);
    lemma_types_of_push(e, a);
    lemma_types_of_push(e.push(a), b);
    assert(e.push(a).push(b) =~= seq![a, b]);
    assert(types_of(seq![a, b]) =~= seq![type_of(a), type_of(b)]);
}

fn copy_sig(s: &Sig) -> (r: Sig)
    ensures
        r@ == s@,
    decreases s,
{
    match s {
        Sig::Byte => Sig::Byte,
        Sig::Bool => Sig::Bool,
        Sig::Int32 => Sig::Int32,
        Sig::UInt32 => Sig::UInt32,
        Sig::Str => Sig::Str,
        Sig::ObjectPath => Sig::ObjectPath,
        Sig::Variant => Sig::Variant,
        Sig::Array(e) => Sig::Array(Box::new(copy_sig(e))),
        Sig::Struct(fs) => Sig::Struct(copy_sigs(fs)),
        Sig::DictEntry(k, v) => Sig::DictEntry(Box::new(copy_sig(k)), Box::new(copy_sig(v))),
    }
}

fn copy_sigs(fs: &Vec<Sig>) -> (r: Vec<Sig>)
    ensures
        sigs_model(r@) == sigs_model(fs@),
    decreases fs,
{
    let mut out: Vec<Sig> = Vec::new();
    let mut k: usize = 0;
    while k < fs.len()
        invariant
            k <= fs.len(),
            sigs_model(out@) == sigs_model(fs@.take(k as int)),
        decreases fs.len() - k,
    {
        proof {
            assert(decreases_to!(fs => fs@));
            assert(decreases_to!(fs@ => fs@[k as int]));
        }
        let c = copy_sig(&fs[k]);
        proof {
            assert(out@.push(c).drop_last() =~= out@);
            assert(fs@.take(k + 1).drop_last() =~= fs@.take(k as int));
        }
        out.push(c);
        k = k + 1;
    }
    assert(fs@.take(fs.len() as int) =~= fs@);
    out
}

impl Clone for Sig {
    fn clone(&self) -> (r: Self)
        ensures
            r@ == self@,
    {
        copy_sig(self)
    }
}

/// The type of `v`.
fn type_sig(v: &DValue) -> (r: Sig)
    ensures
        r@ == type_of(v@),
    decreases v,
{
    match v {
        DValue::Bool(_) => Sig::Bool,
        DValue::Int32(_) => Sig::Int32,
        DValue::UInt32(_) => Sig::UInt32,
        DValue::Str(_) => Sig::Str,
        DValue::ObjectPath(_) => Sig::ObjectPath,
        DValue::Bytes(_) => Sig::Array(Box::new(Sig::Byte)),
        DValue::Array(t, _) => Sig::Array(Box::new(copy_sig(t))),
        DValue::Struct(fs) => Sig::Struct(type_sigs(fs)),
        DValue::DictEntry(k, x) => Sig::DictEntry(Box::new(type_sig(k)), Box::new(type_sig(x))),
        DValue::Variant(_) => Sig::Variant,
    }
}

fn type_sigs(vs: &Vec<DValue>) -> (r: Vec<Sig>)
    ensures
        sigs_model(r@) == types_of(values_model(vs@)),
    decreases vs,
{
    let mut out: Vec<Sig> = Vec::new();
    let mut k: usize = 0;
    while k < vs.len()
        invariant
            k <= vs.len(),
            sigs_model(out@) == types_of(values_model(vs@.take(k as int))),
        decreases vs.len() - k,
    {
        proof {
            assert(decreases_to!(vs => vs@));
            assert(decreases_to!(vs@ => vs@[k as int]));
        }
        let c = type_sig(&vs[k]);
        proof {
            assert(out@.push(c).drop_last() =~= out@);
            assert(vs@.take(k + 1).drop_last() =~= vs@.take(k as int));
            lemma_values_model_push(vs@.take(k as int), vs@[k as int]);
            assert(values_model(vs@.take(k + 1)).drop_last() =~= values_model(vs@.take(k as int)));
        }
        out.push(c);
        k = k + 1;
    }
    assert(vs@.take(vs.len() as int) =~= vs@);
    out
}

impl DValue {
    /// The type of this value; for a variant, the signature that announces
    /// its content.
    pub fn type_sig(&self) -> (r: Sig)
        ensures
            r@ == type_of(self@),
    {
        type_sig(self)
    }
}

} // verus!
