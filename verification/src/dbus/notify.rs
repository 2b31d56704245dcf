//! Desktop notifications via `org.freedesktop.Notifications.Notify`.
//!
//! An attached icon is passed inline through the `image-data` hint (raw RGBA,
//! which is exactly the icon format). Action buttons are sent in the
//! `actions` array with the action id, in decimal, as the key, so the
//! daemon's `ActionInvoked` signal maps straight back.
use vstd::prelude::*;
use vstd::string::*;
use vstd::slice::slice_to_vec;
use crate::icon::IconView;
use crate::notification::{actions_model, Notification, NotificationView};
use crate::text::{decimal, decimal_string, lemma_decimal_injective};
use super::props::{entry_sig, entry_ty, entry_val};
use super::value::{
    all_typed, lemma_all_typed_concat, lemma_all_typed_from, lemma_all_well_typed_from,
    lemma_values_model_push, type_of, value_model,
    values_model, well_typed, DValue, Sig, Ty, Val,
};

verus! {

/// The `actions` array: for each button, its key (the id in decimal), then
/// its label.
pub open spec fn action_list(actions: Seq<(u32, Seq<char>)>) -> Seq<Val>
    decreases actions.len(),
{
    if actions.len() == 0 {
        Seq::empty()
    } else {
        action_list(actions.drop_last()) + seq![
            Val::Str(decimal(actions.last().0 as nat)),
            Val::Str(actions.last().1),
        ]
    }
}

/// Whether the icon's row stride in bytes, as an `i32`, can be computed.
pub open spec fn stride_fits(icon: IconView) -> bool {
    i32::MIN <= (icon.width as i32) * 4 <= i32::MAX
}

/// The `image-data` hint: `(iiibiiay)` = width, height, rowstride, has_alpha,
/// bits_per_sample, channels, RGBA bytes.
pub open spec fn image_hint(icon: IconView) -> Val {
    entry_val(
        "image-data"@,
        Val::Struct(
            seq![
                Val::Int32(icon.width as i32),
                Val::Int32(icon.height as i32),
                Val::Int32(((icon.width as i32) * 4) as i32),
                Val::Bool(true),
                Val::Int32(8),
                Val::Int32(4),
                Val::Bytes(icon.rgba),
            ],
        ),
    )
}

/// The hints dictionary: the image, when there is one.
pub open spec fn hints(n: NotificationView) -> Seq<Val> {
    match n.icon {
        Some(icon) => seq![image_hint(icon)],
        None => Seq::empty(),
    }
}

/// The body of a `Notify` call: app name, replaces-id 0 (a new notification),
/// no app icon, summary, body, actions, hints, expiry -1 (server default).
pub open spec fn notify_args(app_name: Seq<char>, n: NotificationView) -> Seq<Val> {
    seq![
        Val::Str(app_name),
        Val::UInt32(0),
        Val::Str(Seq::empty()),
        Val::Str(n.title),
        Val::Str(n.body),
        Val::Array(Ty::Str, action_list(n.actions)),
        Val::Array(entry_ty(), hints(n)),
        Val::Int32(-1i32),
    ]
}

/// A `Notify` call ready to be sent.
pub struct NotifyCall {
    /// The call's arguments, in order.
    pub args: Vec<DValue>,
    /// Whether the caller must wait for the reply: the id it carries is needed
    /// to route action clicks back, so only notifications with actions wait.
    pub awaits_reply: bool,
}

fn push_value(out: &mut Vec<DValue>, v: DValue)
    ensures
        values_model(final(out)@) == values_model(old(out)@).push(v@),
{
    proof {
        lemma_values_model_push(out@, v);
    }
    out.push(v);
}

/// Builds the `Notify` call for `notification`, sent on behalf of `app_name`.
pub fn notify_call(app_name: &str, notification: &Notification) -> (r: NotifyCall)
    requires
        notification@.icon matches Some(icon) ==> stride_fits(icon),
    ensures
        values_model(r.args@) == notify_args(app_name@, notification@),
        r.awaits_reply == (notification@.actions.len() > 0),
{
    let ghost n = notification@;
    let mut args: Vec<DValue> = Vec::new();
    push_value(&mut args, DValue::Str(String::from_str(app_name)));
    push_value(&mut args, DValue::UInt32(0));
    push_value(&mut args, DValue::Str(String::new()));
    push_value(&mut args, DValue::Str(String::from_str(notification.title())));
    push_value(&mut args, DValue::Str(String::from_str(notification.body())));

    let actions = notification.actions();
    let mut keys: Vec<DValue> = Vec::new();
    let mut k: usize = 0;
    while k < actions.len()
        invariant
            k <= actions.len(),
            actions_model(actions@) == n.actions,
            values_model(keys@) == action_list(n.actions.take(k as int)),
        decreases actions.len() - k,
    {
        let (id, label) = &actions[k];
        push_value(&mut keys, DValue::Str(decimal_string(id.0 as u64)));
        push_value(&mut keys, DValue::Str(label.clone()));
        proof {
            assert(n.actions.take(k + 1).drop_last() =~= n.actions.take(k as int));
            assert(n.actions[k as int] == (id.0, label@));
            assert(values_model(keys@) =~= action_list(n.actions.take(k + 1)));
        }
        k = k + 1;
    }
    proof {
        assert(n.actions.take(actions.len() as int) =~= n.actions);
    }
    push_value(&mut args, DValue::Array(Sig::Str, keys));

    let mut hint_entries: Vec<DValue> = Vec::new();
    match notification.icon() {
        Some(icon) => {
            let w = icon.width() as i32;
            let h = icon.height() as i32;
            let mut fields: Vec<DValue> = Vec::new();
            push_value(&mut fields, DValue::Int32(w));
            push_value(&mut fields, DValue::Int32(h));
            push_value(&mut fields, DValue::Int32(w * 4));
            push_value(&mut fields, DValue::Bool(true));
            push_value(&mut fields, DValue::Int32(8));
            push_value(&mut fields, DValue::Int32(4));
            push_value(&mut fields, DValue::Bytes(slice_to_vec(icon.rgba())));
            let key = DValue::Str(String::from_str("image-data"));
            let entry = DValue::DictEntry(
                Box::new(key),
                Box::new(DValue::Variant(Box::new(DValue::Struct(fields)))),
            );
            proof {
                reveal_with_fuel(value_model, 3);
                assert(values_model(fields@) =~= seq![
                    Val::Int32(icon@.width as i32),
                    Val::Int32(icon@.height as i32),
                    Val::Int32(((icon@.width as i32) * 4) as i32),
                    Val::Bool(true),
                    Val::Int32(8),
                    Val::Int32(4),
                    Val::Bytes(icon@.rgba),
                ]);
            }
            push_value(&mut hint_entries, entry);
        },
        None => {},
    }
    proof {
        assert(values_model(hint_entries@) =~= hints(n));
    }
    push_value(&mut args, DValue::Array(entry_sig(), hint_entries));
    push_value(&mut args, DValue::Int32(-1));
    proof {
        assert(values_model(args@) =~= notify_args(app_name@, n));
    }
    NotifyCall { args, awaits_reply: actions.len() > 0 }
}

/// The notification id to report from the reply to a `Notify` call, given the
/// reply's first `u32` argument if it had one: that value, or 0 when there was
/// no reply or it carried no id.
pub fn notify_id(first: Option<u32>) -> (r: u32)
    ensures
        r == match first {
            Some(v) => v,
            None => 0,
        },
{
    match first {
        Some(v) => v,
        None => 0,
    }
}

/// Action keys identify their buttons: two buttons get the same key exactly
/// when they have the same action id.
pub proof fn lemma_action_keys_identify(a: u32, b: u32)
    ensures
        (decimal(a as nat) == decimal(b as nat)) == (a == b),
{
    if decimal(a as nat) == decimal(b as nat) {
        lemma_decimal_injective(a as nat, b as nat);
    }
}

/// The `actions` array lists, for the `i`-th button, its key (its action id in
/// decimal) at position `2 * i` and its label right after.
pub proof fn lemma_action_list_pairs(actions: Seq<(u32, Seq<char>)>)
    ensures
        action_list(actions).len() == 2 * actions.len(),
        forall|i: int|
            #![trigger actions[i]]
            0 <= i < actions.len() ==> {
                &&& action_list(actions)[2 * i] == Val::Str(decimal(actions[i].0 as nat))
                &&& action_list(actions)[2 * i + 1] == Val::Str(actions[i].1)
            },
    decreases actions.len(),
{
    if actions.len() > 0 {
        let rest = actions.drop_last();
        lemma_action_list_pairs(rest);
        let pre = action_list(rest);
        let tail = seq![Val::Str(decimal(actions.last().0 as nat)), Val::Str(actions.last().1)];
        assert(action_list(actions) == pre + tail);
        assert forall|i: int|
            #![trigger actions[i]]
            0 <= i < actions.len() implies {
                &&& action_list(actions)[2 * i] == Val::Str(decimal(actions[i].0 as nat))
                &&& action_list(actions)[2 * i + 1] == Val::Str(actions[i].1)
            } by {
            if i < rest.len() {
                assert(rest[i] == actions[i]);
                assert(pre[2 * i] == Val::Str(decimal(rest[i].0 as nat)));
                assert(pre[2 * i + 1] == Val::Str(rest[i].1));
                assert((pre + tail)[2 * i] == pre[2 * i]);
                assert((pre + tail)[2 * i + 1] == pre[2 * i + 1]);
            } else {
                assert((pre + tail)[2 * i] == tail[0]);
                assert((pre + tail)[2 * i + 1] == tail[1]);
            }
        }
    }
}

/// The arguments of a `Notify` call, by position: the app name, replaces-id 0,
/// an empty app icon, the summary (the title), the body, the actions array
/// (key then label for each button, in order), the hints, and expiry -1.
pub proof fn lemma_notify_arg_positions(app_name: Seq<char>, n: NotificationView)
    ensures
        notify_args(app_name, n).len() == 8,
        notify_args(app_name, n)[0] == Val::Str(app_name),
        notify_args(app_name, n)[1] == Val::UInt32(0),
        notify_args(app_name, n)[2] == Val::Str(Seq::empty()),
        notify_args(app_name, n)[3] == Val::Str(n.title),
        notify_args(app_name, n)[4] == Val::Str(n.body),
        notify_args(app_name, n)[5] matches Val::Array(t, es) && t == Ty::Str && es.len() == 2
            * n.actions.len() && forall|i: int|
            #![trigger n.actions[i]]
            0 <= i < n.actions.len() ==> es[2 * i] == Val::Str(decimal(n.actions[i].0 as nat))
                && es[2 * i + 1] == Val::Str(n.actions[i].1),
        notify_args(app_name, n)[7] == Val::Int32(-1i32),
{
    lemma_action_list_pairs(n.actions);
    let es = action_list(n.actions);
    assert(notify_args(app_name, n)[5] == Val::Array(Ty::Str, es));
    assert forall|i: int|
        #![trigger n.actions[i]]
        0 <= i < n.actions.len() implies es[2 * i] == Val::Str(decimal(n.actions[i].0 as nat))
        && es[2 * i + 1] == Val::Str(n.actions[i].1) by {}
}

/// The hints of a `Notify` call: none without an icon; with one, a single
/// `image-data` entry whose struct gives the width, the height, a row stride
/// of four bytes per pixel of one row (whatever the height), alpha, 8 bits
/// per sample, 4 channels, then the RGBA bytes themselves. For an icon of
/// `width * height * 4` bytes, stride times height is the whole buffer.
pub proof fn lemma_image_data_fields(app_name: Seq<char>, n: NotificationView)
    requires
        n.icon matches Some(icon) ==> icon.width * 4 <= i32::MAX,
    ensures
        n.icon is None ==> notify_args(app_name, n)[6] == Val::Array(entry_ty(), Seq::empty()),
        n.icon matches Some(icon) ==> {
            &&& notify_args(app_name, n)[6] matches Val::Array(t, es)
            &&& t == entry_ty()
            &&& es.len() == 1
            &&& es[0] matches Val::DictEntry(k, v)
            &&& *k == Val::Str("image-data"@)
            &&& *v matches Val::Variant(c)
            &&& *c matches Val::Struct(fs)
            &&& fs.len() == 7
            &&& fs[0] matches Val::Int32(w)
            &&& w == icon.width
            &&& fs[1] == Val::Int32(icon.height as i32)
            &&& fs[2] matches Val::Int32(stride)
            &&& stride == icon.width * 4
            &&& fs[3] == Val::Bool(true)
            &&& fs[4] == Val::Int32(8)
            &&& fs[5] == Val::Int32(4)
            &&& fs[6] == Val::Bytes(icon.rgba)
            &&& icon.rgba.len() == icon.width * icon.height * 4 ==> stride * icon.height
                == icon.rgba.len()
        },
{
    match n.icon {
        Some(icon) => {
            let w: int = icon.width as int;
            let h: int = icon.height as int;
            assert((icon.width as i32) as int == w);
            assert(((icon.width as i32) * 4) as i32 as int == w * 4);
            assert(w * 4 * h == w * h * 4) by (nonlinear_arith);
        },
        None => {},
    }
}

proof fn lemma_action_list_typed(actions: Seq<(u32, Seq<char>)>)
    ensures
        all_typed(action_list(actions), Ty::Str),
    decreases actions.len(),
{
    if actions.len() > 0 {
        lemma_action_list_typed(actions.drop_last());
        let pair = seq![Val::Str(decimal(actions.last().0 as nat)), Val::Str(actions.last().1)];
        lemma_all_typed_from(pair, Ty::Str);
        lemma_all_typed_concat(action_list(actions.drop_last()), pair, Ty::Str);
    }
}

/// Every argument of every `Notify` call is well typed: the actions are an
/// `as`, the hints an `a{sv}` whose image is a `(iiibiiay)` in a variant.
pub proof fn lemma_notify_args_typed(app_name: Seq<char>, n: NotificationView)
    ensures
        forall|i: int| 0 <= i < notify_args(app_name, n).len() ==> well_typed(
            #[trigger] notify_args(app_name, n)[i],
        ),
{
    lemma_action_list_typed(n.actions);
    match n.icon {
        Some(icon) => {
            let fields = seq![
                Val::Int32(icon.width as i32),
                Val::Int32(icon.height as i32),
                Val::Int32(((icon.width as i32) * 4) as i32),
                Val::Bool(true),
                Val::Int32(8),
                Val::Int32(4),
                Val::Bytes(icon.rgba),
            ];
            lemma_all_well_typed_from(fields);
            reveal_with_fuel(well_typed, 3);
            reveal_with_fuel(type_of, 2);
            assert(well_typed(image_hint(icon)));
            assert(type_of(image_hint(icon)) == entry_ty());
            lemma_all_typed_from(hints(n), entry_ty());
        },
        None => {
            assert(all_typed(hints(n), entry_ty()));
        },
    }
}

} // verus!
