//! Desktop notifications shown through a tray handle.
use vstd::prelude::*;
use vstd::string::*;
use crate::icon::{Icon, IconView};

verus! {

/// Identifier for a notification action button. You choose the number; it is
/// echoed back in `Event::NotificationAction` when the user clicks the action.
#[derive(Clone, Copy, PartialEq, Eq, Hash, Debug)]
pub struct ActionId(pub u32);

/// A desktop notification ("toast"/"balloon").
#[derive(Debug)]
pub struct Notification {
    title: String,
    body: String,
    icon: Option<Icon>,
    actions: Vec<(ActionId, String)>,
}

/// The content of a [`Notification`].
pub struct NotificationView {
    pub title: Seq<char>,
    pub body: Seq<char>,
    pub icon: Option<IconView>,
    /// Action buttons in the order they were added: id and label.
    pub actions: Seq<(u32, Seq<char>)>,
}

/// The model of one action button.
pub open spec fn action_model(a: (ActionId, String)) -> (u32, Seq<char>) {
    (a.0.0, a.1@)
}

/// The models of a sequence of action buttons, in order.
pub open spec fn actions_model(actions: Seq<(ActionId, String)>) -> Seq<(u32, Seq<char>)> {
    actions.map_values(|a: (ActionId, String)| action_model(a))
}

/// The model of an optional icon.
pub open spec fn icon_model(icon: Option<Icon>) -> Option<IconView> {
    match icon {
        Some(i) => Some(i@),
        None => None,
    }
}

impl View for Notification {
    type V = NotificationView;

    closed spec fn view(&self) -> NotificationView {
        NotificationView {
            title: self.title@,
            body: self.body@,
            icon: icon_model(self.icon),
            actions: actions_model(self.actions@),
        }
    }
}

fn copy_actions(actions: &Vec<(ActionId, String)>) -> (r: Vec<(ActionId, String)>)
    ensures
        actions_model(r@) == actions_model(actions@),
{
    let mut out: Vec<(ActionId, String)> = Vec::new();
    let mut k: usize = 0;
    while k < actions.len()
        invariant
            k <= actions.len(),
            out@.len() == k,
            forall|i: int| 0 <= i < k ==> action_model(#[trigger] out@[i]) == action_model(actions@[i]),
        decreases actions.len() - k,
    {
        let (id, label) = &actions[k];
        out.push((*id, label.clone()));
        k = k + 1;
    }
    assert(actions_model(out@) =~= actions_model(actions@));
    out
}

impl Clone for Notification {
    fn clone(&self) -> (r: Self)
        ensures
            r@ == self@,
    {
        let icon = match &self.icon {
            Some(i) => Some(i.clone()),
            None => None,
        };
        Notification {
            title: self.title.clone(),
            body: self.body.clone(),
            icon,
            actions: copy_actions(&self.actions),
        }
    }
}

impl Notification {
    /// A notification with a title (summary) and body text, no icon and no
    /// action buttons.
    pub fn new(title: &str, body: &str) -> (r: Notification)
        ensures
            r@ == (NotificationView {
                title: title@,
                body: body@,
                icon: None,
                actions: Seq::empty(),
            }),
    {
        let r = Notification {
            title: String::from_str(title),
            body: String::from_str(body),
            icon: None,
            actions: Vec::new(),
        };
        assert(actions_model(r.actions@) =~= Seq::empty());
        r
    }

    /// Builder: attach an icon shown alongside the message, replacing any
    /// earlier one. Backends that cannot display a custom notification icon
    /// ignore it.
    pub fn with_icon(self, icon: Icon) -> (r: Notification)
        ensures
            r@ == (NotificationView { icon: Some(icon@), ..self@ }),
    {
        Notification { icon: Some(icon), ..self }
    }

    /// Builder: add a clickable action button after the existing ones. When
    /// the user activates it, `Event::NotificationAction` is delivered with `id`.
    pub fn action(self, id: u32, label: &str) -> (r: Notification)
        ensures
            r@ == (NotificationView { actions: self@.actions.push((id, label@)), ..self@ }),
    {
        let mut actions = self.actions;
        let ghost before = actions@;
        actions.push((ActionId(id), String::from_str(label)));
        assert(actions_model(actions@) =~= actions_model(before).push((id, label@)));
        Notification { actions, ..self }
    }

    /// The configured action buttons, in the order they were added.
    pub fn actions(&self) -> (r: &[(ActionId, String)])
        ensures
            actions_model(r@) == self@.actions,
    {
        self.actions.as_slice()
    }

    /// The notification title.
    pub fn title(&self) -> (r: &str)
        ensures
            r@ == self@.title,
    {
        self.title.as_str()
    }

    /// The notification body.
    pub fn body(&self) -> (r: &str)
        ensures
            r@ == self@.body,
    {
        self.body.as_str()
    }

    /// The attached icon, if any.
    pub fn icon(&self) -> (r: Option<&Icon>)
        ensures
            match r {
                Some(i) => self@.icon == Some(i@),
                None => self@.icon is None,
            },
    {
        self.icon.as_ref()
    }
}

} // verus!
