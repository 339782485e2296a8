//! A guest and the reply that the guest has given.

use vstd::prelude::*;

use crate::db::Group;
use crate::user::{User, UserView};

verus! {

/// Whether a guest comes.
#[derive(Clone, Copy, Debug, PartialEq, Eq, Structural)]
pub enum Attend {
    Yes,
    No,
}

/// What a guest who comes will eat.
#[derive(Clone, Copy, Debug, PartialEq, Eq, Structural)]
pub enum Meal {
    Chicken,
    Fish,
    Veggie,
    Kids,
    NoMeal,
}

/// A free text that a guest leaves with the reply.
#[derive(Debug)]
pub struct Message(pub String);

/// An answer that has been given: a guest who comes names a meal and leaves a
/// message, a guest who does not come says no more.
#[derive(Debug)]
pub enum Rsvp {
    Yes { meal: Meal, msg: String },
    No,
}

/// A given answer as a mathematical value.
pub enum RsvpView {
    Yes { meal: Meal, msg: Seq<char> },
    No,
}

impl View for Rsvp {
    type V = RsvpView;

    open spec fn view(&self) -> RsvpView {
        match *self {
            Rsvp::Yes { meal, msg } => RsvpView::Yes { meal, msg: msg@ },
            Rsvp::No => RsvpView::No,
        }
    }
}

/// A guest's answer: each part is absent until the guest has given it.
#[derive(Debug)]
pub struct Reply {
    pub attend: Option<Attend>,
    pub meal: Option<Meal>,
    pub msg: Option<Message>,
}

/// A reply as a mathematical value.
pub struct ReplyView {
    pub attend: Option<Attend>,
    pub meal: Option<Meal>,
    pub msg: Option<Seq<char>>,
}

/// One invited person: the group they were invited with, who they are, whether
/// they are a child, and what they have replied.
#[derive(Debug)]
pub struct Guest {
    pub group: Group,
    pub user: User,
    pub child: bool,
    pub reply: Reply,
}

/// A guest as a mathematical value.
pub struct GuestView {
    pub group: Group,
    pub user: UserView,
    pub child: bool,
    pub reply: ReplyView,
}

impl View for Message {
    type V = Seq<char>;

    open spec fn view(&self) -> Seq<char> {
        self.0@
    }
}

impl View for Reply {
    type V = ReplyView;

    open spec fn view(&self) -> ReplyView {
        ReplyView {
            attend: self.attend,
            meal: self.meal,
            msg: match self.msg {
                Some(m) => Some(m@),
                None => None,
            },
        }
    }
}

impl View for Guest {
    type V = GuestView;

    open spec fn view(&self) -> GuestView {
        GuestView { group: self.group, user: self.user@, child: self.child, reply: self.reply@ }
    }
}

impl ReplyView {
    /// A reply in which nothing has been answered.
    pub open spec fn unanswered() -> ReplyView {
        ReplyView { attend: None, meal: None, msg: None }
    }

    /// Whether any part of the reply has been given.
    pub open spec fn responded(self) -> bool {
        self.attend.is_some() || self.meal.is_some() || self.msg.is_some()
    }

    /// The parts of the reply that have been given, each in words: whether the
    /// guest comes, the meal, the message.
    pub open spec fn parts(self) -> Seq<Seq<char>> {
        let attend = match self.attend {
            Some(a) => seq![a.label_of()],
            None => Seq::empty(),
        };
        let meal = match self.meal {
            Some(m) => seq![m.label_of()],
            None => Seq::empty(),
        };
        let msg = match self.msg {
            Some(m) => seq![m],
            None => Seq::empty(),
        };
        attend + meal + msg
    }

    /// A reply names a meal only where the guest comes.
    pub open spec fn valid(self) -> bool {
        self.attend != Some(Attend::Yes) ==> self.meal.is_none()
    }

    /// The reply with its meal dropped unless the guest comes.
    pub open spec fn validated(self) -> ReplyView {
        ReplyView {
            attend: self.attend,
            meal: if self.attend == Some(Attend::Yes) {
                self.meal
            } else {
                None
            },
            msg: self.msg,
        }
    }
}

impl ReplyView {
    /// The answer that the reply amounts to, where the guest has said whether
    /// they come: a guest who comes without naming a meal gets the default
    /// meal, and without a message the empty one.
    pub open spec fn rsvp(self) -> Option<RsvpView> {
        match self.attend {
            Some(Attend::Yes) => Some(
                RsvpView::Yes {
                    meal: match self.meal {
                        Some(meal) => meal,
                        None => Meal::Chicken,
                    },
                    msg: match self.msg {
                        Some(msg) => msg,
                        None => Seq::empty(),
                    },
                },
            ),
            Some(Attend::No) => Some(RsvpView::No),
            None => None,
        }
    }
}

impl GuestView {
    /// The guest with another reply in place of the present one.
    pub open spec fn with_reply(self, reply: ReplyView) -> GuestView {
        GuestView { group: self.group, user: self.user, child: self.child, reply }
    }
}

impl Attend {
    /// The word for an answer.
    pub open spec fn label_of(self) -> Seq<char> {
        match self {
            Attend::Yes => "Yes"@,
            Attend::No => "No"@,
        }
    }

    /// The word for this answer.
    pub fn label(&self) -> (r: &'static str)
        ensures
            r@ == self.label_of(),
    {
        match self {
            Attend::Yes => "Yes",
            Attend::No => "No",
        }
    }
}

impl Meal {
    /// The name of a meal as it is shown to a guest.
    pub open spec fn label_of(self) -> Seq<char> {
        match self {
            Meal::Chicken => "Chicken"@,
            Meal::Fish => "Fish"@,
            Meal::Veggie => "Vegetarian"@,
            Meal::Kids => "Kids Meal"@,
            Meal::NoMeal => "No Meal"@,
        }
    }

    /// The name of this meal as it is shown to a guest.
    pub fn label(&self) -> (r: &'static str)
        ensures
            r@ == self.label_of(),
    {
        match self {
            Meal::Chicken => "Chicken",
            Meal::Fish => "Fish",
            Meal::Veggie => "Vegetarian",
            Meal::Kids => "Kids Meal",
            Meal::NoMeal => "No Meal",
        }
    }
}

impl Default for Meal {
    fn default() -> (r: Meal)
        ensures
            r == Meal::Chicken,
    {
        Meal::Chicken
    }
}

impl Message {
    /// A message with the given text.
    pub fn new(text: String) -> (r: Message)
        ensures
            r@ == text@,
    {
        Message(text)
    }

    /// The text of the message.
    pub fn as_str(&self) -> (r: &str)
        ensures
            r@ == self@,
    {
        self.0.as_str()
    }
}

impl Clone for Message {
    fn clone(&self) -> (r: Message)
        ensures
            r@ == self@,
    {
        Message(self.0.clone())
    }
}

impl Default for Message {
    fn default() -> (r: Message)
        ensures
            r@ == Seq::<char>::empty(),
    {
        Message(String::new())
    }
}

impl Default for Reply {
    fn default() -> (r: Reply)
        ensures
            r@ == ReplyView::unanswered(),
    {
        Reply { attend: None, meal: None, msg: None }
    }
}

impl Clone for Reply {
    fn clone(&self) -> (r: Reply)
        ensures
            r@ == self@,
    {
        let msg = match &self.msg {
            Some(m) => Some(m.clone()),
            None => None,
        };
        Reply { attend: self.attend, meal: self.meal, msg }
    }
}

impl Rsvp {
    /// The answer that a reply amounts to; none while the guest has not said
    /// whether they come.
    pub fn from_reply(reply: Reply) -> (r: Option<Rsvp>)
        ensures
            r.is_some() == reply@.rsvp().is_some(),
            r.is_some() ==> r.unwrap()@ == reply@.rsvp().unwrap(),
    {
        let Reply { attend, meal, msg } = reply;
        match attend {
            Some(Attend::Yes) => {
                let meal = match meal {
                    Some(meal) => meal,
                    None => Meal::default(),
                };
                let msg = match msg {
                    Some(msg) => msg.0,
                    None => String::new(),
                };
                Some(Rsvp::Yes { meal, msg })
            },
            Some(Attend::No) => Some(Rsvp::No),
            None => None,
        }
    }
}

impl Reply {
    /// Whether the guest has given any part of a reply.
    pub fn responded(&self) -> (r: bool)
        ensures
            r == self@.responded(),
    {
        self.attend.is_some() || self.meal.is_some() || self.msg.is_some()
    }

    /// The parts of the reply that have been given, each in words: whether the
    /// guest comes, the meal, the message.
    pub fn parts(&self) -> (r: Vec<String>)
        ensures
            r@.len() == self@.parts().len(),
            forall|i: int| 0 <= i < r@.len() ==> (#[trigger] r@[i])@ == self@.parts()[i],
    {
        let mut parts: Vec<String> = Vec::new();
        match &self.attend {
            Some(attend) => {
                parts.push(attend.label().to_owned());
            },
            None => {},
        }
        match &self.meal {
            Some(meal) => {
                parts.push(meal.label().to_owned());
            },
            None => {},
        }
        match &self.msg {
            Some(msg) => {
                parts.push(msg.as_str().to_owned());
            },
            None => {},
        }
        parts
    }

    /// Drops the meal unless the guest comes; the rest stays.
    pub fn validate(&mut self)
        ensures
            final(self)@ == old(self)@.validated(),
            final(self)@.valid(),
    {
        if !matches!(self.attend, Some(Attend::Yes)) {
            self.meal = None;
        }
    }
}

/// Validating a reply twice is validating it once, and a validated reply is
/// valid.
pub proof fn lemma_validated_idempotent(reply: ReplyView)
    ensures
        reply.validated().validated() == reply.validated(),
        reply.validated().valid(),
        reply.valid() ==> reply.validated() == reply,
        reply.attend != Some(Attend::Yes) ==> reply.validated().meal.is_none(),
        reply.validated().attend == reply.attend,
        reply.validated().msg == reply.msg,
{
}

impl Default for Guest {
    /// A guest without a name, in group 0, who has not replied, under a freshly
    /// drawn identifier.
    fn default() -> (r: Guest)
        ensures
            r@.group == 0,
            r@.user.first == Seq::<char>::empty(),
            r@.user.last == Seq::<char>::empty(),
            !r@.child,
            r@.reply == ReplyView::unanswered(),
            r@.user.ident.drawn(),
    {
        Guest { group: 0, user: User::default(), child: false, reply: Reply::default() }
    }
}

impl Clone for Guest {
    fn clone(&self) -> (r: Guest)
        ensures
            r@ == self@,
    {
        Guest {
            group: self.group,
            user: self.user.clone(),
            child: self.child,
            reply: self.reply.clone(),
        }
    }
}

impl Guest {
    /// The group that the guest was invited with.
    pub fn group(&self) -> (r: Group)
        ensures
            r == self@.group,
    {
        self.group
    }

    /// Who the guest is.
    pub fn user(&self) -> (r: &User)
        ensures
            r@ == self@.user,
    {
        &self.user
    }

    /// Whether the guest is a child.
    pub fn child(&self) -> (r: bool)
        ensures
            r == self@.child,
    {
        self.child
    }

    /// What the guest has replied.
    pub fn reply(&self) -> (r: &Reply)
        ensures
            r@ == self@.reply,
    {
        &self.reply
    }

    /// Puts a new reply in place of the present one.
    pub fn update(&mut self, reply: Reply)
        ensures
            final(self)@ == old(self)@.with_reply(reply@),
    {
        self.reply = reply;
    }
}

} // verus!
