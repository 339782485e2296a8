//! A guest as one row of a guestlist file.

use vstd::prelude::*;

use crate::db::guest::{Attend, Guest, GuestView, Meal, Message, Reply, ReplyView};
use crate::db::Group;
use crate::user::{Ident, User, UserView};

verus! {

/// One row: what a file says of a guest. A part of the reply that the row
/// lacks is a part that the guest has not given.
#[derive(Debug)]
pub struct Record {
    pub group: Group,
    pub first: String,
    pub last: String,
    pub child: bool,
    pub attend: Option<Attend>,
    pub meal: Option<Meal>,
    pub msg: Option<Message>,
}

/// A row as a mathematical value.
pub struct RecordView {
    pub group: Group,
    pub first: Seq<char>,
    pub last: Seq<char>,
    pub child: bool,
    pub attend: Option<Attend>,
    pub meal: Option<Meal>,
    pub msg: Option<Seq<char>>,
}

impl View for Record {
    type V = RecordView;

    open spec fn view(&self) -> RecordView {
        RecordView {
            group: self.group,
            first: self.first@,
            last: self.last@,
            child: self.child,
            attend: self.attend,
            meal: self.meal,
            msg: match self.msg {
                Some(m) => Some(m@),
                None => None,
            },
        }
    }
}

impl RecordView {
    /// The row that is written for a guest.
    pub open spec fn of(guest: GuestView) -> RecordView {
        RecordView {
            group: guest.group,
            first: guest.user.first,
            last: guest.user.last,
            child: guest.child,
            attend: guest.reply.attend,
            meal: guest.reply.meal,
            msg: guest.reply.msg,
        }
    }

    /// The reply that the row holds, as it stands.
    pub open spec fn reply(self) -> ReplyView {
        ReplyView { attend: self.attend, meal: self.meal, msg: self.msg }
    }

    /// The guest that is read from the row under a given identifier: the meal
    /// counts only where the guest comes.
    pub open spec fn guest(self, ident: Ident) -> GuestView {
        GuestView {
            group: self.group,
            user: UserView { ident, first: self.first, last: self.last },
            child: self.child,
            reply: self.reply().validated(),
        }
    }
}

impl Default for Record {
    fn default() -> (r: Record)
        ensures
            r@.group == 0,
            r@.first == Seq::<char>::empty(),
            r@.last == Seq::<char>::empty(),
            !r@.child,
            r@.reply() == ReplyView::unanswered(),
    {
        Record {
            group: 0,
            first: String::new(),
            last: String::new(),
            child: false,
            attend: None,
            meal: None,
            msg: None,
        }
    }
}

impl Clone for Record {
    fn clone(&self) -> (r: Record)
        ensures
            r@ == self@,
    {
        let msg = match &self.msg {
            Some(m) => Some(m.clone()),
            None => None,
        };
        Record {
            group: self.group,
            first: self.first.clone(),
            last: self.last.clone(),
            child: self.child,
            attend: self.attend,
            meal: self.meal,
            msg,
        }
    }
}

impl Record {
    /// The row that is written for a guest.
    pub fn from_guest(guest: Guest) -> (r: Record)
        ensures
            r@ == RecordView::of(guest@),
    {
        let Guest { group, user, child, reply } = guest;
        let User { ident: _, first, last } = user;
        let Reply { attend, meal, msg } = reply;
        Record { group, first, last, child, attend, meal, msg }
    }
}

impl Guest {
    /// The guest that a row describes, under a freshly drawn identifier. The
    /// meal of the row is dropped unless the row says that the guest comes.
    pub fn from_record(record: Record) -> (r: Guest)
        ensures
            r@ == record@.guest(r@.user.ident),
            r@.user.ident.drawn(),
    {
        let Record { group, first, last, child, attend, meal, msg } = record;
        let mut reply = Reply { attend, meal, msg };
        reply.validate();
        Guest { group, user: User::new(first, last), child, reply }
    }
}

/// Writing a guest as a row and reading the row again gives the same guest, but
/// for the identifier and for a meal that did not count.
pub proof fn lemma_record_round_trip(guest: GuestView, ident: Ident)
    ensures
        RecordView::of(guest).guest(ident).group == guest.group,
        RecordView::of(guest).guest(ident).user.first == guest.user.first,
        RecordView::of(guest).guest(ident).user.last == guest.user.last,
        RecordView::of(guest).guest(ident).user.key() == guest.user.key(),
        RecordView::of(guest).guest(ident).child == guest.child,
        RecordView::of(guest).guest(ident).reply == guest.reply.validated(),
        guest.reply.valid() ==> RecordView::of(guest).guest(ident).reply == guest.reply,
        RecordView::of(guest).guest(ident).user.ident == ident,
{
}

} // verus!
