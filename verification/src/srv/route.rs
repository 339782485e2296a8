//! What each request is answered with, decided on the store alone.
//!
//! A guest who has logged in acts under an identifier. The one rule of access:
//! a guest may see and answer for exactly the members of the guest's own group.

use vstd::prelude::*;
use vstd::string::StringExecFns;

use crate::db::guest::{Guest, GuestView, Reply};
use crate::db::model::DatabaseView;
use crate::db::Database;
use crate::srv::error::Error;
use crate::user::{Ident, User, UserView};

verus! {

/// Why a request is not served.
#[derive(Clone, Copy, Debug, PartialEq, Eq, Structural)]
pub enum Denied {
    /// Nobody has logged in: the guest is sent to the login page.
    Login,
    /// The guest asked for someone outside the guest's group.
    Unauthorized,
    /// The store does not hold what it should.
    Missing,
}

impl Denied {
    /// The error page for the refusal; none where the guest is sent to log in.
    pub fn error(&self) -> (r: Option<Error>)
        ensures
            *self == Denied::Login ==> r.is_none(),
            *self == Denied::Unauthorized ==> r.is_some() && r.unwrap()@ == Error::e401_view(),
            *self == Denied::Missing ==> r.is_some() && r.unwrap()@ == Error::e500_view(
                "missing guest"@,
            ),
    {
        match self {
            Denied::Login => None,
            Denied::Unauthorized => Some(Error::e401()),
            Denied::Missing => Some(Error::e500(crate::db::Error::Guest.message())),
        }
    }
}

/// Whether the identifier is among the members.
pub fn contains(members: &[Ident], ident: &Ident) -> (r: bool)
    ensures
        r == members@.contains(*ident),
{
    let mut i: usize = 0;
    while i < members.len()
        invariant
            0 <= i <= members@.len(),
            forall|j: int| 0 <= j < i ==> members@[j] != *ident,
        decreases members@.len() - i,
    {
        if members[i] == *ident {
            return true;
        }
        i = i + 1;
    }
    false
}

/// Whether the guest under `actor` may see and answer for the guest under
/// `target`: the store must know the actor, and the target must be a member of
/// the actor's group.
pub fn authorize(db: &Database, actor: &Ident, target: &Ident) -> (r: Result<(), Denied>)
    ensures
        match db@.group_of(*actor) {
            Some(members) => if members.contains(*target) {
                r.is_ok()
            } else {
                r == Err::<(), Denied>(Denied::Unauthorized)
            },
            None => r == Err::<(), Denied>(Denied::Missing),
        },
        r.is_ok() <==> db@.allows(*actor, *target),
        db@.wf() && r.is_ok() ==> db@.guest_of(*target).is_some() && db@.guest_of(
            *target,
        ).unwrap().group == db@.guest_of(*actor).unwrap().group,
{
    match db.group(actor) {
        Ok(members) => if contains(members, target) {
            Ok(())
        } else {
            Err(Denied::Unauthorized)
        },
        Err(_) => Err(Denied::Missing),
    }
}

/// The person with the identifier that the store has for the name.
pub open spec fn known_as(user: UserView, ident: Ident) -> UserView {
    UserView { ident, first: user.first, last: user.last }
}

/// A login: the person who typed the name, with the identifier that the store
/// has for that name; nobody where the store has none.
pub fn auth(db: &Database, user: User) -> (r: Option<User>)
    ensures
        match db@.ident_of(user@.key()) {
            Some(ident) => r.is_some() && r.unwrap()@ == known_as(user@, ident),
            None => r.is_none(),
        },
{
    let found = match db.ident(&user) {
        Some(ident) => Some(*ident),
        None => None,
    };
    match found {
        Some(ident) => {
            let User { ident: _, first, last } = user;
            Some(User { ident, first, last })
        },
        None => None,
    }
}

/// What is said to someone whose name the store does not know.
pub open spec fn rejection_of(user: UserView) -> Seq<char> {
    "Hmm, we couldn't find a login for: "@ + user.name()
}

/// What is said to someone whose name the store does not know: the same of
/// every such name, but for the name itself as it was typed.
pub fn rejection(user: &User) -> (r: String)
    ensures
        r@ == rejection_of(user@),
{
    let name = user.name();
    "Hmm, we couldn't find a login for: ".to_owned().concat(name.as_str())
}

/// Whether every member stands in the store, and then the guests of the
/// members in their order.
pub open spec fn party(v: DatabaseView, members: Seq<Ident>) -> Option<Seq<GuestView>> {
    if forall|i: int| 0 <= i < members.len() ==> (#[trigger] v.guest_of(members[i])).is_some() {
        Some(Seq::new(members.len(), |i: int| v.guest_of(members[i]).unwrap()))
    } else {
        None
    }
}

/// The dashboard of the guest who has logged in: the guests of the guest's
/// group, in their order.
pub fn dashboard(db: &Database, user: Option<&User>) -> (r: Result<Vec<Guest>, Denied>)
    ensures
        user.is_none() ==> r == Err::<Vec<Guest>, Denied>(Denied::Login),
        user.is_some() ==> match db@.group_of(user.unwrap()@.ident) {
            Some(members) => match party(db@, members) {
                Some(guests) => r.is_ok() && r.unwrap()@.len() == guests.len() && forall|i: int|
                    0 <= i < guests.len() ==> (#[trigger] r.unwrap()@[i])@ == guests[i],
                None => r == Err::<Vec<Guest>, Denied>(Denied::Missing),
            },
            None => r == Err::<Vec<Guest>, Denied>(Denied::Missing),
        },
        db@.wf() && user.is_some() ==> (r.is_ok() <==> db@.guest_of(user.unwrap()@.ident).is_some()),
{
    let actor = match user {
        Some(actor) => actor,
        None => {
            return Err(Denied::Login);
        },
    };
    let members = match db.group(&actor.ident) {
        Ok(members) => members,
        Err(_) => {
            return Err(Denied::Missing);
        },
    };
    proof {
        if db@.wf() {
            assert forall|j: int| 0 <= j < members@.len() implies (#[trigger] db@.guest_of(
                members@[j],
            )).is_some() by {
                assert(members@.contains(members@[j]));
            }
        }
    }
    let mut guests: Vec<Guest> = Vec::new();
    let mut i: usize = 0;
    while i < members.len()
        invariant
            0 <= i <= members@.len(),
            user == Some(actor),
            db@.wf() ==> forall|j: int|
                0 <= j < members@.len() ==> (#[trigger] db@.guest_of(members@[j])).is_some(),
            db@.group_of(actor@.ident) == Some(members@),
            guests@.len() == i,
            forall|j: int| 0 <= j < i ==> (#[trigger] db@.guest_of(members@[j])).is_some(),
            forall|j: int| 0 <= j < i ==> (#[trigger] guests@[j])@ == db@.guest_of(members@[j]).unwrap(),
        decreases members@.len() - i,
    {
        match db.guest(&members[i]) {
            Some(guest) => {
                guests.push(guest.clone());
            },
            None => {
                assert(db@.guest_of(members@[i as int]).is_none());
                return Err(Denied::Missing);
            },
        }
        i = i + 1;
    }
    Ok(guests)
}

/// The guest whom a request is about: the one it names, else the guest who
/// has logged in.
pub open spec fn target_of(user: UserView, guest: Option<Ident>) -> Ident {
    match guest {
        Some(ident) => ident,
        None => user.ident,
    }
}

/// The reply page: the guest whom the request is about, where the guest who
/// has logged in may answer for that guest.
pub fn rsvp(db: &Database, user: Option<&User>, guest: Option<Ident>) -> (r: Result<Guest, Denied>)
    ensures
        user.is_none() ==> r == Err::<Guest, Denied>(Denied::Login),
        user.is_some() ==> {
            let actor = user.unwrap()@.ident;
            let target = target_of(user.unwrap()@, guest);
            match db@.group_of(actor) {
                Some(members) => if !members.contains(target) {
                    r == Err::<Guest, Denied>(Denied::Unauthorized)
                } else {
                    match db@.guest_of(target) {
                        Some(found) => r.is_ok() && r.unwrap()@ == found,
                        None => r == Err::<Guest, Denied>(Denied::Missing),
                    }
                },
                None => r == Err::<Guest, Denied>(Denied::Missing),
            }
        },
        db@.wf() && user.is_some() ==> (r.is_ok() <==> db@.allows(
            user.unwrap()@.ident,
            target_of(user.unwrap()@, guest),
        )),
{
    let user = match user {
        Some(user) => user,
        None => {
            return Err(Denied::Login);
        },
    };
    let target = match guest {
        Some(ident) => ident,
        None => user.ident,
    };
    match authorize(db, &user.ident, &target) {
        Ok(()) => {},
        Err(denied) => {
            return Err(denied);
        },
    }
    match db.guest(&target) {
        Some(found) => Ok(found.clone()),
        None => Err(Denied::Missing),
    }
}

/// A reply is handed in: where the guest who has logged in may answer for the
/// guest whom the request is about, that guest gets the reply, validated;
/// otherwise the store stays as it is.
pub fn reply(db: &mut Database, user: Option<&User>, guest: Option<Ident>, answer: Reply) -> (r:
    Result<(), Denied>)
    ensures
        final(db).target() == old(db).target(),
        old(db)@.keyed() ==> final(db)@.keyed(),
        old(db)@.wf() ==> final(db)@.wf(),
        user.is_none() ==> r == Err::<(), Denied>(Denied::Unauthorized),
        user.is_some() ==> {
            let actor = user.unwrap()@.ident;
            let target = target_of(user.unwrap()@, guest);
            match old(db)@.group_of(actor) {
                Some(members) => if !members.contains(target) {
                    r == Err::<(), Denied>(Denied::Unauthorized)
                } else {
                    match old(db)@.guest_of(target) {
                        Some(found) => r.is_ok(),
                        None => r == Err::<(), Denied>(Denied::Missing),
                    }
                },
                None => r == Err::<(), Denied>(Denied::Missing),
            }
        },
        r.is_err() ==> final(db)@ == old(db)@,
        r.is_ok() ==> final(db)@ == old(db)@.updated(
            target_of(user.unwrap()@, guest),
            answer@.validated(),
        ),
        old(db)@.keyed() && r.is_ok() ==> final(db)@.guest_of(
            target_of(user.unwrap()@, guest),
        ) == Some(
            old(db)@.guest_of(target_of(user.unwrap()@, guest)).unwrap().with_reply(
                answer@.validated(),
            ),
        ),
{
    let user = match user {
        Some(user) => user,
        None => {
            return Err(Denied::Unauthorized);
        },
    };
    let target = match guest {
        Some(ident) => ident,
        None => user.ident,
    };
    match authorize(db, &user.ident, &target) {
        Ok(()) => {},
        Err(denied) => {
            return Err(denied);
        },
    }
    if db.guest(&target).is_none() {
        return Err(Denied::Missing);
    }
    let mut answer = answer;
    answer.validate();
    match db.update(&target, answer) {
        Ok(()) => Ok(()),
        Err(_) => Err(Denied::Missing),
    }
}

/// Where a request came from and what it asks for, in plain text.
#[derive(Debug)]
pub struct Incoming {
    /// The address that the connection came from.
    pub addr: String,
    /// The client on whose behalf a proxy made the connection, if it said so.
    pub from: Option<String>,
    /// The method of the request.
    pub method: String,
    /// What the request asks for.
    pub uri: String,
}

/// A request's origin and aim as a mathematical value.
pub struct IncomingView {
    pub addr: Seq<char>,
    pub from: Option<Seq<char>>,
    pub method: Seq<char>,
    pub uri: Seq<char>,
}

impl View for Incoming {
    type V = IncomingView;

    open spec fn view(&self) -> IncomingView {
        IncomingView {
            addr: self.addr@,
            from: match self.from {
                Some(from) => Some(from@),
                None => None,
            },
            method: self.method@,
            uri: self.uri@,
        }
    }
}

impl IncomingView {
    /// Who sent the request: the address, and behind a proxy the client too.
    pub open spec fn origin(self) -> Seq<char> {
        match self.from {
            Some(from) => "proxy: "@ + self.addr + ", for: "@ + from,
            None => "from: "@ + self.addr,
        }
    }

    /// The line that is logged for the request.
    pub open spec fn line(self) -> Seq<char> {
        self.origin() + ", req: "@ + self.method + " "@ + self.uri
    }
}

impl Incoming {
    /// The line that is logged for the request.
    pub fn describe(&self) -> (r: String)
        ensures
            r@ == self@.line(),
    {
        let origin = match &self.from {
            Some(from) => "proxy: ".to_owned().concat(self.addr.as_str()).concat(", for: ").concat(
                from.as_str(),
            ),
            None => "from: ".to_owned().concat(self.addr.as_str()),
        };
        origin.concat(", req: ").concat(self.method.as_str()).concat(" ").concat(self.uri.as_str())
    }
}

} // verus!
