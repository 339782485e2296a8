//! The store of guests.
//!
//! The store keeps every guest under the guest's identifier, in the order in
//! which the guests came, and two indexes beside them: from the matching form
//! of a name to the identifier, and from a group to the identifiers of its
//! members.

use indexmap::IndexMap;
use vstd::prelude::*;

use crate::db::guest::{Guest, Reply};
use crate::db::index::{
    group_entries, groups_entry, groups_get, groups_new, guest_entries,
    guests_get, guests_get_mut, guests_insert, guests_len, guests_new, guests_values,
    name_entries, names_get, names_insert, names_new,
};
use crate::db::model::{
    distinct, distinct_idents, last_named, last_under, lemma_built_answers, lemma_built_keyed,
    lemma_built_wf, members_in, lemma_reload, lemma_updated,
    lemma_updated_wf, loaded, rows, views, DatabaseView,
};
use crate::db::record::{Record, RecordView};
use crate::user::{Ident, NameKey, User};

pub mod guest;
pub mod index;
pub mod model;
pub mod record;

verus! {

/// The number that the guests of one invitation share.
pub type Group = usize;

/// Why the store could not do what was asked.
#[derive(Clone, Copy, Debug, PartialEq, Eq, Structural)]
pub enum Error {
    /// No path has been set to write the guests to.
    Path,
    /// The store holds no guest under the identifier.
    Guest,
}

impl Error {
    /// The error in words.
    pub fn message(&self) -> (r: &'static str)
        ensures
            r@ == match *self {
                Error::Path => "missing path"@,
                Error::Guest => "missing guest"@,
            },
    {
        match self {
            Error::Path => "missing path",
            Error::Guest => "missing guest",
        }
    }
}

/// The store of guests.
#[derive(Debug)]
pub struct Database {
    /// Where the guests are written to, if anywhere.
    pub path: Option<String>,
    idents: IndexMap<(String, String), Ident>,
    guests: IndexMap<u128, Guest>,
    groups: IndexMap<Group, Vec<Ident>>,
}

impl View for Database {
    type V = DatabaseView;

    closed spec fn view(&self) -> DatabaseView {
        DatabaseView {
            names: name_entries(self.idents),
            roster: guest_entries(self.guests),
            parties: group_entries(self.groups),
        }
    }
}

impl Default for Database {
    fn default() -> (db: Database)
        ensures
            db@ == DatabaseView::empty(),
            db@.wf(),
            db.target().is_none(),
    {
        Database { path: None, idents: names_new(), guests: guests_new(), groups: groups_new() }
    }
}

impl Database {
    /// The path that the guests are written to, if one has been set.
    pub closed spec fn target(&self) -> Option<Seq<char>> {
        match self.path {
            Some(path) => Some(path@),
            None => None,
        }
    }

    /// Sets or clears the path that the guests are written to.
    pub fn set_path(&mut self, path: Option<String>)
        ensures
            final(self)@ == old(self)@,
            final(self).target() == match path {
                Some(p) => Some(p@),
                None => None,
            },
    {
        self.path = path;
    }

    /// The store that holds the given guests, taken in one after the other.
    ///
    /// Two guests of one name: the name leads to the later one. Two guests of
    /// one identifier: the later one stands in the place of the earlier one.
    /// Where the identifiers are distinct, the store is well formed.
    pub fn new(guests: Vec<Guest>) -> (db: Database)
        ensures
            db@ == DatabaseView::built(views(guests@)),
            db@.keyed(),
            forall|key: NameKey| #[trigger]
                db@.ident_of(key) == last_named(views(guests@), key),
            forall|ident: Ident| #[trigger] db@.guest_of(ident) == last_under(views(guests@), ident),
            forall|group: Group| #[trigger]
                db@.members_of(group) == members_in(views(guests@), group),
            distinct_idents(views(guests@)) ==> db@.wf() && db@.roster == Seq::new(
                guests@.len(),
                |i: int| (guests@[i]@.user.ident.0, guests@[i]@),
            ),
            db.target().is_none(),
    {
        let mut db = Database::default();
        let n = guests.len();
        let mut i: usize = 0;
        while i < n
            invariant
                n == guests.len(),
                0 <= i <= n,
                db.target().is_none(),
                db@ == DatabaseView::built(views(guests@).take(i as int)),
            decreases n - i,
        {
            let ghost before = db@;
            let guest = guests[i].clone();
            let ident = guest.user.ident;
            let group = guest.group;
            let key = guest.user.key();
            names_insert(&mut db.idents, key, ident);
            guests_insert(&mut db.guests, ident.0, guest);
            groups_entry(&mut db.groups, group).push(ident);
            proof {
                let all = views(guests@);
                assert(all.take(i + 1).drop_last() =~= all.take(i as int));
                assert(all.take(i + 1).last() == guests@[i as int]@);
                assert(db@ == before.step(guests@[i as int]@));
            }
            i = i + 1;
        }
        proof {
            let all = views(guests@);
            assert(all.take(n as int) =~= all);
            lemma_built_keyed(all);
            lemma_built_answers(all);
            if distinct_idents(all) {
                lemma_built_wf(all);
                assert(db@.roster =~= Seq::new(
                    guests@.len(),
                    |i: int| (guests@[i]@.user.ident.0, guests@[i]@),
                ));
            }
        }
        db
    }

    /// The guests that the rows describe, each under a freshly drawn
    /// identifier, in the order of the rows.
    pub fn guests_of(records: Vec<Record>) -> (guests: Vec<Guest>)
        ensures
            guests@.len() == records@.len(),
            forall|i: int|
                0 <= i < guests@.len() ==> (#[trigger] guests@[i])@ == records@[i]@.guest(
                    guests@[i]@.user.ident,
                ),
    {
        let mut guests: Vec<Guest> = Vec::new();
        let mut i: usize = 0;
        while i < records.len()
            invariant
                0 <= i <= records@.len(),
                guests@.len() == i,
                forall|j: int|
                    0 <= j < i ==> (#[trigger] guests@[j])@ == records@[j]@.guest(
                        guests@[j]@.user.ident,
                    ),
            decreases records@.len() - i,
        {
            guests.push(Guest::from_record(records[i].clone()));
            i = i + 1;
        }
        guests
    }

    /// The store that holds the guests that the rows describe, each under a
    /// freshly drawn identifier. Whatever identifiers are drawn, the store is
    /// the one built from the rows under them; where they are distinct, it is
    /// well formed and holds one guest for each row, in the order of the rows.
    pub fn load(records: Vec<Record>) -> (db: Database)
        ensures
            db.target().is_none(),
            db@.keyed(),
            exists|idents: Seq<Ident>|
                {
                    &&& idents.len() == records@.len()
                    &&& #[trigger] DatabaseView::built(loaded(rows(records@), idents)) == db@
                    &&& distinct(idents) ==> db@.wf() && db@.roster.len() == records@.len()
                },
    {
        let ghost all = rows(records@);
        let guests = Database::guests_of(records);
        let db = Database::new(guests);
        proof {
            let idents = Seq::new(guests@.len(), |i: int| guests@[i]@.user.ident);
            assert(views(guests@) =~= loaded(all, idents));
            if distinct(idents) {
                lemma_reload(all, idents);
            }
        }
        db
    }

    /// The persons of the store, in the order in which they came.
    pub fn iter(&self) -> (r: Vec<User>)
        ensures
            r@.len() == self@.roster.len(),
            forall|i: int| 0 <= i < r@.len() ==> (#[trigger] r@[i])@ == self@.roster[i].1.user,
    {
        let guests = guests_values(&self.guests);
        let mut users: Vec<User> = Vec::new();
        let mut i: usize = 0;
        while i < guests.len()
            invariant
                0 <= i <= guests@.len(),
                guests@.len() == self@.roster.len(),
                forall|j: int| 0 <= j < guests@.len() ==> (#[trigger] guests@[j])@ == self@.roster[j].1,
                users@.len() == i,
                forall|j: int| 0 <= j < i ==> (#[trigger] users@[j])@ == self@.roster[j].1.user,
            decreases guests@.len() - i,
        {
            users.push(guests[i].user().clone());
            i = i + 1;
        }
        users
    }

    /// How many guests the store holds.
    pub fn len(&self) -> (n: usize)
        ensures
            n == self@.roster.len(),
    {
        guests_len(&self.guests)
    }

    /// The identifier that stands in the store under a key, the pair of the
    /// matching forms of a first and a last name.
    pub fn find(&self, key: &(String, String)) -> (r: Option<&Ident>)
        ensures
            r.is_some() == self@.ident_of((key.0@, key.1@)).is_some(),
            r.is_some() ==> *r.unwrap() == self@.ident_of((key.0@, key.1@)).unwrap(),
    {
        names_get(&self.idents, key)
    }

    /// The identifier that the person's name leads to, whatever the capitals of
    /// the name and the blanks around it.
    pub fn ident(&self, user: &User) -> (r: Option<&Ident>)
        ensures
            r.is_some() == self@.ident_of(user@.key()).is_some(),
            r.is_some() ==> *r.unwrap() == self@.ident_of(user@.key()).unwrap(),
    {
        let key = user.key();
        self.find(&key)
    }

    /// The stored person that the given person's name leads to.
    pub fn auth(&self, user: &User) -> (r: Option<&User>)
        ensures
            match self@.ident_of(user@.key()) {
                Some(ident) => match self@.guest_of(ident) {
                    Some(guest) => r.is_some() && r.unwrap()@ == guest.user,
                    None => r.is_none(),
                },
                None => r.is_none(),
            },
            self@.wf() ==> (r.is_some() <==> self@.ident_of(user@.key()).is_some()),
            self@.wf() && r.is_some() ==> r.unwrap()@.same_guest(user@),
    {
        match self.ident(user) {
            Some(ident) => match guests_get(&self.guests, ident.0) {
                Some(guest) => Some(guest.user()),
                None => None,
            },
            None => None,
        }
    }

    /// The guest that stands under the identifier.
    pub fn guest(&self, ident: &Ident) -> (r: Option<&Guest>)
        ensures
            r.is_some() == self@.guest_of(*ident).is_some(),
            r.is_some() ==> r.unwrap()@ == self@.guest_of(*ident).unwrap(),
    {
        guests_get(&self.guests, ident.0)
    }

    /// The members of the group of the guest that stands under the identifier,
    /// in the order in which they came.
    ///
    /// In a well-formed store every guest has a group, the guest is among its
    /// members, and every member is a guest of that same group.
    pub fn group(&self, ident: &Ident) -> (r: Result<&[Ident], Error>)
        ensures
            match self@.group_of(*ident) {
                Some(members) => r.is_ok() && r.unwrap()@ == members,
                None => r == Err::<&[Ident], Error>(Error::Guest),
            },
            self@.wf() ==> (r.is_ok() <==> self@.guest_of(*ident).is_some()),
            self@.wf() && r.is_ok() ==> r.unwrap()@.contains(*ident),
            self@.wf() && r.is_ok() ==> forall|member: Ident| #[trigger]
                r.unwrap()@.contains(member) ==> self@.guest_of(member).is_some()
                    && self@.guest_of(member).unwrap().group == self@.guest_of(
                    *ident,
                ).unwrap().group,
    {
        let group = match guests_get(&self.guests, ident.0) {
            Some(guest) => guest.group(),
            None => {
                return Err(Error::Guest);
            },
        };
        match groups_get(&self.groups, group) {
            Some(members) => Ok(members.as_slice()),
            None => Err(Error::Guest),
        }
    }

    /// Puts the reply in the place of the one that the guest under the
    /// identifier has; where there is no such guest, nothing changes.
    pub fn update(&mut self, ident: &Ident, reply: Reply) -> (r: Result<(), Error>)
        ensures
            match old(self)@.guest_of(*ident) {
                Some(guest) => r.is_ok() && final(self)@ == old(self)@.updated(*ident, reply@),
                None => r == Err::<(), Error>(Error::Guest) && final(self)@ == old(self)@,
            },
            final(self).target() == old(self).target(),
            old(self)@.keyed() ==> final(self)@.keyed(),
            old(self)@.keyed() && r.is_ok() ==> final(self)@.guest_of(*ident) == Some(
                old(self)@.guest_of(*ident).unwrap().with_reply(reply@),
            ),
            old(self)@.wf() ==> final(self)@.wf(),
    {
        let ghost before = self@;
        let ghost answer = reply@;
        match guests_get_mut(&mut self.guests, ident.0) {
            Some(guest) => {
                guest.update(reply);
            },
            None => {
                return Err(Error::Guest);
            },
        }
        proof {
            assert(self@ == before.updated(*ident, answer));
            if before.keyed() {
                lemma_updated(before, *ident, answer);
            }
            if before.wf() {
                lemma_updated_wf(before, *ident, answer);
            }
        }
        Ok(())
    }

    /// The rows to write for the guests, in the order of the store, where a
    /// path has been set to write them to.
    pub fn write(&self) -> (r: Result<Vec<Record>, Error>)
        ensures
            self.target().is_none() ==> r == Err::<Vec<Record>, Error>(Error::Path),
            self.target().is_some() ==> r.is_ok() && rows(r.unwrap()@) == self@.rows(),
    {
        if self.path.is_none() {
            return Err(Error::Path);
        }
        Ok(self.records())
    }

    /// The rows of the guests, in the order of the store.
    pub fn records(&self) -> (r: Vec<Record>)
        ensures
            rows(r@) == self@.rows(),
    {
        let guests = guests_values(&self.guests);
        let mut records: Vec<Record> = Vec::new();
        let mut i: usize = 0;
        while i < guests.len()
            invariant
                0 <= i <= guests@.len(),
                guests@.len() == self@.roster.len(),
                forall|j: int| 0 <= j < guests@.len() ==> (#[trigger] guests@[j])@ == self@.roster[j].1,
                records@.len() == i,
                forall|j: int| 0 <= j < i ==> (#[trigger] records@[j])@ == RecordView::of(self@.roster[j].1),
            decreases guests@.len() - i,
        {
            records.push(Record::from_guest(guests[i].clone()));
            i = i + 1;
        }
        assert(rows(records@) =~= self@.rows());
        records
    }
}

} // verus!
