//! What a store holds, as a mathematical value, and the laws of it.

use vstd::prelude::*;

use crate::db::guest::{Guest, GuestView, ReplyView};
use crate::db::index::{
    distinct_keys, has_key, index_of, lemma_has_key, lemma_index_of, lemma_put, put, value_of,
};
use crate::db::record::{Record, RecordView};
use crate::db::Group;
use crate::user::{Ident, NameKey};

verus! {

/// What a store holds, as a mathematical value: three sequences of pairs, each
/// in the order in which its keys came.
pub struct DatabaseView {
    /// From the matching form of a name to the identifier found by it.
    pub names: Seq<(NameKey, Ident)>,
    /// From the number of an identifier to the guest.
    pub roster: Seq<(u128, GuestView)>,
    /// From a group to its members.
    pub parties: Seq<(Group, Seq<Ident>)>,
}

/// The guests of a list as mathematical values.
pub open spec fn views(guests: Seq<Guest>) -> Seq<GuestView> {
    Seq::new(guests.len(), |i: int| guests[i]@)
}

/// No two guests of the list have the same identifier.
pub open spec fn distinct_idents(guests: Seq<GuestView>) -> bool {
    forall|i: int, j: int|
        0 <= i < guests.len() && 0 <= j < guests.len() && i != j ==> (#[trigger] guests[i]).user.ident
            != (#[trigger] guests[j]).user.ident
}

/// The rows of a list as mathematical values.
pub open spec fn rows(records: Seq<Record>) -> Seq<RecordView> {
    Seq::new(records.len(), |i: int| records[i]@)
}

/// No identifier of the list stands in it twice.
pub open spec fn distinct(idents: Seq<Ident>) -> bool {
    forall|i: int, j: int|
        0 <= i < idents.len() && 0 <= j < idents.len() && i != j ==> idents[i] != idents[j]
}

/// The guests that are read from the rows, the guest of each row under the
/// identifier that stands at the row's place in `idents`.
pub open spec fn loaded(rows: Seq<RecordView>, idents: Seq<Ident>) -> Seq<GuestView> {
    Seq::new(rows.len(), |i: int| rows[i].guest(idents[i]))
}

/// The members of a group as a list of guests gives them: the identifiers of
/// the guests of that group, in the order of the list.
pub open spec fn members_in(guests: Seq<GuestView>, group: Group) -> Seq<Ident>
    decreases guests.len(),
{
    if guests.len() == 0 {
        Seq::empty()
    } else if guests.last().group == group {
        members_in(guests.drop_last(), group).push(guests.last().user.ident)
    } else {
        members_in(guests.drop_last(), group)
    }
}

/// The identifier that a name leads to as a list of guests gives it: that of
/// the last guest whose name has this matching form.
pub open spec fn last_named(guests: Seq<GuestView>, key: NameKey) -> Option<Ident>
    decreases guests.len(),
{
    if guests.len() == 0 {
        None
    } else if guests.last().user.key() == key {
        Some(guests.last().user.ident)
    } else {
        last_named(guests.drop_last(), key)
    }
}

/// The guest under an identifier as a list of guests gives it: the last guest
/// of the list with this identifier.
pub open spec fn last_under(guests: Seq<GuestView>, ident: Ident) -> Option<GuestView>
    decreases guests.len(),
{
    if guests.len() == 0 {
        None
    } else if guests.last().user.ident == ident {
        Some(guests.last())
    } else {
        last_under(guests.drop_last(), ident)
    }
}

impl DatabaseView {
    /// The rows that are written for the guests, in the order of the store.
    pub open spec fn rows(self) -> Seq<RecordView> {
        Seq::new(self.roster.len(), |i: int| RecordView::of(self.roster[i].1))
    }

    /// The guests of the store, in its order.
    pub open spec fn guests(self) -> Seq<GuestView> {
        Seq::new(self.roster.len(), |i: int| self.roster[i].1)
    }

    /// The store that holds nothing.
    pub open spec fn empty() -> DatabaseView {
        DatabaseView { names: Seq::empty(), roster: Seq::empty(), parties: Seq::empty() }
    }

    /// The store after one more guest has been taken in: the guest's name now
    /// leads to the guest's identifier, the guest stands under that identifier,
    /// and the identifier comes last among the members of the guest's group.
    pub open spec fn step(self, guest: GuestView) -> DatabaseView {
        DatabaseView {
            names: put(self.names, guest.user.key(), guest.user.ident),
            roster: put(self.roster, guest.user.ident.0, guest),
            parties: put(
                self.parties,
                guest.group,
                self.members_of(guest.group).push(guest.user.ident),
            ),
        }
    }

    /// The store that has taken in the guests of the list, one after the other.
    pub open spec fn built(guests: Seq<GuestView>) -> DatabaseView
        decreases guests.len(),
    {
        if guests.len() == 0 {
            DatabaseView::empty()
        } else {
            DatabaseView::built(guests.drop_last()).step(guests.last())
        }
    }

    /// The members that the store has for a group; none for a group that it
    /// does not know.
    pub open spec fn members_of(self, group: Group) -> Seq<Ident> {
        if has_key(self.parties, group) {
            value_of(self.parties, group)
        } else {
            Seq::empty()
        }
    }

    /// The identifier that a name leads to.
    pub open spec fn ident_of(self, key: NameKey) -> Option<Ident> {
        if has_key(self.names, key) {
            Some(value_of(self.names, key))
        } else {
            None
        }
    }

    /// The guest that stands under an identifier.
    pub open spec fn guest_of(self, ident: Ident) -> Option<GuestView> {
        if has_key(self.roster, ident.0) {
            Some(value_of(self.roster, ident.0))
        } else {
            None
        }
    }

    /// The members of the group of the guest that stands under an identifier.
    pub open spec fn group_of(self, ident: Ident) -> Option<Seq<Ident>> {
        match self.guest_of(ident) {
            Some(guest) => if has_key(self.parties, guest.group) {
                Some(value_of(self.parties, guest.group))
            } else {
                None
            },
            None => None,
        }
    }

    /// Whether a guest may read and answer for another: the other is a member
    /// of the guest's group.
    pub open spec fn allows(self, actor: Ident, target: Ident) -> bool {
        match self.group_of(actor) {
            Some(members) => members.contains(target),
            None => false,
        }
    }

    /// The store after the guest under the identifier has been given the reply.
    pub open spec fn updated(self, ident: Ident, reply: ReplyView) -> DatabaseView {
        DatabaseView {
            names: self.names,
            roster: put(self.roster, ident.0, value_of(self.roster, ident.0).with_reply(reply)),
            parties: self.parties,
        }
    }

    /// No key stands twice: no name, no identifier and no group. This holds of
    /// every store, whatever guests it took in.
    pub open spec fn keyed(self) -> bool {
        &&& distinct_keys(self.names)
        &&& distinct_keys(self.roster)
        &&& distinct_keys(self.parties)
    }

    /// The three sequences belong together: no key stands twice; every guest
    /// stands under its own identifier, is a member of its group and is found
    /// by some name; every member of a group is a guest of that group; every
    /// name leads to a guest of that name; and the two indexes hold what the
    /// guests themselves give: a group has its guests as members, each once
    /// and in their order, and a name leads to the last guest of that name.
    pub open spec fn wf(self) -> bool {
        &&& self.keyed()
        &&& forall|id: u128| #[trigger]
            has_key(self.roster, id) ==> {
                let guest = value_of(self.roster, id);
                &&& guest.user.ident == Ident(id)
                &&& has_key(self.parties, guest.group)
                &&& value_of(self.parties, guest.group).contains(Ident(id))
                &&& has_key(self.names, guest.user.key())
            }
        &&& forall|group: Group, member: Ident|
            has_key(self.parties, group) && #[trigger] value_of(self.parties, group).contains(member)
                ==> has_key(self.roster, member.0) && value_of(self.roster, member.0).group
                == group
        &&& forall|key: NameKey| #[trigger]
            has_key(self.names, key) ==> {
                let ident = value_of(self.names, key);
                &&& has_key(self.roster, ident.0)
                &&& value_of(self.roster, ident.0).user.key() == key
            }
        &&& forall|group: Group|
            {
                &&& #[trigger] self.members_of(group) == members_in(self.guests(), group)
                &&& self.members_of(group).no_duplicates()
                &&& has_key(self.parties, group) ==> self.members_of(group).len() > 0
            }
        &&& forall|key: NameKey| #[trigger] self.ident_of(key) == last_named(self.guests(), key)
    }
}

/// Two lists of guests that agree, place by place, in the identifier, the
/// group and the matching form of the name give every group the same members
/// and lead every name to the same identifier.
pub proof fn lemma_same_shape(a: Seq<GuestView>, b: Seq<GuestView>)
    requires
        a.len() == b.len(),
        forall|i: int|
            0 <= i < a.len() ==> (#[trigger] a[i]).user.ident == b[i].user.ident && a[i].group
                == b[i].group && a[i].user.key() == b[i].user.key(),
    ensures
        forall|group: Group| #[trigger] members_in(a, group) == members_in(b, group),
        forall|key: NameKey| #[trigger] last_named(a, key) == last_named(b, key),
    decreases a.len(),
{
    if a.len() > 0 {
        assert forall|i: int| 0 <= i < a.len() - 1 implies (#[trigger] a.drop_last()[i]).user.ident
            == b.drop_last()[i].user.ident && a.drop_last()[i].group == b.drop_last()[i].group
            && a.drop_last()[i].user.key() == b.drop_last()[i].user.key() by {
            assert(a.drop_last()[i] == a[i] && b.drop_last()[i] == b[i]);
        }
        lemma_same_shape(a.drop_last(), b.drop_last());
        assert forall|group: Group| #[trigger] members_in(a, group) == members_in(b, group) by {
            assert(members_in(a.drop_last(), group) == members_in(b.drop_last(), group));
        }
        assert forall|key: NameKey| #[trigger] last_named(a, key) == last_named(b, key) by {
            assert(last_named(a.drop_last(), key) == last_named(b.drop_last(), key));
        }
    }
}

/// Taking in a guest keeps the keys of each sequence distinct.
pub proof fn lemma_step_keyed(v: DatabaseView, guest: GuestView)
    requires
        v.keyed(),
    ensures
        v.step(guest).keyed(),
{
    lemma_put(v.names, guest.user.key(), guest.user.ident);
    lemma_put(v.roster, guest.user.ident.0, guest);
    lemma_put(v.parties, guest.group, v.members_of(guest.group).push(guest.user.ident));
}

/// Whatever guests a store has taken in, no key stands twice in it.
pub proof fn lemma_built_keyed(guests: Seq<GuestView>)
    ensures
        DatabaseView::built(guests).keyed(),
    decreases guests.len(),
{
    if guests.len() > 0 {
        lemma_built_keyed(guests.drop_last());
        lemma_step_keyed(DatabaseView::built(guests.drop_last()), guests.last());
    }
}

/// What a store that has taken in a list of guests answers, whatever the list:
/// a name leads to the last guest of that name, an identifier to the last guest
/// with that identifier, and a group has as members the identifiers of its
/// guests, in the order of the list, one for each guest of the list.
pub proof fn lemma_built_answers(guests: Seq<GuestView>)
    ensures
        forall|key: NameKey| #[trigger]
            DatabaseView::built(guests).ident_of(key) == last_named(guests, key),
        forall|ident: Ident| #[trigger]
            DatabaseView::built(guests).guest_of(ident) == last_under(guests, ident),
        forall|group: Group| #[trigger]
            DatabaseView::built(guests).members_of(group) == members_in(guests, group),
    decreases guests.len(),
{
    let w = DatabaseView::built(guests);
    if guests.len() > 0 {
        let front = guests.drop_last();
        let v = DatabaseView::built(front);
        let guest = guests.last();
        lemma_built_answers(front);
        lemma_built_keyed(front);
        lemma_put(v.names, guest.user.key(), guest.user.ident);
        lemma_put(v.roster, guest.user.ident.0, guest);
        lemma_put(v.parties, guest.group, v.members_of(guest.group).push(guest.user.ident));
        assert forall|key: NameKey| #[trigger] w.ident_of(key) == last_named(guests, key) by {
            assert(v.ident_of(key) == last_named(front, key));
        }
        assert forall|ident: Ident| #[trigger] w.guest_of(ident) == last_under(guests, ident) by {
            assert(v.guest_of(ident) == last_under(front, ident));
        }
        assert forall|group: Group| #[trigger] w.members_of(group) == members_in(guests, group) by {
            assert(v.members_of(group) == members_in(front, group));
        }
    }
}

/// Taking in a guest whose identifier the store does not hold yet keeps the
/// store well formed, and the guest comes last.
pub proof fn lemma_step_wf(v: DatabaseView, guest: GuestView)
    requires
        v.wf(),
        !has_key(v.roster, guest.user.ident.0),
    ensures
        v.step(guest).wf(),
        v.step(guest).roster == v.roster.push((guest.user.ident.0, guest)),
{
    let w = v.step(guest);
    let id = guest.user.ident;
    let members = v.members_of(guest.group);
    let joined = members.push(id);
    lemma_put(v.names, guest.user.key(), id);
    lemma_put(v.roster, id.0, guest);
    lemma_put(v.parties, guest.group, joined);
    // The members of the guest's group are the old ones and the guest.
    assert(joined[members.len() as int] == id);
    assert forall|m: Ident| members.contains(m) implies joined.contains(m) by {
        let j = choose|j: int| 0 <= j < members.len() && members[j] == m;
        assert(joined[j] == m);
    }
    assert forall|m: Ident| joined.contains(m) implies m == id || members.contains(m) by {
        let j = choose|j: int| 0 <= j < joined.len() && joined[j] == m;
        assert(j < members.len() ==> members[j] == m);
    }
    assert forall|i: int, j: int|
        0 <= i < joined.len() && 0 <= j < joined.len() && i != j implies joined[i] != joined[j] by {
        assert(i < members.len() ==> members.contains(members[i]));
        assert(j < members.len() ==> members.contains(members[j]));
    }
    // Every guest: the new one, and each old one, which is another guest.
    assert forall|other: u128| #[trigger] has_key(w.roster, other) implies {
        let g = value_of(w.roster, other);
        &&& g.user.ident == Ident(other)
        &&& has_key(w.parties, g.group)
        &&& value_of(w.parties, g.group).contains(Ident(other))
        &&& has_key(w.names, g.user.key())
    } by {
        assert(other != id.0 ==> has_key(v.roster, other));
    }
    assert forall|group: Group, member: Ident|
        has_key(w.parties, group) && #[trigger] value_of(w.parties, group).contains(
            member,
        ) implies has_key(w.roster, member.0) && value_of(w.roster, member.0).group == group by {
        assert(member != id ==> v.members_of(group).contains(member));
    }
    assert forall|key: NameKey| #[trigger] has_key(w.names, key) implies {
        let ident = value_of(w.names, key);
        &&& has_key(w.roster, ident.0)
        &&& value_of(w.roster, ident.0).user.key() == key
    } by {
        assert(key != guest.user.key() ==> has_key(v.names, key));
    }
    // The two indexes still hold what the guests give.
    assert(w.guests().drop_last() =~= v.guests());
    assert forall|group: Group|
        {
            &&& #[trigger] w.members_of(group) == members_in(w.guests(), group)
            &&& w.members_of(group).no_duplicates()
            &&& has_key(w.parties, group) ==> w.members_of(group).len() > 0
        } by {
        assert(v.members_of(group) == members_in(v.guests(), group));
    }
    assert forall|key: NameKey| #[trigger] w.ident_of(key) == last_named(w.guests(), key) by {
        assert(v.ident_of(key) == last_named(v.guests(), key));
    }
}

/// A store that has taken in guests with distinct identifiers is well formed
/// and holds the guests as they came, each under its own identifier.
pub proof fn lemma_built_wf(guests: Seq<GuestView>)
    requires
        distinct_idents(guests),
    ensures
        DatabaseView::built(guests).wf(),
        DatabaseView::built(guests).roster =~= Seq::new(
            guests.len(),
            |i: int| (guests[i].user.ident.0, guests[i]),
        ),
    decreases guests.len(),
{
    if guests.len() > 0 {
        let front = guests.drop_last();
        let last = guests.last();
        let v = DatabaseView::built(front);
        assert forall|i: int, j: int| 0 <= i < front.len() && 0 <= j < front.len() && i != j implies (
        #[trigger] front[i]).user.ident != (#[trigger] front[j]).user.ident by {
            assert(front[i] == guests[i] && front[j] == guests[j]);
        }
        lemma_built_wf(front);
        if has_key(v.roster, last.user.ident.0) {
            let i = index_of(v.roster, last.user.ident.0);
            assert(guests[i].user.ident == last.user.ident);
        }
        lemma_step_wf(v, last);
    }
}

/// Rows that are read under distinct identifiers give a well-formed store that
/// holds one guest for each row, in the order of the rows: the guest that the
/// row describes.
pub proof fn lemma_reload(rows: Seq<RecordView>, idents: Seq<Ident>)
    requires
        idents.len() == rows.len(),
        distinct(idents),
    ensures
        DatabaseView::built(loaded(rows, idents)).wf(),
        DatabaseView::built(loaded(rows, idents)).roster.len() == rows.len(),
        forall|i: int|
            0 <= i < rows.len() ==> (#[trigger] DatabaseView::built(
                loaded(rows, idents),
            ).roster[i]) == (idents[i].0, rows[i].guest(idents[i])),
{
    let guests = loaded(rows, idents);
    assert forall|i: int, j: int| 0 <= i < guests.len() && 0 <= j < guests.len() && i != j implies (
    #[trigger] guests[i]).user.ident != (#[trigger] guests[j]).user.ident by {
        assert(guests[i].user.ident == idents[i] && guests[j].user.ident == idents[j]);
    }
    lemma_built_wf(guests);
}

/// Writing the guests of a store as rows and reading the rows again under
/// distinct identifiers gives a well-formed store of as many guests, in the
/// same order, each with the group, the name and the child mark that it had,
/// and with the reply that it had, validated: the very reply where that was
/// valid. Only the identifiers are new. Where the store was well formed, the
/// new store finds a guest by the same names and lets the same guests answer
/// for each other.
pub proof fn lemma_write_then_load(v: DatabaseView, idents: Seq<Ident>)
    requires
        idents.len() == v.roster.len(),
        distinct(idents),
    ensures
        DatabaseView::built(loaded(v.rows(), idents)).wf(),
        DatabaseView::built(loaded(v.rows(), idents)).roster.len() == v.roster.len(),
        forall|i: int|
            0 <= i < v.roster.len() ==> {
                let before = v.roster[i].1;
                let after = (#[trigger] DatabaseView::built(loaded(v.rows(), idents)).roster[i]).1;
                &&& after.user.ident == idents[i]
                &&& after.group == before.group
                &&& after.user.first == before.user.first
                &&& after.user.last == before.user.last
                &&& after.user.key() == before.user.key()
                &&& after.child == before.child
                &&& after.reply == before.reply.validated()
                &&& before.reply.valid() ==> after.reply == before.reply
            },
        v.wf() ==> forall|key: NameKey| #[trigger]
            DatabaseView::built(loaded(v.rows(), idents)).ident_of(key).is_some() <==> v.ident_of(
                key,
            ).is_some(),
        v.wf() ==> forall|i: int, j: int|
            0 <= i < v.roster.len() && 0 <= j < v.roster.len() ==> (#[trigger] DatabaseView::built(
                loaded(v.rows(), idents),
            ).allows(idents[i], idents[j]) <==> #[trigger] v.allows(
                Ident(v.roster[i].0),
                Ident(v.roster[j].0),
            )),
{
    let w = DatabaseView::built(loaded(v.rows(), idents));
    lemma_reload(v.rows(), idents);
    if v.wf() {
        assert forall|key: NameKey| #[trigger] w.ident_of(key).is_some() <==> v.ident_of(
            key,
        ).is_some() by {
            lemma_find_identity(w, key);
            lemma_find_identity(v, key);
            if w.ident_of(key).is_some() {
                let i = choose|i: int|
                    0 <= i < w.roster.len() && (#[trigger] w.roster[i]).1.user.key() == key;
                assert(v.roster[i].1.user.key() == key);
            }
            if v.ident_of(key).is_some() {
                let i = choose|i: int|
                    0 <= i < v.roster.len() && (#[trigger] v.roster[i]).1.user.key() == key;
                assert(w.roster[i].1.user.key() == key);
            }
        }
        assert forall|i: int, j: int| 0 <= i < v.roster.len() && 0 <= j < v.roster.len() implies (
        #[trigger] w.allows(idents[i], idents[j]) <==> #[trigger] v.allows(
            Ident(v.roster[i].0),
            Ident(v.roster[j].0),
        )) by {
            lemma_allows(w, idents[i], idents[j]);
            lemma_allows(v, Ident(v.roster[i].0), Ident(v.roster[j].0));
            lemma_index_of(w.roster, i);
            lemma_index_of(w.roster, j);
            lemma_index_of(v.roster, i);
            lemma_index_of(v.roster, j);
        }
    }
}

/// In a well-formed store a guest may answer for another exactly where both
/// are guests of the store and of one group.
pub proof fn lemma_allows(v: DatabaseView, actor: Ident, target: Ident)
    requires
        v.wf(),
    ensures
        v.allows(actor, target) <==> v.guest_of(actor).is_some() && v.guest_of(target).is_some()
            && v.guest_of(actor).unwrap().group == v.guest_of(target).unwrap().group,
{
    assert(Ident(target.0) == target);
}

/// In a well-formed store a name leads to an identifier exactly where some
/// guest of the store has a name of the same matching form, and the guest
/// under that identifier is such a guest.
pub proof fn lemma_find_identity(v: DatabaseView, key: NameKey)
    requires
        v.wf(),
    ensures
        v.ident_of(key).is_some() <==> exists|i: int|
            0 <= i < v.roster.len() && (#[trigger] v.roster[i]).1.user.key() == key,
        v.ident_of(key).is_some() ==> v.guest_of(v.ident_of(key).unwrap()).is_some() && v.guest_of(
            v.ident_of(key).unwrap(),
        ).unwrap().user.key() == key,
{
    if v.ident_of(key).is_some() {
        lemma_has_key(v.roster, value_of(v.names, key).0);
    }
    if exists|i: int| 0 <= i < v.roster.len() && (#[trigger] v.roster[i]).1.user.key() == key {
        let i = choose|i: int| 0 <= i < v.roster.len() && (#[trigger] v.roster[i]).1.user.key() == key;
        lemma_index_of(v.roster, i);
    }
}

/// In a well-formed store the members of a guest's group include the guest,
/// and every member is a guest of the store with the group of that guest; so
/// whoever the guest may answer for may answer for the guest.
pub proof fn lemma_group_members(v: DatabaseView, ident: Ident)
    requires
        v.wf(),
        v.guest_of(ident).is_some(),
    ensures
        v.group_of(ident).is_some(),
        v.group_of(ident).unwrap().contains(ident),
        v.allows(ident, ident),
        forall|member: Ident| #[trigger]
            v.group_of(ident).unwrap().contains(member) ==> v.guest_of(member).is_some()
                && v.guest_of(member).unwrap().group == v.guest_of(ident).unwrap().group,
        forall|member: Ident| #[trigger]
            v.allows(ident, member) ==> v.allows(member, ident),
{
    assert(Ident(ident.0) == ident);
    assert forall|member: Ident| #[trigger] v.allows(ident, member) implies v.allows(
        member,
        ident,
    ) by {
        lemma_allows(v, ident, member);
        lemma_allows(v, member, ident);
    }
}

/// Giving a guest of a store a reply changes the reply of that guest alone:
/// every guest keeps its place, its group and its name, every other guest its
/// reply, and every group its members.
pub proof fn lemma_updated(v: DatabaseView, ident: Ident, reply: ReplyView)
    requires
        v.keyed(),
        v.guest_of(ident).is_some(),
    ensures
        v.updated(ident, reply).keyed(),
        v.updated(ident, reply).roster.len() == v.roster.len(),
        v.updated(ident, reply).guest_of(ident) == Some(v.guest_of(ident).unwrap().with_reply(reply)),
        forall|other: Ident|
            other != ident ==> #[trigger] v.updated(ident, reply).guest_of(other) == v.guest_of(
                other,
            ),
        forall|other: Ident| #[trigger] v.updated(ident, reply).group_of(other) == v.group_of(other),
        forall|key: NameKey| #[trigger] v.updated(ident, reply).ident_of(key) == v.ident_of(key),
{
    let w = v.updated(ident, reply);
    lemma_put(v.roster, ident.0, value_of(v.roster, ident.0).with_reply(reply));
    assert forall|other: Ident| other != ident implies #[trigger] w.guest_of(other) == v.guest_of(
        other,
    ) by {
        assert(other.0 != ident.0);
    }
    assert forall|other: Ident| #[trigger] w.group_of(other) == v.group_of(other) by {
        assert(has_key(w.roster, other.0) == has_key(v.roster, other.0));
    }
}

/// Giving a guest of a well-formed store a reply keeps the store well formed.
pub proof fn lemma_updated_wf(v: DatabaseView, ident: Ident, reply: ReplyView)
    requires
        v.wf(),
        v.guest_of(ident).is_some(),
    ensures
        v.updated(ident, reply).wf(),
{
    let w = v.updated(ident, reply);
    lemma_put(v.roster, ident.0, value_of(v.roster, ident.0).with_reply(reply));
    assert forall|other: u128| #[trigger] has_key(w.roster, other) implies {
        let g = value_of(w.roster, other);
        &&& g.user.ident == Ident(other)
        &&& has_key(w.parties, g.group)
        &&& value_of(w.parties, g.group).contains(Ident(other))
        &&& has_key(w.names, g.user.key())
    } by {
        assert(has_key(v.roster, other));
    }
    assert forall|group: Group, member: Ident|
        has_key(w.parties, group) && #[trigger] value_of(w.parties, group).contains(
            member,
        ) implies has_key(w.roster, member.0) && value_of(w.roster, member.0).group == group by {
        assert(has_key(v.roster, member.0));
    }
    assert forall|key: NameKey| #[trigger] has_key(w.names, key) implies {
        let id = value_of(w.names, key);
        &&& has_key(w.roster, id.0)
        &&& value_of(w.roster, id.0).user.key() == key
    } by {
        assert(has_key(v.roster, value_of(v.names, key).0));
    }
    // Every guest keeps its identifier, its group and its name.
    lemma_has_key(v.roster, ident.0);
    assert forall|i: int| 0 <= i < w.guests().len() implies (#[trigger] w.guests()[i]).user.ident
        == v.guests()[i].user.ident && w.guests()[i].group == v.guests()[i].group
        && w.guests()[i].user.key() == v.guests()[i].user.key() by {
        assert(w.roster[i].0 == v.roster[i].0);
    }
    lemma_same_shape(w.guests(), v.guests());
    assert forall|group: Group|
        {
            &&& #[trigger] w.members_of(group) == members_in(w.guests(), group)
            &&& w.members_of(group).no_duplicates()
            &&& has_key(w.parties, group) ==> w.members_of(group).len() > 0
        } by {
        assert(v.members_of(group) == members_in(v.guests(), group));
    }
    assert forall|key: NameKey| #[trigger] w.ident_of(key) == last_named(w.guests(), key) by {
        assert(v.ident_of(key) == last_named(v.guests(), key));
    }
}

} // verus!
