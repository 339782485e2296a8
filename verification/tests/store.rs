use guestlist::db::guest::{Attend, Guest, Meal, Message, Reply};
use guestlist::db::record::Record;
use guestlist::db::{Database, Error};
use guestlist::user::{Ident, User};

fn user(first: &str, last: &str) -> User {
    User::new(first.to_string(), last.to_string())
}

fn guest(group: usize, first: &str, last: &str) -> Guest {
    Guest { group, user: user(first, last), child: false, reply: Reply::default() }
}

fn row(group: usize, first: &str, last: &str) -> Record {
    Record {
        group,
        first: first.to_string(),
        last: last.to_string(),
        child: false,
        attend: None,
        meal: None,
        msg: None,
    }
}

fn reply(attend: Option<Attend>, meal: Option<Meal>, msg: Option<&str>) -> Reply {
    Reply { attend, meal, msg: msg.map(|m| Message::new(m.to_string())) }
}

fn text(reply: &Reply) -> Option<&str> {
    reply.msg.as_ref().map(|m| m.as_str())
}

#[test]
fn empty_store() {
    let db = Database::default();
    assert_eq!(db.len(), 0);
    assert!(db.iter().is_empty());
    assert!(db.path.is_none());
    assert!(db.ident(&user("Jane", "Doe")).is_none());
    assert!(db.auth(&user("Jane", "Doe")).is_none());
    assert_eq!(Database::new(Vec::new()).len(), 0);
    assert_eq!(Database::load(Vec::new()).len(), 0);
}

#[test]
fn guests_are_found_by_name_whatever_the_case_and_blanks() {
    let jane = guest(1, "Jane", "Doe");
    let id = jane.user().ident;
    let db = Database::new(vec![jane, guest(1, "John", "Doe")]);
    assert_eq!(db.ident(&user(" jane ", "DOE")), Some(&id));
    assert_eq!(db.ident(&user("Jane", "Doe")), Some(&id));
    assert_eq!(db.ident(&user("JANE", "  doe")), Some(&id));
    assert!(db.ident(&user("Janet", "Doe")).is_none());
    assert!(db.ident(&user("Jane", "")).is_none());
    assert!(db.ident(&user("Doe", "Jane")).is_none());
    let found = db.auth(&user(" jane ", "DOE")).unwrap();
    assert_eq!(found.ident, id);
    assert_eq!(found.first(), "Jane");
    assert_eq!(found.last(), "Doe");
    assert!(db.auth(&user("Nobody", "Here")).is_none());
}

#[test]
fn every_loaded_guest_is_found_by_its_own_name() {
    let db = Database::load(vec![
        row(1, "Jane", "Doe"),
        row(1, " John ", "DOE"),
        row(2, "Émile", "Zola"),
    ]);
    let users = db.iter();
    assert_eq!(users.len(), 3);
    for u in users.iter() {
        assert_eq!(db.ident(u), Some(&u.ident));
    }
    assert_eq!(db.ident(&user("john", "doe")), Some(&users[1].ident));
    assert_eq!(db.ident(&user("émile", "ZOLA")), Some(&users[2].ident));
}

#[test]
fn the_store_keeps_the_order_in_which_the_guests_came() {
    let guests = vec![guest(3, "C", "c"), guest(1, "A", "a"), guest(2, "B", "b")];
    let ids: Vec<Ident> = guests.iter().map(|g| g.user().ident).collect();
    let db = Database::new(guests);
    assert_eq!(db.len(), 3);
    let users = db.iter();
    assert_eq!(users.iter().map(|u| u.ident).collect::<Vec<_>>(), ids);
    assert_eq!(users.iter().map(|u| u.name()).collect::<Vec<_>>(), vec!["C c", "A a", "B b"]);
}

#[test]
fn a_group_holds_the_guest_and_only_guests_of_that_group() {
    let guests = vec![
        guest(1, "Jane", "Doe"),
        guest(2, "Carl", "Roe"),
        guest(1, "John", "Doe"),
        guest(2, "Cleo", "Roe"),
        guest(3, "Solo", "Han"),
    ];
    let ids: Vec<Ident> = guests.iter().map(|g| g.user().ident).collect();
    let db = Database::new(guests);
    assert_eq!(db.group(&ids[0]).unwrap(), &[ids[0], ids[2]]);
    assert_eq!(db.group(&ids[2]).unwrap(), &[ids[0], ids[2]]);
    assert_eq!(db.group(&ids[1]).unwrap(), &[ids[1], ids[3]]);
    assert_eq!(db.group(&ids[3]).unwrap(), &[ids[1], ids[3]]);
    assert_eq!(db.group(&ids[4]).unwrap(), &[ids[4]]);
    for id in ids.iter() {
        let members = db.group(id).unwrap();
        assert!(members.contains(id));
        let group = db.guest(id).unwrap().group();
        for m in members {
            assert_eq!(db.guest(m).unwrap().group(), group);
        }
    }
}

#[test]
fn update_then_guest_gives_the_reply_back() {
    let jane = guest(1, "Jane", "Doe");
    let john = guest(1, "John", "Doe");
    let (a, b) = (jane.user().ident, john.user().ident);
    let mut db = Database::new(vec![jane, john]);
    let mut r = reply(Some(Attend::Yes), Some(Meal::Fish), Some("yay"));
    r.validate();
    assert_eq!(db.update(&b, r), Ok(()));
    let stored = db.guest(&b).unwrap();
    assert_eq!(stored.reply().attend, Some(Attend::Yes));
    assert_eq!(stored.reply().meal, Some(Meal::Fish));
    assert_eq!(text(stored.reply()), Some("yay"));
    assert_eq!(stored.user().first(), "John");
    assert_eq!(stored.group(), 1);
    assert!(!db.guest(&a).unwrap().reply().responded());
    assert_eq!(db.len(), 2);
    assert_eq!(db.group(&a).unwrap(), &[a, b]);
    assert_eq!(db.iter().iter().map(|u| u.ident).collect::<Vec<_>>(), vec![a, b]);

    let mut r = reply(Some(Attend::No), Some(Meal::Fish), Some("sorry"));
    r.validate();
    assert_eq!(db.update(&b, r), Ok(()));
    let stored = db.guest(&b).unwrap();
    assert_eq!(stored.reply().attend, Some(Attend::No));
    assert_eq!(stored.reply().meal, None);
    assert_eq!(text(stored.reply()), Some("sorry"));
}

#[test]
fn an_unknown_identifier_is_refused_and_nothing_changes() {
    let jane = guest(1, "Jane", "Doe");
    let a = jane.user().ident;
    let mut db = Database::new(vec![jane]);
    let stranger = Ident::mint();
    assert_eq!(db.update(&stranger, reply(Some(Attend::Yes), None, None)), Err(Error::Guest));
    assert_eq!(db.group(&stranger), Err(Error::Guest));
    assert!(db.guest(&stranger).is_none());
    assert_eq!(db.len(), 1);
    assert!(!db.guest(&a).unwrap().reply().responded());
    assert_eq!(db.group(&a).unwrap(), &[a]);
    assert_eq!(db.ident(&user("jane", "doe")), Some(&a));
    let mut empty = Database::default();
    assert_eq!(empty.update(&a, Reply::default()), Err(Error::Guest));
    assert_eq!(empty.group(&a), Err(Error::Guest));
    assert_eq!(empty.len(), 0);
}

#[test]
fn write_needs_a_path() {
    let mut db = Database::new(vec![guest(1, "Jane", "Doe")]);
    assert_eq!(db.write().err(), Some(Error::Path));
    db.set_path(Some("out.csv".to_string()));
    assert_eq!(db.path.as_deref(), Some("out.csv"));
    let rows = db.write().unwrap();
    assert_eq!(rows.len(), 1);
    assert_eq!(rows[0].first, "Jane");
    db.set_path(None);
    assert_eq!(db.write().err(), Some(Error::Path));
    assert_eq!(db.records().len(), 1);
}

#[test]
fn errors_in_words() {
    assert_eq!(Error::Path.message(), "missing path");
    assert_eq!(Error::Guest.message(), "missing guest");
}

#[test]
fn rows_and_guests() {
    let r = Record {
        group: 4,
        first: "Jane".to_string(),
        last: "Doe".to_string(),
        child: true,
        attend: Some(Attend::No),
        meal: Some(Meal::Fish),
        msg: Some(Message::new("hi".to_string())),
    };
    let g = Guest::from_record(r.clone());
    assert_eq!(g.group(), 4);
    assert_eq!(g.user().first(), "Jane");
    assert_eq!(g.user().last(), "Doe");
    assert!(g.child());
    assert_eq!(g.reply().attend, Some(Attend::No));
    assert_eq!(g.reply().meal, None);
    assert_eq!(text(g.reply()), Some("hi"));
    let back = Record::from_guest(g);
    assert_eq!(back.group, 4);
    assert_eq!(back.first, "Jane");
    assert_eq!(back.last, "Doe");
    assert!(back.child);
    assert_eq!(back.attend, Some(Attend::No));
    assert_eq!(back.meal, None);
    assert_eq!(back.msg.as_ref().map(|m| m.as_str()), Some("hi"));
    let d = Record::default();
    assert_eq!(d.group, 0);
    assert_eq!(d.first, "");
    assert_eq!(d.last, "");
    assert!(!d.child);
    assert!(d.attend.is_none() && d.meal.is_none() && d.msg.is_none());
}

#[test]
fn a_row_without_an_answer_is_unanswered() {
    let db = Database::load(vec![row(1, "Jane", "Doe")]);
    let id = db.iter()[0].ident;
    let g = db.guest(&id).unwrap();
    assert!(!g.reply().responded());
    assert!(!g.child());
}

#[test]
fn written_and_loaded_again_the_store_holds_the_same_guests() {
    let mut rows = vec![row(1, "Jane", "Doe"), row(1, "John", "Doe"), row(2, "Carl", "Roe")];
    rows[0].attend = Some(Attend::Yes);
    rows[0].meal = Some(Meal::Veggie);
    rows[0].msg = Some(Message::new("see you".to_string()));
    rows[1].attend = Some(Attend::No);
    rows[2].child = true;
    let mut db = Database::load(rows);
    db.set_path(Some("guests.csv".to_string()));
    let written = db.write().unwrap();
    let again = Database::load(written);
    assert_eq!(again.len(), db.len());
    let (old, new) = (db.iter(), again.iter());
    for i in 0..old.len() {
        assert_ne!(old[i].ident, new[i].ident);
        let (a, b) = (db.guest(&old[i].ident).unwrap(), again.guest(&new[i].ident).unwrap());
        assert_eq!(a.group(), b.group());
        assert_eq!(a.user().first(), b.user().first());
        assert_eq!(a.user().last(), b.user().last());
        assert_eq!(a.child(), b.child());
        assert_eq!(a.reply().attend, b.reply().attend);
        assert_eq!(a.reply().meal, b.reply().meal);
        assert_eq!(text(a.reply()), text(b.reply()));
        assert_eq!(db.group(&old[i].ident).unwrap().len(), again.group(&new[i].ident).unwrap().len());
        assert_eq!(again.ident(&old[i]), Some(&new[i].ident));
    }
    assert_eq!(again.group(&new[0].ident).unwrap(), &[new[0].ident, new[1].ident]);
    assert_eq!(again.group(&new[2].ident).unwrap(), &[new[2].ident]);
}

#[test]
fn of_two_guests_of_one_name_the_later_is_found() {
    let first = guest(1, "Jane", "Doe");
    let second = guest(2, " JANE", "doe ");
    let (a, b) = (first.user().ident, second.user().ident);
    let db = Database::new(vec![first, second]);
    assert_eq!(db.len(), 2);
    assert_eq!(db.ident(&user("jane", "doe")), Some(&b));
    assert_eq!(db.guest(&a).unwrap().group(), 1);
    assert_eq!(db.guest(&b).unwrap().group(), 2);
    assert_eq!(db.group(&a).unwrap(), &[a]);
    assert_eq!(db.group(&b).unwrap(), &[b]);
}

#[test]
fn of_two_guests_of_one_identifier_the_later_takes_the_place() {
    let first = guest(1, "Jane", "Doe");
    let mut second = guest(2, "John", "Doe");
    let third = guest(1, "Carl", "Roe");
    second.user.ident = first.user().ident;
    let (a, c) = (first.user().ident, third.user().ident);
    let db = Database::new(vec![first, third, second]);
    assert_eq!(db.len(), 2);
    assert_eq!(db.iter().iter().map(|u| u.ident).collect::<Vec<_>>(), vec![a, c]);
    assert_eq!(db.guest(&a).unwrap().user().first(), "John");
    assert_eq!(db.group(&a).unwrap(), &[a]);
    assert_eq!(db.group(&c).unwrap(), &[a, c]);
}

#[test]
fn end_to_end() {
    let mut db = Database::load(vec![row(1, "Jane", "Doe"), row(1, "John", "Doe")]);
    db.set_path(Some("guests.csv".to_string()));
    let jane = *db.ident(&user("jane", "doe")).unwrap();
    let party = db.group(&jane).unwrap().to_vec();
    assert_eq!(party.len(), 2);
    assert_eq!(party[0], jane);
    let john = party[1];
    assert_eq!(db.guest(&john).unwrap().user().first(), "John");
    assert!(db.group(&jane).unwrap().contains(&john));
    let mut r = reply(Some(Attend::Yes), Some(Meal::Fish), Some("yay"));
    r.validate();
    assert_eq!(db.update(&john, r), Ok(()));
    let written = db.write().unwrap();
    assert_eq!(written.len(), 2);
    assert_eq!(written[1].first, "John");
    assert_eq!(written[1].attend, Some(Attend::Yes));
    assert_eq!(written[1].meal, Some(Meal::Fish));
    assert_eq!(written[1].msg.as_ref().map(|m| m.as_str()), Some("yay"));
    assert!(written[0].attend.is_none());
    let again = Database::load(written);
    let id = *again.ident(&user("John", "Doe")).unwrap();
    let row = again.guest(&id).unwrap();
    assert_eq!(row.reply().attend, Some(Attend::Yes));
    assert_eq!(row.reply().meal, Some(Meal::Fish));
    assert_eq!(text(row.reply()), Some("yay"));
    assert_eq!(row.group(), 1);
}

#[test]
fn a_key_is_looked_up_as_it_stands() {
    let jane = guest(1, "Jane", "Doe");
    let id = jane.user().ident;
    let db = Database::new(vec![jane]);
    assert_eq!(db.find(&("jane".to_string(), "doe".to_string())), Some(&id));
    assert!(db.find(&("Jane".to_string(), "Doe".to_string())).is_none());
    assert!(db.find(&(" jane".to_string(), "doe".to_string())).is_none());
    assert_eq!(db.find(&user(" JANE ", "doe").key()), Some(&id));
}
