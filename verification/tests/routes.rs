use guestlist::db::guest::{Attend, Guest, Meal, Message, Reply};
use guestlist::db::Database;
use guestlist::srv::error::Error;
use guestlist::srv::route::{
    auth, authorize, contains, dashboard, rejection, reply, rsvp, Denied, Incoming,
};
use guestlist::srv::tls::CertKey;
use guestlist::user::{Ident, User};

fn user(first: &str, last: &str) -> User {
    User::new(first.to_string(), last.to_string())
}

fn guest(group: usize, first: &str, last: &str) -> Guest {
    Guest { group, user: user(first, last), child: false, reply: Reply::default() }
}

fn answer(attend: Option<Attend>, meal: Option<Meal>, msg: Option<&str>) -> Reply {
    Reply { attend, meal, msg: msg.map(|m| Message::new(m.to_string())) }
}

fn three() -> (Database, User, User, User) {
    let (a, b, c) = (guest(1, "Ann", "A"), guest(1, "Bob", "B"), guest(2, "Cy", "C"));
    let users = (a.user().clone(), b.user().clone(), c.user().clone());
    (Database::new(vec![a, b, c]), users.0, users.1, users.2)
}

#[test]
fn a_guest_of_another_group_is_forbidden() {
    let (mut db, a, b, c) = three();
    assert_eq!(authorize(&db, &c.ident, &a.ident), Err(Denied::Unauthorized));
    assert_eq!(authorize(&db, &c.ident, &b.ident), Err(Denied::Unauthorized));
    assert_eq!(authorize(&db, &a.ident, &c.ident), Err(Denied::Unauthorized));
    assert_eq!(authorize(&db, &a.ident, &b.ident), Ok(()));
    assert_eq!(authorize(&db, &b.ident, &a.ident), Ok(()));
    assert_eq!(authorize(&db, &c.ident, &c.ident), Ok(()));
    assert_eq!(rsvp(&db, Some(&c), Some(a.ident)).err(), Some(Denied::Unauthorized));
    assert_eq!(rsvp(&db, Some(&c), Some(b.ident)).err(), Some(Denied::Unauthorized));
    assert_eq!(rsvp(&db, Some(&a), Some(b.ident)).unwrap().user().first(), "Bob");
    let yes = answer(Some(Attend::Yes), Some(Meal::Fish), Some("yay"));
    assert_eq!(reply(&mut db, Some(&c), Some(a.ident), yes.clone()), Err(Denied::Unauthorized));
    assert_eq!(reply(&mut db, Some(&c), Some(b.ident), yes.clone()), Err(Denied::Unauthorized));
    assert!(!db.guest(&a.ident).unwrap().reply().responded());
    assert!(!db.guest(&b.ident).unwrap().reply().responded());
    assert_eq!(reply(&mut db, Some(&a), Some(b.ident), yes), Ok(()));
    assert_eq!(db.guest(&b.ident).unwrap().reply().meal, Some(Meal::Fish));
    assert!(!db.guest(&a.ident).unwrap().reply().responded());
}

#[test]
fn a_reply_is_validated_before_it_is_stored() {
    let (mut db, a, b, _) = three();
    let no = answer(Some(Attend::No), Some(Meal::Fish), Some("hi"));
    assert_eq!(reply(&mut db, Some(&a), None, no), Ok(()));
    let stored = db.guest(&a.ident).unwrap().reply();
    assert_eq!(stored.attend, Some(Attend::No));
    assert_eq!(stored.meal, None);
    assert_eq!(stored.msg.as_ref().map(|m| m.as_str()), Some("hi"));
    assert!(!db.guest(&b.ident).unwrap().reply().responded());
}

#[test]
fn nobody_logged_in() {
    let (mut db, a, _, _) = three();
    assert_eq!(dashboard(&db, None).err(), Some(Denied::Login));
    assert_eq!(rsvp(&db, None, Some(a.ident)).err(), Some(Denied::Login));
    assert_eq!(reply(&mut db, None, Some(a.ident), Reply::default()), Err(Denied::Unauthorized));
    assert!(!db.guest(&a.ident).unwrap().reply().responded());
}

#[test]
fn a_stranger_is_missing() {
    let (mut db, a, _, _) = three();
    let stranger = user("No", "Body");
    assert_eq!(authorize(&db, &stranger.ident, &a.ident), Err(Denied::Missing));
    assert_eq!(dashboard(&db, Some(&stranger)).err(), Some(Denied::Missing));
    assert_eq!(rsvp(&db, Some(&stranger), None).err(), Some(Denied::Missing));
    assert_eq!(reply(&mut db, Some(&stranger), None, Reply::default()), Err(Denied::Missing));
    assert_eq!(rsvp(&db, Some(&a), Some(stranger.ident)).err(), Some(Denied::Unauthorized));
}

#[test]
fn the_dashboard_shows_the_group_in_order() {
    let (db, a, b, c) = three();
    let shown = dashboard(&db, Some(&b)).unwrap();
    assert_eq!(shown.iter().map(|g| g.user().ident).collect::<Vec<_>>(), vec![a.ident, b.ident]);
    let shown = dashboard(&db, Some(&c)).unwrap();
    assert_eq!(shown.iter().map(|g| g.user().name()).collect::<Vec<_>>(), vec!["Cy C"]);
}

#[test]
fn the_reply_page_is_for_the_guest_unless_another_is_named() {
    let (db, a, b, _) = three();
    assert_eq!(rsvp(&db, Some(&a), None).unwrap().user().ident, a.ident);
    assert_eq!(rsvp(&db, Some(&a), Some(b.ident)).unwrap().user().ident, b.ident);
}

#[test]
fn login_gives_the_stored_identifier_to_the_typed_name() {
    let (db, a, _, _) = three();
    let typed = user(" ann ", "a");
    assert_ne!(typed.ident, a.ident);
    let known = auth(&db, typed).unwrap();
    assert_eq!(known.ident, a.ident);
    assert_eq!(known.first(), " ann ");
    assert_eq!(known.last(), "a");
    assert!(auth(&db, user("Ann", "B")).is_none());
}

#[test]
fn membership() {
    let ids = vec![Ident(1), Ident(2), Ident(3)];
    assert!(contains(&ids, &Ident(1)));
    assert!(contains(&ids, &Ident(3)));
    assert!(!contains(&ids, &Ident(4)));
    assert!(!contains(&[], &Ident(1)));
}

#[test]
fn error_pages() {
    let e = Error::e400();
    assert_eq!((e.code, e.msg.as_str()), (400, "Something went wrong..."));
    let e = Error::e401();
    assert_eq!((e.code, e.msg.as_str()), (401, "You don't have access to that!"));
    let e = Error::e404();
    assert_eq!((e.code, e.msg.as_str()), (404, "Page not found :("));
    let e = Error::e500("missing path");
    assert_eq!((e.code, e.msg.as_str()), (500, "missing path"));
    assert!(Denied::Login.error().is_none());
    assert_eq!(Denied::Unauthorized.error().unwrap().code, 401);
    let e = Denied::Missing.error().unwrap();
    assert_eq!((e.code, e.msg.as_str()), (500, "missing guest"));
}

#[test]
fn tls_needs_both_files() {
    let both = CertKey::try_from((Some("c.pem".to_string()), Some("k.pem".to_string()))).unwrap();
    assert_eq!((both.cert.as_str(), both.key.as_str()), ("c.pem", "k.pem"));
    assert!(CertKey::try_from((Some("c.pem".to_string()), None)).is_err());
    assert!(CertKey::try_from((None, Some("k.pem".to_string()))).is_err());
    assert!(CertKey::try_from((None, None)).is_err());
}

#[test]
fn an_unknown_name_is_told_so_and_no_more() {
    assert_eq!(rejection(&user("Jane", "Doe")), "Hmm, we couldn't find a login for: Jane Doe");
    assert_eq!(rejection(&user("", "")), "Hmm, we couldn't find a login for: ");
    assert_eq!(rejection(&user(" x", "")), "Hmm, we couldn't find a login for:  x");
}

#[test]
fn the_line_for_a_request() {
    let direct = Incoming {
        addr: "127.0.0.1:4000".to_string(),
        from: None,
        method: "GET".to_string(),
        uri: "/rsvp?guest=1".to_string(),
    };
    assert_eq!(direct.describe(), "from: 127.0.0.1:4000, req: GET /rsvp?guest=1");
    let proxied = Incoming {
        addr: "10.0.0.1:80".to_string(),
        from: Some("203.0.113.7".to_string()),
        method: "POST".to_string(),
        uri: "/login".to_string(),
    };
    assert_eq!(proxied.describe(), "proxy: 10.0.0.1:80, for: 203.0.113.7, req: POST /login");
}
