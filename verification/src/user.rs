//! Who a guest is: an identifier and a name.

use itertools::Itertools;
use vstd::prelude::*;
use vstd::std_specs::cmp::PartialEqSpecImpl;

verus! {

/// The token by which the store knows one guest.
#[derive(Clone, Copy, Debug, PartialEq, Eq, Hash, Structural)]
pub struct Ident(pub u128);

impl Ident {
    /// Whether the number has the form of one drawn at random: the four bits
    /// of the version say 4, and the two bits of the variant say 1 and 0.
    pub open spec fn drawn(self) -> bool {
        self.0 & 0x0000_0000_0000_F000_C000_0000_0000_0000u128
            == 0x0000_0000_0000_4000_8000_0000_0000_0000u128
    }
}

/// The number that stands for a freshly drawn identifier.
///
/// Calls `uuid::Uuid::new_v4` and hands out its 128 bits. All but six of them
/// are drawn at random, and of those nothing is claimed; the six are the
/// version and the variant, which `new_v4` sets as the contract says. The call
/// fails where the system has no random bytes to give.
#[verifier::external_body]
fn random_bits() -> (bits: u128)
    ensures
        Ident(bits).drawn(),
{
    uuid::Uuid::new_v4().as_u128()
}

impl Ident {
    /// Draws a fresh identifier.
    pub fn mint() -> (r: Ident)
        ensures
            r.drawn(),
    {
        Ident(random_bits())
    }
}

impl Default for Ident {
    fn default() -> (r: Ident)
        ensures
            r.drawn(),
    {
        Ident::mint()
    }
}

/// What `str::trim` returns for a text.
pub uninterp spec fn trimmed(text: Seq<char>) -> Seq<char>;

/// What `str::to_lowercase` returns for a text.
pub uninterp spec fn lowercased(text: Seq<char>) -> Seq<char>;

/// The text without the white space at its two ends.
///
/// Calls `str::trim`; the contract only gives its result a name.
#[verifier::external_body]
fn trim(text: &str) -> (r: &str)
    ensures
        r@ == trimmed(text@),
{
    text.trim()
}

/// The text with every letter in lower case.
///
/// Calls `str::to_lowercase`; the contract only gives its result a name.
#[verifier::external_body]
fn to_lowercase(text: &str) -> (r: String)
    ensures
        r@ == lowercased(text@),
{
    text.to_lowercase()
}

/// The form of a name by which guests are matched: trimmed, then in lower case.
pub open spec fn sanitized(text: Seq<char>) -> Seq<char> {
    lowercased(trimmed(text))
}

/// Brings a name into the form by which guests are matched.
pub fn sanitize(input: &str) -> (r: String)
    ensures
        r@ == sanitized(input@),
{
    to_lowercase(trim(input))
}

/// The texts that a list of strings holds.
pub open spec fn texts(parts: Seq<&str>) -> Seq<Seq<char>> {
    Seq::new(parts.len(), |i: int| parts[i]@)
}

/// The parts in their order, with the separator between each two of them.
pub open spec fn joined(parts: Seq<Seq<char>>, sep: Seq<char>) -> Seq<char>
    decreases parts.len(),
{
    if parts.len() == 0 {
        Seq::empty()
    } else if parts.len() == 1 {
        parts[0]
    } else {
        joined(parts.drop_last(), sep) + sep + parts.last()
    }
}

/// The parts in one string, with the separator between each two of them.
///
/// Calls `itertools::Itertools::join` on the parts in their order; each part
/// is written as it stands.
#[verifier::external_body]
fn join(parts: &Vec<&str>, sep: &str) -> (r: String)
    ensures
        r@ == joined(texts(parts@), sep@),
{
    parts.iter().join(sep)
}

/// The pair of matching forms of a first and a last name.
pub type NameKey = (Seq<char>, Seq<char>);

/// A person: the identifier, and the name as it was written.
#[derive(Debug)]
pub struct User {
    pub ident: Ident,
    pub first: String,
    pub last: String,
}

/// A person as a mathematical value.
pub struct UserView {
    pub ident: Ident,
    pub first: Seq<char>,
    pub last: Seq<char>,
}

impl View for User {
    type V = UserView;

    open spec fn view(&self) -> UserView {
        UserView { ident: self.ident, first: self.first@, last: self.last@ }
    }
}

impl UserView {
    /// The key under which the person is found by name.
    pub open spec fn key(self) -> NameKey {
        (sanitized(self.first), sanitized(self.last))
    }

    /// The full name: the first and the last name as they were written, with a
    /// blank between them where neither is empty.
    pub open spec fn name(self) -> Seq<char> {
        if self.first.len() == 0 {
            self.last
        } else if self.last.len() == 0 {
            self.first
        } else {
            self.first + " "@ + self.last
        }
    }

    /// Two persons are the same guest where their names match.
    pub open spec fn same_guest(self, other: UserView) -> bool {
        self.key() == other.key()
    }
}

impl Default for User {
    /// A person without a name, with a freshly drawn identifier.
    fn default() -> (r: User)
        ensures
            r@.first == Seq::<char>::empty(),
            r@.last == Seq::<char>::empty(),
            r@.ident.drawn(),
    {
        User { ident: Ident::mint(), first: String::new(), last: String::new() }
    }
}

impl Clone for User {
    fn clone(&self) -> (r: User)
        ensures
            r@ == self@,
    {
        User { ident: self.ident, first: self.first.clone(), last: self.last.clone() }
    }
}

impl User {
    /// A person of this name, with a freshly drawn identifier.
    pub fn new(first: String, last: String) -> (r: User)
        ensures
            r@.first == first@,
            r@.last == last@,
            r@.ident.drawn(),
    {
        User { ident: Ident::mint(), first, last }
    }

    /// The first name as it was written.
    pub fn first(&self) -> (r: &str)
        ensures
            r@ == self@.first,
    {
        self.first.as_str()
    }

    /// The last name as it was written.
    pub fn last(&self) -> (r: &str)
        ensures
            r@ == self@.last,
    {
        self.last.as_str()
    }

    /// The key under which the person is found by name: the matching forms of
    /// the first and of the last name.
    pub fn key(&self) -> (r: (String, String))
        ensures
            (r.0@, r.1@) == self@.key(),
    {
        (sanitize(self.first.as_str()), sanitize(self.last.as_str()))
    }

    /// The full name: the first and the last name as they were written, with a
    /// blank between them where neither is empty.
    pub fn name(&self) -> (r: String)
        ensures
            r@ == self@.name(),
    {
        let first = self.first.as_str();
        let last = self.last.as_str();
        let mut parts: Vec<&str> = Vec::new();
        if !first.is_empty() {
            parts.push(first);
        }
        if !last.is_empty() {
            parts.push(last);
        }
        proof {
            reveal_with_fuel(joined, 3);
            let t = texts(parts@);
            if first@.len() != 0 && last@.len() != 0 {
                assert(t.drop_last() =~= seq![first@]);
                assert(t.last() == last@);
            } else if first@.len() != 0 {
                assert(t[0] == first@);
            } else if last@.len() != 0 {
                assert(t[0] == last@);
            }
        }
        join(&parts, " ")
    }

    /// The name by which a session knows the person: the full name.
    pub fn get_id(&self) -> (r: String)
        ensures
            r@ == self@.name(),
    {
        self.name()
    }
}

impl PartialEq for User {
    /// Whether the two persons are the same guest: their names match, whatever
    /// their capitals and the blanks around them.
    fn eq(&self, other: &User) -> (r: bool) {
        let mine = self.key();
        let theirs = other.key();
        mine.0 == theirs.0 && mine.1 == theirs.1
    }
}

impl PartialEqSpecImpl for User {
    open spec fn obeys_eq_spec() -> bool {
        true
    }

    open spec fn eq_spec(&self, other: &User) -> bool {
        self@.same_guest(other@)
    }
}

impl Eq for User {

}

} // verus!
