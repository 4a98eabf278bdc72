//! A user record: a name, an age, a set of tags and an activation flag.

use crate::decimal::decimal;
use vstd::prelude::*;
use vstd::string::*;

verus! {

/// Whether no key occurs twice among the entries.
pub open spec fn distinct_keys(entries: Seq<(String, String)>) -> bool {
    forall|i: int, j: int|
        0 <= i < j < entries.len() ==> (#[trigger] entries[i]).0@ != (#[trigger] entries[j]).0@
}

/// The mapping that the entries make up, from each key to its value.
pub open spec fn entries_map(entries: Seq<(String, String)>) -> Map<Seq<char>, Seq<char>>
    decreases entries.len(),
{
    if entries.len() == 0 {
        Map::empty()
    } else {
        entries_map(entries.drop_last()).insert(entries.last().0@, entries.last().1@)
    }
}

/// What a user record holds.
#[verifier::ext_equal]
pub struct UserView {
    pub name: Seq<char>,
    pub age: u32,
    pub tags: Map<Seq<char>, Seq<char>>,
    pub active: bool,
}

impl UserView {
    /// A new record: active, and tagged with the role `user` and nothing else.
    pub open spec fn new(name: Seq<char>, age: u32) -> UserView {
        UserView { name, age, tags: map!["role"@ => "user"@], active: true }
    }

    /// The sentence that describes the record.
    pub open spec fn describe(self) -> Seq<char> {
        self.name + " is "@ + decimal(self.age as nat) + " years old"@
    }

    /// The record with its activation flag set to `status`.
    pub open spec fn set_active(self, status: bool) -> UserView {
        UserView { active: status, ..self }
    }
}

/// A user record. The tags are kept as entries of key and value, in which no
/// key occurs twice.
pub struct User {
    name: String,
    age: u32,
    tags: Vec<(String, String)>,
    active: bool,
}

impl View for User {
    type V = UserView;

    closed spec fn view(&self) -> UserView {
        UserView {
            name: self.name@,
            age: self.age,
            tags: entries_map(self.tags@),
            active: self.active,
        }
    }
}

impl User {
    #[verifier::type_invariant]
    spec fn well_formed(&self) -> bool {
        distinct_keys(self.tags@)
    }

    /// Makes the record of a user with the given name and age.
    pub fn new(name: &str, age: u32) -> (user: User)
        ensures
            user@ == UserView::new(name@, age),
    {
        let mut tags: Vec<(String, String)> = Vec::new();
        tags.push(("role".to_owned(), "user".to_owned()));
        let user = User { name: name.to_owned(), age, tags, active: true };
        proof {
            assert(user.tags@.drop_last() =~= Seq::empty());
            assert(entries_map(user.tags@.drop_last()) == Map::<Seq<char>, Seq<char>>::empty());
            assert(user@ =~= UserView::new(name@, age));
        }
        user
    }

    /// The sentence `<name> is <age> years old`.
    pub fn describe(&self) -> (text: String)
        ensures
            text@ == self@.describe(),
    {
        let mut text = self.name.clone();
        text.append(" is ");
        crate::decimal::append_decimal(&mut text, self.age);
        text.append(" years old");
        text
    }

    /// Sets the activation flag to `status` and leaves the rest as it is.
    pub fn set_active(&mut self, status: bool)
        ensures
            final(self)@ == old(self)@.set_active(status),
    {
        proof {
            use_type_invariant(&*self);
        }
        self.active = status;
    }

    /// Whether the user is active.
    pub fn is_active(&self) -> (active: bool)
        ensures
            active == self@.active,
    {
        self.active
    }

    /// The tags, as entries of key and value in no particular order.
    pub fn get_tags(&self) -> (tags: &Vec<(String, String)>)
        ensures
            distinct_keys(tags@),
            entries_map(tags@) == self@.tags,
    {
        proof {
            use_type_invariant(self);
        }
        &self.tags
    }
}

/// The description of a new record is the sentence made of its name and its
/// age: `<name> is <age> years old`, the age in decimal.
pub proof fn lemma_new_description(name: Seq<char>, age: u32)
    ensures
        UserView::new(name, age).describe() == name + " is "@ + decimal(age as nat)
            + " years old"@,
{
}

/// A new record has the tag `role`, which is `user`, and no other tag.
pub proof fn lemma_new_tags(name: Seq<char>, age: u32)
    ensures
        UserView::new(name, age).tags.dom() == set!["role"@],
        UserView::new(name, age).tags["role"@] == "user"@,
{
    assert(UserView::new(name, age).tags.dom() =~= set!["role"@]);
}

/// Setting the activation flag leaves it equal to the status given, whatever
/// it was before, and changes nothing else: the last status set is the one
/// that counts.
pub proof fn lemma_set_active(user: UserView, status: bool, earlier: bool)
    ensures
        user.set_active(status).active == status,
        user.set_active(status).name == user.name,
        user.set_active(status).age == user.age,
        user.set_active(status).tags == user.tags,
        user.set_active(earlier).set_active(status) == user.set_active(status),
{
}

/// With no key twice among the entries, the mapping holds each entry's value
/// under its key, and no key but those of the entries.
pub proof fn lemma_entries_map(entries: Seq<(String, String)>)
    requires
        distinct_keys(entries),
    ensures
        forall|i: int|
            0 <= i < entries.len() ==> entries_map(entries).contains_key(
                (#[trigger] entries[i]).0@,
            ) && entries_map(entries)[entries[i].0@] == entries[i].1@,
        forall|key: Seq<char>| #[trigger]
            entries_map(entries).contains_key(key) ==> exists|i: int|
                0 <= i < entries.len() && (#[trigger] entries[i]).0@ == key,
    decreases entries.len(),
{
    if entries.len() > 0 {
        let rest = entries.drop_last();
        assert forall|i: int, j: int| 0 <= i < j < rest.len() implies (#[trigger] rest[i]).0@ != (
        #[trigger] rest[j]).0@ by {
            assert(rest[i] == entries[i] && rest[j] == entries[j]);
        }
        lemma_entries_map(rest);
        assert forall|i: int| 0 <= i < entries.len() implies entries_map(entries).contains_key(
            (#[trigger] entries[i]).0@,
        ) && entries_map(entries)[entries[i].0@] == entries[i].1@ by {
            if i < rest.len() {
                assert(rest[i] == entries[i]);
                assert(entries[i].0@ != entries[entries.len() - 1].0@);
            }
        }
        assert forall|key: Seq<char>| #[trigger]
            entries_map(entries).contains_key(key) implies exists|i: int|
            0 <= i < entries.len() && (#[trigger] entries[i]).0@ == key by {
            if key == entries.last().0@ {
                assert(entries[entries.len() - 1].0@ == key);
            } else {
                assert(entries_map(rest).contains_key(key));
                let i = choose|i: int| 0 <= i < rest.len() && (#[trigger] rest[i]).0@ == key;
                assert(entries[i].0@ == key);
            }
        }
    }
}

} // verus!
