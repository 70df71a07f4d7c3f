//! The address book's data model: contacts keyed by name.
//!
//! Contacts, persons, companies and their phone numbers mirror the shapes
//! of the persisted records; the store itself keeps its entries sorted by
//! name, so listing needs no extra work and every name occurs at most once.
//! Reading and writing the persisted encoding is the unverified runtime's
//! work; this module owns the semantics of the store.

use crate::text::{str_eq, str_lt, str_lt_exec, lemma_str_lt_connected, lemma_str_lt_irreflexive,
    lemma_str_lt_transitive};
use crate::timestamp::Timestamp;
use vstd::prelude::*;

verus! {

/// A person's phone number and its kind code.
pub struct PhoneNumber {
    pub number: String,
    pub phone_type: i32,
}

/// A person: an email address and any number of phones.
pub struct Person {
    pub email: String,
    pub phones: Vec<PhoneNumber>,
}

/// A company email address and its department code.
pub struct EmailAddress {
    pub email: String,
    pub department: i32,
}

/// A company phone number and its department code.
pub struct CompanyPhoneNumber {
    pub number: String,
    pub department: i32,
}

/// A company: its email addresses and phone numbers by department.
pub struct Company {
    pub emails: Vec<EmailAddress>,
    pub phones: Vec<CompanyPhoneNumber>,
}

/// What a contact is: a person or a company.
pub enum Kind {
    Person(Person),
    Company(Company),
}

/// One directory entry: when it was last touched, and what it is.
pub struct Contact {
    pub last_updated: Option<Timestamp>,
    pub kind: Option<Kind>,
}

/// The directory: contacts keyed by name, kept sorted by name.
pub struct AddressBook {
    entries: Vec<(String, Contact)>,
}

impl AddressBook {
    /// The entries, in their stored (sorted) order.
    pub closed spec fn entries(&self) -> Seq<(String, Contact)> {
        self.entries@
    }

    /// The number of entries.
    pub open spec fn len(&self) -> nat {
        self.entries().len()
    }

    /// The name of the entry at `i`.
    pub open spec fn key_at(&self, i: int) -> Seq<char> {
        self.entries()[i].0@
    }

    /// The store's invariant: names strictly ascending, hence unique.
    pub open spec fn wf(&self) -> bool {
        forall|i: int, j: int|
            0 <= i < j < self.len() ==> str_lt(#[trigger] self.key_at(i), #[trigger] self.key_at(j))
    }

    /// Whether some entry is named `k`.
    pub open spec fn spec_contains(&self, k: Seq<char>) -> bool {
        exists|i: int| 0 <= i < self.len() && #[trigger] self.key_at(i) == k
    }

    /// The index of the entry named `k`, when there is one.
    pub open spec fn index_of(&self, k: Seq<char>) -> int {
        choose|i: int| 0 <= i < self.len() && #[trigger] self.key_at(i) == k
    }

    /// The contact stored under `k`, when there is one.
    pub open spec fn spec_get(&self, k: Seq<char>) -> Contact {
        self.entries()[self.index_of(k)].1
    }

    /// In a well-formed book a name determines its index.
    pub proof fn lemma_key_unique(&self, i: int, j: int)
        requires
            self.wf(),
            0 <= i < self.len(),
            0 <= j < self.len(),
            self.key_at(i) == self.key_at(j),
        ensures
            i == j,
    {
        if i < j || j < i {
            lemma_str_lt_irreflexive(self.key_at(i));
        }
    }

    /// An empty book.
    pub fn new() -> (b: AddressBook)
        ensures
            b.wf(),
            b.len() == 0,
    {
        AddressBook { entries: Vec::new() }
    }

    /// The index of the entry named `name`, if any.
    fn find(&self, name: &str) -> (r: Option<usize>)
        ensures
            match r {
                Some(i) => i < self.len() && self.key_at(i as int) == name@,
                None => !self.spec_contains(name@),
            },
    {
        let n = self.entries.len();
        let mut i: usize = 0;
        while i < n
            invariant
                n == self.len(),
                i <= n,
                forall|j: int| 0 <= j < i ==> #[trigger] self.key_at(j) != name@,
            decreases n - i,
        {
            if str_eq(self.entries[i].0.as_str(), name) {
                return Some(i);
            }
            i = i + 1;
        }
        None
    }

    /// Whether the book has an entry named `name`.
    pub fn contains_key(&self, name: &str) -> (r: bool)
        ensures
            r == self.spec_contains(name@),
    {
        match self.find(name) {
            Some(_) => true,
            None => false,
        }
    }

    /// The contact named `name`, if any.
    pub fn get(&self, name: &str) -> (r: Option<&Contact>)
        requires
            self.wf(),
        ensures
            match r {
                Some(c) => self.spec_contains(name@) && *c == self.spec_get(name@),
                None => !self.spec_contains(name@),
            },
    {
        match self.find(name) {
            Some(i) => {
                proof {
                    self.lemma_key_unique(i as int, self.index_of(name@));
                }
                Some(&self.entries[i].1)
            },
            None => None,
        }
    }

    /// Removes and returns the contact named `name`, if any; every other
    /// entry is untouched.
    pub fn remove(&mut self, name: &str) -> (r: Option<Contact>)
        requires
            old(self).wf(),
        ensures
            final(self).wf(),
            !final(self).spec_contains(name@),
            r is Some <==> old(self).spec_contains(name@),
            r is Some ==> r->Some_0 == old(self).spec_get(name@),
            forall|k: Seq<char>|
                k != name@ ==> (final(self).spec_contains(k) == old(self).spec_contains(k)),
            forall|k: Seq<char>|
                k != name@ && old(self).spec_contains(k) ==> final(self).spec_get(k) == old(
                    self,
                ).spec_get(k),
            final(self).len() == old(self).len() - (if old(self).spec_contains(name@) {
                1int
            } else {
                0int
            }),
    {
        match self.find(name) {
            Some(i) => {
                let ghost pre = *self;
                let (_n, c) = self.entries.remove(i);
                proof {
                    pre.lemma_key_unique(i as int, pre.index_of(name@));
                    self.lemma_after_remove(pre, i as int);
                    assert(!self.spec_contains(name@)) by {
                        if self.spec_contains(name@) {
                            let j = self.index_of(name@);
                            let oj = if j < i as int {
                                j
                            } else {
                                j + 1
                            };
                            assert(pre.key_at(oj) == name@);
                            pre.lemma_key_unique(oj, i as int);
                        }
                    }
                }
                Some(c)
            },
            None => {
                proof {
                    assert(final(self).len() == old(self).len());
                }
                None
            },
        }
    }

    /// Relates lookups before and after removing the entry at `i`.
    proof fn lemma_after_remove(&self, pre: AddressBook, i: int)
        requires
            pre.wf(),
            0 <= i < pre.len(),
            self.entries() == pre.entries().remove(i),
        ensures
            self.wf(),
            forall|k: Seq<char>|
                k != pre.key_at(i) ==> (self.spec_contains(k) == pre.spec_contains(k)),
            forall|k: Seq<char>|
                k != pre.key_at(i) && pre.spec_contains(k) ==> self.spec_get(k) == pre.spec_get(k),
            self.len() == pre.len() - 1,
    {
        assert forall|a: int, b: int| 0 <= a < b < self.len() implies str_lt(
            #[trigger] self.key_at(a),
            #[trigger] self.key_at(b),
        ) by {
            let oa = if a < i {
                a
            } else {
                a + 1
            };
            let ob = if b < i {
                b
            } else {
                b + 1
            };
            assert(self.key_at(a) == pre.key_at(oa));
            assert(self.key_at(b) == pre.key_at(ob));
        }
        assert forall|k: Seq<char>| k != pre.key_at(i) implies (self.spec_contains(k)
            == pre.spec_contains(k)) by {
            if self.spec_contains(k) {
                let j = self.index_of(k);
                let oj = if j < i {
                    j
                } else {
                    j + 1
                };
                assert(pre.key_at(oj) == k);
            }
            if pre.spec_contains(k) {
                let j = pre.index_of(k);
                assert(j != i) by {
                    if j == i {
                        pre.lemma_key_unique(j, i);
                    }
                }
                let nj = if j < i {
                    j
                } else {
                    j - 1
                };
                assert(self.key_at(nj) == k);
            }
        }
        assert forall|k: Seq<char>|
            k != pre.key_at(i) && pre.spec_contains(k) implies self.spec_get(k) == pre.spec_get(
            k,
        ) by {
            let j = self.index_of(k);
            let oj = if j < i {
                j
            } else {
                j + 1
            };
            assert(pre.key_at(oj) == k);
            pre.lemma_key_unique(oj, pre.index_of(k));
        }
    }

    /// Stores `contact` under `name`, replacing any existing entry of that
    /// name and keeping the book sorted; every other entry is untouched.
    pub fn insert(&mut self, name: String, contact: Contact)
        requires
            old(self).wf(),
        ensures
            final(self).wf(),
            final(self).spec_contains(name@),
            final(self).spec_get(name@) == contact,
            forall|k: Seq<char>|
                k != name@ ==> (final(self).spec_contains(k) == old(self).spec_contains(k)),
            forall|k: Seq<char>|
                k != name@ && old(self).spec_contains(k) ==> final(self).spec_get(k) == old(
                    self,
                ).spec_get(k),
            final(self).len() == old(self).len() + (if old(self).spec_contains(name@) {
                0int
            } else {
                1int
            }),
    {
        let ghost pre = *self;
        let n = self.entries.len();
        let mut i: usize = 0;
        loop
            invariant
                *self == pre,
                pre.wf(),
                n == pre.len(),
                i <= n,
                forall|j: int| 0 <= j < i ==> str_lt(#[trigger] pre.key_at(j), name@),
            ensures
                *self == pre,
                i <= n,
                forall|j: int| 0 <= j < i ==> str_lt(#[trigger] pre.key_at(j), name@),
                i < n ==> !str_lt(pre.key_at(i as int), name@),
            decreases n - i,
        {
            if i >= n {
                break ;
            }
            if !str_lt_exec(self.entries[i].0.as_str(), name.as_str()) {
                break ;
            }
            i = i + 1;
        }
        let replaces = i < n && str_eq(self.entries[i].0.as_str(), name.as_str());
        if replaces {
            proof {
                assert(pre.key_at(i as int) == name@);
                assert(pre.spec_contains(name@));
            }
            self.entries[i] = (name, contact);
            proof {
                self.lemma_after_replace(pre, i as int);
            }
        } else {
            proof {
                assert(!pre.spec_contains(name@)) by {
                    if pre.spec_contains(name@) {
                        let j = pre.index_of(name@);
                        lemma_str_lt_irreflexive(name@);
                        if i < n && j >= i {
                            lemma_str_lt_connected(pre.key_at(i as int), name@);
                            if j > i {
                                lemma_str_lt_transitive(
                                    name@,
                                    pre.key_at(i as int),
                                    pre.key_at(j),
                                );
                            }
                        }
                    }
                }
            }
            proof {
                if i < n {
                    assert(pre.key_at(i as int) != name@);
                    lemma_str_lt_connected(pre.key_at(i as int), name@);
                }
                assert forall|j: int| i <= j < pre.len() implies str_lt(
                    name@,
                    #[trigger] pre.key_at(j),
                ) by {
                    if j > i {
                        lemma_str_lt_transitive(name@, pre.key_at(i as int), pre.key_at(j));
                    }
                }
            }
            self.entries.insert(i, (name, contact));
            proof {
                self.lemma_after_insert(pre, i as int);
            }
        }
    }

    /// Relates lookups before and after replacing the entry at `i` by one
    /// with the same name.
    proof fn lemma_after_replace(&self, pre: AddressBook, i: int)
        requires
            pre.wf(),
            0 <= i < pre.len(),
            self.entries() == pre.entries().update(i, self.entries()[i]),
            self.key_at(i) == pre.key_at(i),
        ensures
            self.wf(),
            self.spec_contains(pre.key_at(i)),
            self.spec_get(pre.key_at(i)) == self.entries()[i].1,
            forall|k: Seq<char>|
                k != pre.key_at(i) ==> (self.spec_contains(k) == pre.spec_contains(k)),
            forall|k: Seq<char>|
                k != pre.key_at(i) && pre.spec_contains(k) ==> self.spec_get(k) == pre.spec_get(k),
            self.len() == pre.len(),
    {
        let key = pre.key_at(i);
        assert forall|a: int, b: int| 0 <= a < b < self.len() implies str_lt(
            #[trigger] self.key_at(a),
            #[trigger] self.key_at(b),
        ) by {
            assert(self.key_at(a) == pre.key_at(a));
            assert(self.key_at(b) == pre.key_at(b));
        }
        assert(self.key_at(i) == key);
        self.lemma_key_unique(i, self.index_of(key));
        assert forall|k: Seq<char>| k != key implies (self.spec_contains(k) == pre.spec_contains(
            k,
        )) by {
            if self.spec_contains(k) {
                let j = self.index_of(k);
                assert(pre.key_at(j) == k);
            }
            if pre.spec_contains(k) {
                let j = pre.index_of(k);
                assert(self.key_at(j) == k);
            }
        }
        assert forall|k: Seq<char>| k != key && pre.spec_contains(k) implies self.spec_get(k)
            == pre.spec_get(k) by {
            let j = self.index_of(k);
            assert(self.key_at(j) == k);
            assert(j != i);
            assert(pre.key_at(j) == k);
            pre.lemma_key_unique(j, pre.index_of(k));
        }
    }

    /// Relates lookups before and after inserting a fresh name at its
    /// sorted position `i`.
    proof fn lemma_after_insert(&self, pre: AddressBook, i: int)
        requires
            pre.wf(),
            0 <= i <= pre.len(),
            self.entries() == pre.entries().insert(i, self.entries()[i]),
            forall|j: int| 0 <= j < i ==> str_lt(#[trigger] pre.key_at(j), self.key_at(i)),
            forall|j: int| i <= j < pre.len() ==> str_lt(self.key_at(i), #[trigger] pre.key_at(j)),
        ensures
            self.wf(),
            self.spec_contains(self.key_at(i)),
            self.spec_get(self.key_at(i)) == self.entries()[i].1,
            forall|k: Seq<char>|
                k != self.key_at(i) ==> (self.spec_contains(k) == pre.spec_contains(k)),
            forall|k: Seq<char>|
                k != self.key_at(i) && pre.spec_contains(k) ==> self.spec_get(k) == pre.spec_get(
                    k,
                ),
            self.len() == pre.len() + 1,
    {
        let key = self.key_at(i);
        assert forall|a: int, b: int| 0 <= a < b < self.len() implies str_lt(
            #[trigger] self.key_at(a),
            #[trigger] self.key_at(b),
        ) by {
            if a < i && b > i {
                assert(self.key_at(a) == pre.key_at(a));
                assert(self.key_at(b) == pre.key_at(b - 1));
                lemma_str_lt_transitive(pre.key_at(a), key, pre.key_at(b - 1));
            } else if a == i && b > i {
                assert(self.key_at(b) == pre.key_at(b - 1));
            } else if a < i && b == i {
                assert(self.key_at(a) == pre.key_at(a));
            } else if b < i {
                assert(self.key_at(a) == pre.key_at(a));
                assert(self.key_at(b) == pre.key_at(b));
            } else {
                assert(a > i);
                assert(self.key_at(a) == pre.key_at(a - 1));
                assert(self.key_at(b) == pre.key_at(b - 1));
            }
        }
        self.lemma_key_unique(i, self.index_of(key));
        assert forall|k: Seq<char>| k != key implies (self.spec_contains(k) == pre.spec_contains(
            k,
        )) by {
            if self.spec_contains(k) {
                let j = self.index_of(k);
                assert(j != i);
                let oj = if j < i {
                    j
                } else {
                    j - 1
                };
                assert(pre.key_at(oj) == k);
            }
            if pre.spec_contains(k) {
                let j = pre.index_of(k);
                let nj = if j < i {
                    j
                } else {
                    j + 1
                };
                assert(self.key_at(nj) == k);
            }
        }
        assert forall|k: Seq<char>| k != key && pre.spec_contains(k) implies self.spec_get(k)
            == pre.spec_get(k) by {
            let j = self.index_of(k);
            assert(self.key_at(j) == k);
            assert(j != i);
            let oj = if j < i {
                j
            } else {
                j - 1
            };
            assert(pre.key_at(oj) == k);
            pre.lemma_key_unique(oj, pre.index_of(k));
        }
    }

    /// Hands out the entries, sorted by name.
    pub fn into_entries(self) -> (r: Vec<(String, Contact)>)
        ensures
            r@ == self.entries(),
    {
        self.entries
    }
}

/// Whether `name` can take a person entry: it is free, or already a person.
pub open spec fn person_insertable(b: AddressBook, name: Seq<char>) -> bool {
    b.spec_contains(name) ==> b.spec_get(name).kind matches Some(Kind::Person(_))
}

/// Whether `name` can take a company entry: it is free, or already a
/// company.
pub open spec fn company_insertable(b: AddressBook, name: Seq<char>) -> bool {
    b.spec_contains(name) ==> b.spec_get(name).kind matches Some(Kind::Company(_))
}

/// The phones already stored for person `name`, if any.
pub open spec fn prior_person_phones(b: AddressBook, name: Seq<char>) -> Seq<PhoneNumber> {
    if b.spec_contains(name) {
        b.spec_get(name).kind->Some_0->Person_0.phones@
    } else {
        Seq::empty()
    }
}

/// The emails already stored for company `name`, if any.
pub open spec fn prior_company_emails(b: AddressBook, name: Seq<char>) -> Seq<EmailAddress> {
    if b.spec_contains(name) {
        b.spec_get(name).kind->Some_0->Company_0.emails@
    } else {
        Seq::empty()
    }
}

/// The phones already stored for company `name`, if any.
pub open spec fn prior_company_phones(b: AddressBook, name: Seq<char>) -> Seq<CompanyPhoneNumber> {
    if b.spec_contains(name) {
        b.spec_get(name).kind->Some_0->Company_0.phones@
    } else {
        Seq::empty()
    }
}

/// What storing a person does: under `name` there is now a person with the
/// given email, the prior phones plus the new one, and a fresh stamp; no
/// other entry moves.
pub open spec fn person_added(
    pre: AddressBook,
    post: AddressBook,
    name: Seq<char>,
    email: Seq<char>,
    phone: Seq<char>,
    ptype: i32,
    now: Timestamp,
) -> bool {
    &&& post.wf()
    &&& post.spec_contains(name)
    &&& post.spec_get(name).last_updated == Some(now)
    &&& post.spec_get(name).kind matches Some(Kind::Person(p)) && {
        let prev = prior_person_phones(pre, name);
        &&& p.email@ == email
        &&& p.phones@.len() == prev.len() + 1
        &&& (forall|i: int| 0 <= i < prev.len() ==> p.phones@[i] == prev[i])
        &&& p.phones@.last().number@ == phone
        &&& p.phones@.last().phone_type == ptype
    }
    &&& forall|k: Seq<char>| k != name ==> (post.spec_contains(k) == pre.spec_contains(k))
    &&& forall|k: Seq<char>|
        k != name && pre.spec_contains(k) ==> post.spec_get(k) == pre.spec_get(k)
    &&& post.len() == pre.len() + (if pre.spec_contains(name) {
        0int
    } else {
        1int
    })
}

/// What storing a company does: under `name` there is now a company with
/// the prior emails and phones plus the new ones, and a fresh stamp; no
/// other entry moves.
pub open spec fn company_added(
    pre: AddressBook,
    post: AddressBook,
    name: Seq<char>,
    email: Seq<char>,
    email_dep: i32,
    phone: Seq<char>,
    phone_dep: i32,
    now: Timestamp,
) -> bool {
    &&& post.wf()
    &&& post.spec_contains(name)
    &&& post.spec_get(name).last_updated == Some(now)
    &&& post.spec_get(name).kind matches Some(Kind::Company(c)) && {
        let prev_emails = prior_company_emails(pre, name);
        let prev_phones = prior_company_phones(pre, name);
        &&& c.emails@.len() == prev_emails.len() + 1
        &&& (forall|i: int| 0 <= i < prev_emails.len() ==> c.emails@[i] == prev_emails[i])
        &&& c.emails@.last().email@ == email
        &&& c.emails@.last().department == email_dep
        &&& c.phones@.len() == prev_phones.len() + 1
        &&& (forall|i: int| 0 <= i < prev_phones.len() ==> c.phones@[i] == prev_phones[i])
        &&& c.phones@.last().number@ == phone
        &&& c.phones@.last().department == phone_dep
    }
    &&& forall|k: Seq<char>| k != name ==> (post.spec_contains(k) == pre.spec_contains(k))
    &&& forall|k: Seq<char>|
        k != name && pre.spec_contains(k) ==> post.spec_get(k) == pre.spec_get(k)
    &&& post.len() == pre.len() + (if pre.spec_contains(name) {
        0int
    } else {
        1int
    })
}

} // verus!
