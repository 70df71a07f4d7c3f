//! The address-book tool driven by raw `--flag value` arguments.
//!
//! The tool reads the whole book, applies one command, and writes the book
//! back; reading, decoding and writing the persisted bytes belong to the
//! unverified runtime, which hands this module the decoded book and takes
//! back the updated one. `add` stores or extends a person or a company
//! under a name — the current wall-clock time, taken at the edge, is passed
//! in as the new `last_updated` stamp — and `list` hands the entries out
//! sorted by name.

use crate::book::{company_added, company_insertable, person_added, person_insertable,
    AddressBook, Company, CompanyPhoneNumber, Contact, EmailAddress, Kind, Person, PhoneNumber};
use crate::text::{str_eq, str_lt};
use crate::timestamp::Timestamp;
use vstd::prelude::*;

verus! {

/// One parsed command line: the command word and the `--flag value` pairs
/// after it, in order.
#[derive(Debug)]
pub struct Config {
    pub command: String,
    pub params: Vec<(String, String)>,
}

/// Whether an argument has the `--` flag prefix.
pub open spec fn starts_dashdash(s: Seq<char>) -> bool {
    s.len() >= 2 && s[0] == '-' && s[1] == '-'
}

/// Whether the arguments after the command word form `--flag value` pairs.
pub open spec fn params_wellformed(rest: Seq<String>) -> bool
    decreases rest.len(),
{
    if rest.len() == 0 {
        true
    } else {
        starts_dashdash(rest[0]@) && rest.len() >= 2 && params_wellformed(rest.skip(2))
    }
}

/// Whether the first violation among the pairs is a flag without a value
/// (as opposed to an argument that is no flag at all).
pub open spec fn fails_missing_value(rest: Seq<String>) -> bool
    decreases rest.len(),
{
    if rest.len() == 0 {
        false
    } else if !starts_dashdash(rest[0]@) {
        false
    } else if rest.len() == 1 {
        true
    } else {
        fails_missing_value(rest.skip(2))
    }
}

/// The value stored for flag `k`: the last occurrence wins, as it would in
/// a map filled front to back.
pub open spec fn spec_param(params: Seq<(String, String)>, k: Seq<char>) -> Option<Seq<char>>
    decreases params.len(),
{
    if params.len() == 0 {
        None
    } else if params.last().0@ == k {
        Some(params.last().1@)
    } else {
        spec_param(params.drop_last(), k)
    }
}

/// The value of flag `k`, or the literal text `None` — the default the
/// tool substitutes for an absent optional flag.
pub open spec fn param_or_none(c: Config, k: Seq<char>) -> Seq<char> {
    match spec_param(c.params@, k) {
        Some(v) => v,
        None => "None"@,
    }
}

/// Whether an argument starts with the `--` flag prefix.
fn starts_with_dashdash(s: &str) -> (r: bool)
    ensures
        r == starts_dashdash(s@),
{
    if s.unicode_len() < 2 {
        return false;
    }
    let c0 = s.get_char(0);
    let c1 = s.get_char(1);
    c0 == '-' && c1 == '-'
}

impl Config {
    /// Parses a command line: the first argument (the program name) is
    /// skipped, the second is the command, and the rest must be
    /// `--flag value` pairs. Each failure names what was missing or
    /// malformed.
    pub fn build(args: &Vec<String>) -> (r: Result<Config, &'static str>)
        ensures
            args@.len() < 2 ==> (r matches Err(e) && e@ == "Command not found"@),
            args@.len() >= 2 && params_wellformed(args@.skip(2)) ==> (r matches Ok(c) && {
                &&& c.command@ == args@[1]@
                &&& c.params@.len() * 2 == args@.len() - 2
                &&& forall|j: int|
                    0 <= j < c.params@.len() ==> ((#[trigger] c.params@[j]).0@ == args@[2 + 2 * j]@
                        && c.params@[j].1@ == args@[3 + 2 * j]@)
            }),
            args@.len() >= 2 && !params_wellformed(args@.skip(2)) ==> (r matches Err(e) && e@ == (
            if fails_missing_value(args@.skip(2)) {
                "Missing parameter after --arg"@
            } else {
                "Expected arg starts with --"@
            })),
    {
        let n = args.len();
        if n < 2 {
            return Err("Command not found");
        }
        let command = args[1].clone();
        let mut params: Vec<(String, String)> = Vec::new();
        let mut i: usize = 2;
        loop
            invariant
                2 <= i <= n,
                n == args@.len(),
                params_wellformed(args@.skip(2)) == params_wellformed(args@.skip(i as int)),
                fails_missing_value(args@.skip(2)) == fails_missing_value(args@.skip(i as int)),
                params@.len() * 2 == i - 2,
                forall|j: int|
                    0 <= j < params@.len() ==> ((#[trigger] params@[j]).0@ == args@[2 + 2 * j]@
                        && params@[j].1@ == args@[3 + 2 * j]@),
            ensures
                i == n,
                params_wellformed(args@.skip(2)),
                params@.len() * 2 == i - 2,
                forall|j: int|
                    0 <= j < params@.len() ==> ((#[trigger] params@[j]).0@ == args@[2 + 2 * j]@
                        && params@[j].1@ == args@[3 + 2 * j]@),
            decreases n - i,
        {
            if i >= n {
                proof {
                    assert(args@.skip(i as int).len() == 0);
                }
                break ;
            }
            proof {
                assert(args@.skip(i as int)[0] == args@[i as int]);
                assert(args@.skip(i as int).len() == n - i);
            }
            if !starts_with_dashdash(args[i].as_str()) {
                return Err("Expected arg starts with --");
            }
            if i + 1 >= n {
                return Err("Missing parameter after --arg");
            }
            proof {
                assert(args@.skip(i as int)[1] == args@[i + 1]);
                assert(args@.skip(i as int).skip(2) =~= args@.skip(i + 2));
            }
            params.push((args[i].clone(), args[i + 1].clone()));
            i = i + 2;
        }
        Ok(Config { command, params })
    }

    /// The value given for flag `k`, if any; a repeated flag keeps its last
    /// value.
    pub fn param<'a>(&'a self, k: &str) -> (r: Option<&'a String>)
        ensures
            match r {
                Some(v) => spec_param(self.params@, k@) == Some(v@),
                None => spec_param(self.params@, k@) is None,
            },
    {
        let mut i = self.params.len();
        proof {
            assert(self.params@.take(i as int) =~= self.params@);
        }
        while i > 0
            invariant
                i <= self.params@.len(),
                spec_param(self.params@, k@) == spec_param(self.params@.take(i as int), k@),
            decreases i,
        {
            i = i - 1;
            proof {
                assert(self.params@.take(i + 1).drop_last() =~= self.params@.take(i as int));
                assert(self.params@.take(i + 1).last() == self.params@[i as int]);
            }
            if str_eq(self.params[i].0.as_str(), k) {
                return Some(&self.params[i].1);
            }
        }
        proof {
            assert(self.params@.take(0).len() == 0);
        }
        None
    }
}

/// The numeric code of a phone-type word: unknown words code to zero.
pub open spec fn spec_phone_type(s: Seq<char>) -> i32 {
    if s == "home"@ {
        2
    } else if s == "mobile"@ {
        1
    } else if s == "work"@ {
        3
    } else {
        0
    }
}

/// Codes a phone-type word for storage.
pub fn str_to_phone_type(s: &str) -> (r: i32)
    ensures
        r == spec_phone_type(s@),
{
    if str_eq(s, "home") {
        2
    } else if str_eq(s, "mobile") {
        1
    } else if str_eq(s, "work") {
        3
    } else {
        0
    }
}

/// The numeric code of a department word: unknown words code to zero.
pub open spec fn spec_department(s: Seq<char>) -> i32 {
    if s == "hr"@ {
        1
    } else if s == "cs"@ {
        2
    } else {
        0
    }
}

/// Codes a department word for storage.
pub fn str_to_department(s: &str) -> (r: i32)
    ensures
        r == spec_department(s@),
{
    if str_eq(s, "hr") {
        1
    } else if str_eq(s, "cs") {
        2
    } else {
        0
    }
}

/// Stores or extends the person entry under `name`.
pub fn add_person(
    book: &mut AddressBook,
    name: &str,
    email: &str,
    phone: &str,
    phone_type: &str,
    now: Timestamp,
)
    requires
        old(book).wf(),
        person_insertable(*old(book), name@),
    ensures
        person_added(
            *old(book),
            *final(book),
            name@,
            email@,
            phone@,
            spec_phone_type(phone_type@),
            now,
        ),
{
    let prev = book.remove(name);
    let mut person = match prev {
        Some(c) => match c.kind {
            Some(Kind::Person(p)) => p,
            _ => {
                proof {
                    assert(false);
                }
                Person { email: String::new(), phones: Vec::new() }
            },
        },
        None => Person { email: String::new(), phones: Vec::new() },
    };
    person.email = String::from_str(email);
    let nb = PhoneNumber { number: String::from_str(phone), phone_type: str_to_phone_type(
        phone_type,
    ) };
    person.phones.push(nb);
    let contact = Contact { last_updated: Some(now), kind: Some(Kind::Person(person)) };
    book.insert(String::from_str(name), contact);
}

/// Stores or extends the company entry under `name`.
pub fn add_company(
    book: &mut AddressBook,
    name: &str,
    email: &str,
    email_dep: &str,
    phone: &str,
    phone_dep: &str,
    now: Timestamp,
)
    requires
        old(book).wf(),
        company_insertable(*old(book), name@),
    ensures
        company_added(
            *old(book),
            *final(book),
            name@,
            email@,
            spec_department(email_dep@),
            phone@,
            spec_department(phone_dep@),
            now,
        ),
{
    let prev = book.remove(name);
    let mut company = match prev {
        Some(c) => match c.kind {
            Some(Kind::Company(co)) => co,
            _ => {
                proof {
                    assert(false);
                }
                Company { emails: Vec::new(), phones: Vec::new() }
            },
        },
        None => Company { emails: Vec::new(), phones: Vec::new() },
    };
    let addr = EmailAddress { email: String::from_str(email), department: str_to_department(
        email_dep,
    ) };
    company.emails.push(addr);
    let nb = CompanyPhoneNumber { number: String::from_str(phone), department: str_to_department(
        phone_dep,
    ) };
    company.phones.push(nb);
    let contact = Contact { last_updated: Some(now), kind: Some(Kind::Company(company)) };
    book.insert(String::from_str(name), contact);
}

/// Hands the entries out for printing, sorted by name.
pub fn list_contacts(book: AddressBook) -> (r: Vec<(String, Contact)>)
    requires
        book.wf(),
    ensures
        r@ == book.entries(),
        forall|i: int, j: int|
            0 <= i < j < r@.len() ==> str_lt(#[trigger] r@[i].0@, #[trigger] r@[j].0@),
{
    let ghost b0 = book;
    let r = book.into_entries();
    proof {
        assert forall|i: int, j: int| 0 <= i < j < r@.len() implies str_lt(
            #[trigger] r@[i].0@,
            #[trigger] r@[j].0@,
        ) by {
            assert(str_lt(b0.key_at(i), b0.key_at(j)));
        }
    }
    r
}

/// What one run of the tool produced: an updated book to persist, or the
/// listing to print.
pub enum RunEffect {
    Updated(AddressBook),
    Listing(Vec<(String, Contact)>),
}

/// Whether the command is `add`.
pub open spec fn is_add(c: Config) -> bool {
    c.command@ == "add"@
}

/// Whether the command is `list`.
pub open spec fn is_list(c: Config) -> bool {
    c.command@ == "list"@
}

/// The `--kind` value of an `add` command.
pub open spec fn kind_of(c: Config) -> Seq<char> {
    spec_param(c.params@, "--kind"@)->Some_0
}

/// The `--name` value of an `add` command.
pub open spec fn name_of(c: Config) -> Seq<char> {
    spec_param(c.params@, "--name"@)->Some_0
}

/// Whether the `--kind` value names a person.
pub open spec fn kind_is_person(c: Config) -> bool {
    kind_of(c) == "per"@ || kind_of(c) == "person"@
}

/// Whether the `--kind` value names a company.
pub open spec fn kind_is_company(c: Config) -> bool {
    kind_of(c) == "cie"@ || kind_of(c) == "company"@
}

/// Runs one command against the book read from storage. `add` yields the
/// updated book to write back — an `add` with an unknown `--kind` writes
/// nothing — and `list` yields the sorted entries; any other command is
/// refused.
pub fn run(config: Config, book: AddressBook, now: Timestamp) -> (r: Result<
    RunEffect,
    &'static str,
>)
    requires
        book.wf(),
        is_add(config) ==> spec_param(config.params@, "--kind"@) is Some && spec_param(
            config.params@,
            "--name"@,
        ) is Some,
        is_add(config) && kind_is_person(config) ==> person_insertable(book, name_of(config)),
        is_add(config) && kind_is_company(config) ==> company_insertable(book, name_of(config)),
    ensures
        !is_add(config) && !is_list(config) ==> (r matches Err(e) && e@ == "Command not found"@),
        is_list(config) ==> (r matches Ok(RunEffect::Listing(l)) && l@ == book.entries()),
        is_add(config) ==> (r matches Ok(RunEffect::Updated(b)) && {
            &&& kind_is_person(config) ==> person_added(
                book,
                b,
                name_of(config),
                param_or_none(config, "--email"@),
                param_or_none(config, "--phone"@),
                spec_phone_type(param_or_none(config, "--type"@)),
                now,
            )
            &&& kind_is_company(config) ==> company_added(
                book,
                b,
                name_of(config),
                param_or_none(config, "--email"@),
                spec_department(param_or_none(config, "--dep"@)),
                param_or_none(config, "--phone"@),
                spec_department(param_or_none(config, "--type"@)),
                now,
            )
            &&& !kind_is_person(config) && !kind_is_company(config) ==> b == book
        }),
{
    proof {
        reveal_strlit("add");
        reveal_strlit("list");
        reveal_strlit("per");
        reveal_strlit("person");
        reveal_strlit("cie");
        reveal_strlit("company");
        assert("add"@.len() == 3 && "list"@.len() == 4);
        assert("per"@[0] == 'p' && "person"@[0] == 'p');
        assert("cie"@[0] == 'c' && "company"@[0] == 'c');
        assert("add"@ != "list"@);
        assert("per"@ != "cie"@ && "per"@ != "company"@);
        assert("person"@ != "cie"@ && "person"@ != "company"@);
    }
    if str_eq(config.command.as_str(), "add") {
        let kind = match config.param("--kind") {
            Some(v) => v,
            None => {
                proof {
                    assert(false);
                }
                return Err("Command not found");
            },
        };
        let name = match config.param("--name") {
            Some(v) => v,
            None => {
                proof {
                    assert(false);
                }
                return Err("Command not found");
            },
        };
        let email = match config.param("--email") {
            Some(v) => v.as_str(),
            None => "None",
        };
        let phone = match config.param("--phone") {
            Some(v) => v.as_str(),
            None => "None",
        };
        let ptype = match config.param("--type") {
            Some(v) => v.as_str(),
            None => "None",
        };
        let mut b = book;
        if str_eq(kind.as_str(), "per") || str_eq(kind.as_str(), "person") {
            add_person(&mut b, name.as_str(), email, phone, ptype, now);
            Ok(RunEffect::Updated(b))
        } else if str_eq(kind.as_str(), "cie") || str_eq(kind.as_str(), "company") {
            let dep = match config.param("--dep") {
                Some(v) => v.as_str(),
                None => "None",
            };
            add_company(&mut b, name.as_str(), email, dep, phone, ptype, now);
            Ok(RunEffect::Updated(b))
        } else {
            Ok(RunEffect::Updated(b))
        }
    } else if str_eq(config.command.as_str(), "list") {
        Ok(RunEffect::Listing(list_contacts(book)))
    } else {
        Err("Command not found")
    }
}

} // verus!
