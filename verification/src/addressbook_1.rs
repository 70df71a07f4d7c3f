//! The address-book tool driven by typed, subcommand-style arguments.
//!
//! Same store and commands as [`crate::addressbook`], but the command line
//! arrives already shaped: a subcommand with typed fields instead of raw
//! `--flag value` pairs. The unverified runtime parses the real command
//! line into these types, reads and writes the persisted book, and prints
//! the listing; this module applies the command. Its listing can mask
//! contact data, replacing every character of an email or phone number by
//! a star.

use crate::addressbook::RunEffect;
use crate::book::{company_added, company_insertable, person_added, person_insertable, AddressBook,
    Company, CompanyPhoneNumber, Contact, EmailAddress, Kind, Person, PhoneNumber};
use crate::text::{all_stars, stars, str_lt};
use crate::timestamp::Timestamp;
use vstd::prelude::*;

verus! {

/// The parsed command line: at most one subcommand.
pub struct Cli {
    pub command: Option<Commands>,
}

/// The two subcommands.
pub enum Commands {
    Add(AddArgs),
    List(ListArgs),
}

/// The kind of a phone number.
#[derive(Clone, Copy, Debug, Default)]
pub enum PhoneType {
    #[default]
    Undefined,
    Home,
    Mobile,
    Work,
}

/// The department behind a company email or phone.
#[derive(Clone, Copy, Debug, Default)]
pub enum DepType {
    #[default]
    Undefined,
    Hr,
    Cs,
}

/// What an `add` stores: a person or a company, under either spelling.
#[derive(Clone, Copy, Debug, Default)]
pub enum KindType {
    #[default]
    Per,
    Company,
    Cie,
    Person,
}

/// The arguments of `add`.
pub struct AddArgs {
    pub name: String,
    pub kind: KindType,
    pub email: Option<String>,
    pub dep: DepType,
    pub phone: Option<String>,
    pub phone_type: PhoneType,
}

/// The arguments of `list`.
pub struct ListArgs {
    pub redact: bool,
}

/// The numeric code a phone type is stored as.
pub open spec fn spec_phone_type(t: PhoneType) -> i32 {
    match t {
        PhoneType::Home => 2,
        PhoneType::Mobile => 1,
        PhoneType::Work => 3,
        PhoneType::Undefined => 0,
    }
}

/// Codes a phone type for storage.
pub fn str_to_phone_type(t: PhoneType) -> (r: i32)
    ensures
        r == spec_phone_type(t),
{
    match t {
        PhoneType::Home => 2,
        PhoneType::Mobile => 1,
        PhoneType::Work => 3,
        PhoneType::Undefined => 0,
    }
}

/// The numeric code a department is stored as.
pub open spec fn spec_department(t: DepType) -> i32 {
    match t {
        DepType::Hr => 1,
        DepType::Cs => 2,
        DepType::Undefined => 0,
    }
}

/// Codes a department for storage.
pub fn str_to_department(t: DepType) -> (r: i32)
    ensures
        r == spec_department(t),
{
    match t {
        DepType::Hr => 1,
        DepType::Cs => 2,
        DepType::Undefined => 0,
    }
}

/// The text of an optional argument; absent means empty.
pub open spec fn opt_str(o: Option<String>) -> Seq<char> {
    match o {
        Some(s) => s@,
        None => Seq::empty(),
    }
}

/// Stores or extends the person entry under `name`.
pub fn add_person(
    book: &mut AddressBook,
    name: &str,
    email: &str,
    phone: &str,
    phone_type: PhoneType,
    now: Timestamp,
)
    requires
        old(book).wf(),
        person_insertable(*old(book), name@),
    ensures
        person_added(
            *old(book),
            *final(book),
            name@,
            email@,
            phone@,
            spec_phone_type(phone_type),
            now,
        ),
{
    let prev = book.remove(name);
    let mut person = match prev {
        Some(c) => match c.kind {
            Some(Kind::Person(p)) => p,
            _ => {
                proof {
                    assert(false);
                }
                Person { email: String::new(), phones: Vec::new() }
            },
        },
        None => Person { email: String::new(), phones: Vec::new() },
    };
    person.email = String::from_str(email);
    let nb = PhoneNumber { number: String::from_str(phone), phone_type: str_to_phone_type(
        phone_type,
    ) };
    person.phones.push(nb);
    let contact = Contact { last_updated: Some(now), kind: Some(Kind::Person(person)) };
    book.insert(String::from_str(name), contact);
}

/// Stores or extends the company entry under `name`.
pub fn add_company(
    book: &mut AddressBook,
    name: &str,
    email: &str,
    email_dep: DepType,
    phone: &str,
    phone_dep: DepType,
    now: Timestamp,
)
    requires
        old(book).wf(),
        company_insertable(*old(book), name@),
    ensures
        company_added(
            *old(book),
            *final(book),
            name@,
            email@,
            spec_department(email_dep),
            phone@,
            spec_department(phone_dep),
            now,
        ),
{
    let prev = book.remove(name);
    let mut company = match prev {
        Some(c) => match c.kind {
            Some(Kind::Company(co)) => co,
            _ => {
                proof {
                    assert(false);
                }
                Company { emails: Vec::new(), phones: Vec::new() }
            },
        },
        None => Company { emails: Vec::new(), phones: Vec::new() },
    };
    let addr = EmailAddress { email: String::from_str(email), department: str_to_department(
        email_dep,
    ) };
    company.emails.push(addr);
    let nb = CompanyPhoneNumber { number: String::from_str(phone), department: str_to_department(
        phone_dep,
    ) };
    company.phones.push(nb);
    let contact = Contact { last_updated: Some(now), kind: Some(Kind::Company(company)) };
    book.insert(String::from_str(name), contact);
}

/// A text masked: one star per character.
pub open spec fn masked(s: Seq<char>) -> Seq<char> {
    all_stars(s.len())
}

/// A person with email and phone numbers masked; everything else kept.
pub open spec fn person_redacted(o: Person, r: Person) -> bool {
    &&& r.email@ == masked(o.email@)
    &&& r.phones@.len() == o.phones@.len()
    &&& forall|i: int|
        0 <= i < o.phones@.len() ==> ((#[trigger] r.phones@[i]).number@ == masked(
            o.phones@[i].number@,
        ) && r.phones@[i].phone_type == o.phones@[i].phone_type)
}

/// A company with emails and phone numbers masked; departments kept.
pub open spec fn company_redacted(o: Company, r: Company) -> bool {
    &&& r.emails@.len() == o.emails@.len()
    &&& forall|i: int|
        0 <= i < o.emails@.len() ==> ((#[trigger] r.emails@[i]).email@ == masked(
            o.emails@[i].email@,
        ) && r.emails@[i].department == o.emails@[i].department)
    &&& r.phones@.len() == o.phones@.len()
    &&& forall|i: int|
        0 <= i < o.phones@.len() ==> ((#[trigger] r.phones@[i]).number@ == masked(
            o.phones@[i].number@,
        ) && r.phones@[i].department == o.phones@[i].department)
}

/// A contact with its personal data masked.
pub open spec fn contact_redacted(o: Contact, r: Contact) -> bool {
    &&& r.last_updated == o.last_updated
    &&& (o.kind is None <==> r.kind is None)
    &&& (o.kind matches Some(Kind::Person(p)) ==> (r.kind matches Some(Kind::Person(rp))
        && person_redacted(p, rp)))
    &&& (o.kind matches Some(Kind::Company(c)) ==> (r.kind matches Some(Kind::Company(rc))
        && company_redacted(c, rc)))
}

/// Masks one contact's emails and phone numbers.
fn redact_contact(c: Contact) -> (r: Contact)
    ensures
        contact_redacted(c, r),
{
    match c.kind {
        Some(Kind::Person(p)) => {
            let ghost orig = p.phones@;
            let mut rest = p.phones;
            let mut phones: Vec<PhoneNumber> = Vec::new();
            while rest.len() > 0
                invariant
                    phones@.len() + rest@.len() == orig.len(),
                    rest@ == orig.skip(phones@.len() as int),
                    forall|i: int|
                        0 <= i < phones@.len() ==> ((#[trigger] phones@[i]).number@ == masked(
                            orig[i].number@,
                        ) && phones@[i].phone_type == orig[i].phone_type),
                decreases rest@.len(),
            {
                let pn = rest.remove(0);
                proof {
                    assert(orig.skip(phones@.len() as int)[0] == orig[phones@.len() as int]);
                    assert(orig.skip(phones@.len() as int).skip(1) =~= orig.skip(
                        phones@.len() as int + 1,
                    ));
                }
                let n = pn.number.as_str().unicode_len();
                phones.push(PhoneNumber { number: stars(n), phone_type: pn.phone_type });
            }
            let email_len = p.email.as_str().unicode_len();
            let rp = Person { email: stars(email_len), phones };
            Contact { last_updated: c.last_updated, kind: Some(Kind::Person(rp)) }
        },
        Some(Kind::Company(co)) => {
            let ghost orig_emails = co.emails@;
            let mut rest_emails = co.emails;
            let mut emails: Vec<EmailAddress> = Vec::new();
            while rest_emails.len() > 0
                invariant
                    emails@.len() + rest_emails@.len() == orig_emails.len(),
                    rest_emails@ == orig_emails.skip(emails@.len() as int),
                    forall|i: int|
                        0 <= i < emails@.len() ==> ((#[trigger] emails@[i]).email@ == masked(
                            orig_emails[i].email@,
                        ) && emails@[i].department == orig_emails[i].department),
                decreases rest_emails@.len(),
            {
                let em = rest_emails.remove(0);
                proof {
                    assert(orig_emails.skip(emails@.len() as int)[0] == orig_emails[emails@.len() as int]);
                    assert(orig_emails.skip(emails@.len() as int).skip(1) =~= orig_emails.skip(
                        emails@.len() as int + 1,
                    ));
                }
                let n = em.email.as_str().unicode_len();
                emails.push(EmailAddress { email: stars(n), department: em.department });
            }
            let ghost orig_phones = co.phones@;
            let mut rest_phones = co.phones;
            let mut phones: Vec<CompanyPhoneNumber> = Vec::new();
            while rest_phones.len() > 0
                invariant
                    phones@.len() + rest_phones@.len() == orig_phones.len(),
                    rest_phones@ == orig_phones.skip(phones@.len() as int),
                    forall|i: int|
                        0 <= i < phones@.len() ==> ((#[trigger] phones@[i]).number@ == masked(
                            orig_phones[i].number@,
                        ) && phones@[i].department == orig_phones[i].department),
                decreases rest_phones@.len(),
            {
                let pn = rest_phones.remove(0);
                proof {
                    assert(orig_phones.skip(phones@.len() as int)[0] == orig_phones[phones@.len() as int]);
                    assert(orig_phones.skip(phones@.len() as int).skip(1) =~= orig_phones.skip(
                        phones@.len() as int + 1,
                    ));
                }
                let n = pn.number.as_str().unicode_len();
                phones.push(CompanyPhoneNumber { number: stars(n), department: pn.department });
            }
            let rc = Company { emails, phones };
            Contact { last_updated: c.last_updated, kind: Some(Kind::Company(rc)) }
        },
        None => Contact { last_updated: c.last_updated, kind: None },
    }
}

/// Hands the entries out for printing, sorted by name, masking the personal
/// data when asked to.
pub fn list_contacts(book: AddressBook, redact: bool) -> (r: Vec<(String, Contact)>)
    requires
        book.wf(),
    ensures
        r@.len() == book.entries().len(),
        forall|i: int| 0 <= i < r@.len() ==> (#[trigger] r@[i]).0 == book.entries()[i].0,
        !redact ==> forall|i: int| 0 <= i < r@.len() ==> (#[trigger] r@[i]).1 == book.entries()[i].1,
        redact ==> forall|i: int|
            0 <= i < r@.len() ==> contact_redacted(book.entries()[i].1, (#[trigger] r@[i]).1),
        forall|i: int, j: int|
            0 <= i < j < r@.len() ==> str_lt(#[trigger] r@[i].0@, #[trigger] r@[j].0@),
{
    let ghost b0 = book;
    let mut entries = book.into_entries();
    let r = if redact {
        let ghost orig = entries@;
        let mut out: Vec<(String, Contact)> = Vec::new();
        while entries.len() > 0
            invariant
                out@.len() + entries@.len() == orig.len(),
                entries@ == orig.skip(out@.len() as int),
                forall|i: int|
                    0 <= i < out@.len() ==> ((#[trigger] out@[i]).0 == orig[i].0
                        && contact_redacted(orig[i].1, out@[i].1)),
            decreases entries@.len(),
        {
            let (name, c) = entries.remove(0);
            proof {
                assert(orig.skip(out@.len() as int)[0] == orig[out@.len() as int]);
                assert(orig.skip(out@.len() as int).skip(1) =~= orig.skip(out@.len() as int + 1));
            }
            out.push((name, redact_contact(c)));
        }
        out
    } else {
        entries
    };
    proof {
        assert forall|i: int, j: int| 0 <= i < j < r@.len() implies str_lt(
            #[trigger] r@[i].0@,
            #[trigger] r@[j].0@,
        ) by {
            assert(str_lt(b0.key_at(i), b0.key_at(j)));
        }
    }
    r
}

/// Whether the command line asks to add a contact.
pub open spec fn is_add(c: Cli) -> bool {
    c.command matches Some(Commands::Add(_))
}

/// The arguments of an `add` command line.
pub open spec fn add_args(c: Cli) -> AddArgs {
    c.command->Some_0->Add_0
}

/// Whether the command line asks for the listing.
pub open spec fn is_list(c: Cli) -> bool {
    c.command matches Some(Commands::List(_))
}

/// The arguments of a `list` command line.
pub open spec fn list_args(c: Cli) -> ListArgs {
    c.command->Some_0->List_0
}

/// Whether the kind argument names a person, under either spelling.
pub open spec fn kind_is_person(k: KindType) -> bool {
    k is Per || k is Person
}

/// Whether the kind argument names a company, under either spelling.
pub open spec fn kind_is_company(k: KindType) -> bool {
    k is Cie || k is Company
}

/// Runs one command against the book read from storage. `add` yields the
/// updated book to write back — the `--dep` department is stored on the new
/// email and the new phone alike — and `list` yields the sorted, optionally
/// masked entries; an empty command line is refused.
pub fn run(config: Cli, book: AddressBook, now: Timestamp) -> (r: Result<RunEffect, &'static str>)
    requires
        book.wf(),
        is_add(config) && kind_is_person(add_args(config).kind) ==> person_insertable(
            book,
            add_args(config).name@,
        ),
        is_add(config) && kind_is_company(add_args(config).kind) ==> company_insertable(
            book,
            add_args(config).name@,
        ),
    ensures
        config.command is None ==> (r matches Err(e) && e@ == "Command not found"@),
        is_add(config) ==> (r matches Ok(RunEffect::Updated(b)) && {
            let x = add_args(config);
            &&& kind_is_person(x.kind) ==> person_added(
                book,
                b,
                x.name@,
                opt_str(x.email),
                opt_str(x.phone),
                spec_phone_type(x.phone_type),
                now,
            )
            &&& kind_is_company(x.kind) ==> company_added(
                book,
                b,
                x.name@,
                opt_str(x.email),
                spec_department(x.dep),
                opt_str(x.phone),
                spec_department(x.dep),
                now,
            )
        }),
        is_list(config) ==> (r matches Ok(RunEffect::Listing(l)) && {
            &&& l@.len() == book.entries().len()
            &&& forall|i: int| 0 <= i < l@.len() ==> (#[trigger] l@[i]).0 == book.entries()[i].0
            &&& !list_args(config).redact ==> forall|i: int|
                0 <= i < l@.len() ==> (#[trigger] l@[i]).1 == book.entries()[i].1
            &&& list_args(config).redact ==> forall|i: int|
                0 <= i < l@.len() ==> contact_redacted(book.entries()[i].1, (#[trigger] l@[i]).1)
        }),
{
    match config.command {
        Some(Commands::Add(x)) => {
            proof {
                reveal_strlit("");
                assert(""@ =~= Seq::<char>::empty());
            }
            let email = match &x.email {
                Some(em) => em.as_str(),
                None => "",
            };
            let phone = match &x.phone {
                Some(em) => em.as_str(),
                None => "",
            };
            let mut b = book;
            match x.kind {
                KindType::Cie | KindType::Company => {
                    add_company(&mut b, x.name.as_str(), email, x.dep, phone, x.dep, now);
                },
                KindType::Per | KindType::Person => {
                    add_person(&mut b, x.name.as_str(), email, phone, x.phone_type, now);
                },
            }
            Ok(RunEffect::Updated(b))
        },
        Some(Commands::List(x)) => Ok(RunEffect::Listing(list_contacts(book, x.redact))),
        None => Err("Command not found"),
    }
}

} // verus!
