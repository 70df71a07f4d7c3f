use taskpool::addressbook::{self, Config, RunEffect};
use taskpool::addressbook_1::{self, AddArgs, Cli, Commands, DepType, KindType, ListArgs,
    PhoneType};
use taskpool::book::{AddressBook, Kind};
use taskpool::timestamp::Timestamp;

fn args(words: &[&str]) -> Vec<String> {
    words.iter().map(|w| w.to_string()).collect()
}

fn now() -> Timestamp {
    Timestamp { seconds: 1700000000, nanos: 500 }
}

#[test]
fn build_parses_pairs() {
    let a = args(&["prog", "add", "--kind", "person", "--name", "ada"]);
    let config = Config::build(&a).unwrap();
    assert_eq!(config.command, "add");
    assert_eq!(config.params.len(), 2);
    assert_eq!(config.params[0].0, "--kind");
    assert_eq!(config.params[0].1, "person");
    assert_eq!(config.params[1].0, "--name");
    assert_eq!(config.params[1].1, "ada");
}

#[test]
fn build_rejects_missing_command() {
    let a = args(&["prog"]);
    assert_eq!(Config::build(&a).unwrap_err(), "Command not found");
}

#[test]
fn build_rejects_bare_argument() {
    let a = args(&["prog", "add", "kind", "person"]);
    assert_eq!(Config::build(&a).unwrap_err(), "Expected arg starts with --");
}

#[test]
fn build_rejects_flag_without_value() {
    let a = args(&["prog", "add", "--kind"]);
    assert_eq!(Config::build(&a).unwrap_err(), "Missing parameter after --arg");
}

#[test]
fn phone_type_codes() {
    assert_eq!(addressbook::str_to_phone_type("home"), 2);
    assert_eq!(addressbook::str_to_phone_type("mobile"), 1);
    assert_eq!(addressbook::str_to_phone_type("work"), 3);
    assert_eq!(addressbook::str_to_phone_type("carrier-pigeon"), 0);
}

#[test]
fn department_codes() {
    assert_eq!(addressbook::str_to_department("hr"), 1);
    assert_eq!(addressbook::str_to_department("cs"), 2);
    assert_eq!(addressbook::str_to_department("lab"), 0);
}

#[test]
fn add_person_then_list() {
    let a = args(&["prog", "add", "--kind", "per", "--name", "ada", "--email",
        "ada@example.com", "--phone", "123", "--type", "home"]);
    let config = Config::build(&a).unwrap();
    let book = AddressBook::new();
    let book = match addressbook::run(config, book, now()).unwrap() {
        RunEffect::Updated(b) => b,
        RunEffect::Listing(_) => panic!("add must update the book"),
    };

    let contact = book.get("ada").unwrap();
    assert_eq!(contact.last_updated, Some(now()));
    match &contact.kind {
        Some(Kind::Person(p)) => {
            assert_eq!(p.email, "ada@example.com");
            assert_eq!(p.phones.len(), 1);
            assert_eq!(p.phones[0].number, "123");
            assert_eq!(p.phones[0].phone_type, 2);
        }
        _ => panic!("ada must be a person"),
    }

    let list_args = args(&["prog", "list"]);
    let config = Config::build(&list_args).unwrap();
    match addressbook::run(config, book, now()).unwrap() {
        RunEffect::Listing(l) => {
            assert_eq!(l.len(), 1);
            assert_eq!(l[0].0, "ada");
        }
        RunEffect::Updated(_) => panic!("list must not update the book"),
    }
}

#[test]
fn add_same_person_extends_phones() {
    let mut book = AddressBook::new();
    addressbook::add_person(&mut book, "ada", "a@b.c", "111", "home", now());
    addressbook::add_person(&mut book, "ada", "new@b.c", "222", "work", now());
    let contact = book.get("ada").unwrap();
    match &contact.kind {
        Some(Kind::Person(p)) => {
            assert_eq!(p.email, "new@b.c");
            assert_eq!(p.phones.len(), 2);
            assert_eq!(p.phones[0].number, "111");
            assert_eq!(p.phones[0].phone_type, 2);
            assert_eq!(p.phones[1].number, "222");
            assert_eq!(p.phones[1].phone_type, 3);
        }
        _ => panic!("ada must be a person"),
    }
}

#[test]
fn listing_is_sorted_by_name() {
    let mut book = AddressBook::new();
    addressbook::add_company(&mut book, "zeta", "z@z.z", "hr", "9", "cs", now());
    addressbook::add_person(&mut book, "ada", "a@b.c", "1", "home", now());
    addressbook::add_person(&mut book, "mid", "m@b.c", "5", "work", now());
    let listed = addressbook::list_contacts(book);
    let names: Vec<&str> = listed.iter().map(|e| e.0.as_str()).collect();
    assert_eq!(names, vec!["ada", "mid", "zeta"]);
}

#[test]
fn unknown_command_is_refused() {
    let a = args(&["prog", "frobnicate"]);
    let config = Config::build(&a).unwrap();
    let book = AddressBook::new();
    match addressbook::run(config, book, now()) {
        Err(e) => assert_eq!(e, "Command not found"),
        Ok(_) => panic!("an unknown command must be refused"),
    }
}

#[test]
fn typed_add_company_and_redacted_list() {
    let cli = Cli {
        command: Some(Commands::Add(AddArgs {
            name: "acme".to_string(),
            kind: KindType::Cie,
            email: Some("desk@acme.example".to_string()),
            dep: DepType::Hr,
            phone: Some("555123".to_string()),
            phone_type: PhoneType::Undefined,
        })),
    };
    let book = AddressBook::new();
    let book = match addressbook_1::run(cli, book, now()).unwrap() {
        RunEffect::Updated(b) => b,
        RunEffect::Listing(_) => panic!("add must update the book"),
    };

    let contact = book.get("acme").unwrap();
    match &contact.kind {
        Some(Kind::Company(c)) => {
            assert_eq!(c.emails.len(), 1);
            assert_eq!(c.emails[0].email, "desk@acme.example");
            assert_eq!(c.emails[0].department, 1);
            assert_eq!(c.phones.len(), 1);
            assert_eq!(c.phones[0].number, "555123");
            assert_eq!(c.phones[0].department, 1);
        }
        _ => panic!("acme must be a company"),
    }

    let listed = addressbook_1::list_contacts(book, true);
    assert_eq!(listed.len(), 1);
    assert_eq!(listed[0].0, "acme");
    match &listed[0].1.kind {
        Some(Kind::Company(c)) => {
            assert_eq!(c.emails[0].email, "*****************");
            assert_eq!(c.emails[0].department, 1);
            assert_eq!(c.phones[0].number, "******");
            assert_eq!(c.phones[0].department, 1);
        }
        _ => panic!("acme must still be a company"),
    }
}

#[test]
fn typed_add_person_defaults() {
    let cli = Cli {
        command: Some(Commands::Add(AddArgs {
            name: "bo".to_string(),
            kind: KindType::Person,
            email: None,
            dep: DepType::Undefined,
            phone: None,
            phone_type: PhoneType::Mobile,
        })),
    };
    let book = AddressBook::new();
    let book = match addressbook_1::run(cli, book, now()).unwrap() {
        RunEffect::Updated(b) => b,
        RunEffect::Listing(_) => panic!("add must update the book"),
    };
    let contact = book.get("bo").unwrap();
    match &contact.kind {
        Some(Kind::Person(p)) => {
            assert_eq!(p.email, "");
            assert_eq!(p.phones[0].number, "");
            assert_eq!(p.phones[0].phone_type, 1);
        }
        _ => panic!("bo must be a person"),
    }
}

#[test]
fn empty_cli_is_refused() {
    let cli = Cli { command: None };
    let book = AddressBook::new();
    match addressbook_1::run(cli, book, now()) {
        Err(e) => assert_eq!(e, "Command not found"),
        Ok(_) => panic!("an empty command line must be refused"),
    }
}

#[test]
fn plain_list_keeps_contacts() {
    let mut book = AddressBook::new();
    addressbook_1::add_person(&mut book, "bo", "b@c.d", "42", PhoneType::Work, now());
    let cli = Cli { command: Some(Commands::List(ListArgs { redact: false })) };
    match addressbook_1::run(cli, book, now()).unwrap() {
        RunEffect::Listing(l) => {
            assert_eq!(l.len(), 1);
            match &l[0].1.kind {
                Some(Kind::Person(p)) => {
                    assert_eq!(p.email, "b@c.d");
                    assert_eq!(p.phones[0].number, "42");
                    assert_eq!(p.phones[0].phone_type, 3);
                }
                _ => panic!("bo must be a person"),
            }
        }
        RunEffect::Updated(_) => panic!("list must not update the book"),
    }
}
