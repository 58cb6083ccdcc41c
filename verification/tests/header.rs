use mail_triage::address::{Address, AddressParseError};
use mail_triage::header::{
    assemble, display_name, extract, extract_from_fields, find_field, CanonicalHeader,
    ExtractError, HeaderField, HeaderName, MessageIdentity,
};
use mail_triage::pattern::PatternSet;

fn my_domain() -> PatternSet {
    PatternSet::compile(&vec!["@mydomain\\.com$".to_string()]).unwrap()
}

fn id(uid: u32) -> MessageIdentity {
    MessageIdentity { uid, mailbox_generation: 9 }
}

fn field(name: &str, value: &str) -> HeaderField {
    HeaderField { name: name.to_string(), value: value.to_string() }
}

fn text(s: &str) -> String {
    s.to_string()
}

#[test]
fn a_record_needs_a_sender() {
    let made = CanonicalHeader::new(id(1), text(""), text(""), text(""), text(""), text("s"), text("d"));
    assert_eq!(made, None);
    let made =
        CanonicalHeader::new(id(1), text("a"), text(""), text(""), text(""), text("s"), text("d"));
    assert!(made.is_some());
}

#[test]
fn a_recipient_is_empty_or_has_an_at_sign() {
    let made = CanonicalHeader::new(
        id(1),
        text("a@b"),
        text("A"),
        text("no-at-sign"),
        text("N"),
        text("s"),
        text("d"),
    );
    assert_eq!(made, None);
    for to in ["", "@", "me@mydomain.com"] {
        let made =
            CanonicalHeader::new(id(1), text("a@b"), text("A"), text(to), text("N"), text("s"), text("d"));
        assert!(made.is_some());
    }
}

#[test]
fn a_record_gives_back_its_parts() {
    let header = CanonicalHeader::new(
        id(41),
        text("alice@uos.ac.kr"),
        text("Alice"),
        text("me@mydomain.com"),
        text("Me"),
        text("the subject"),
        text("the date"),
    )
    .unwrap();
    assert_eq!(header.id(), MessageIdentity { uid: 41, mailbox_generation: 9 });
    assert_eq!(header.uid(), 41);
    assert_eq!(header.from_address(), "alice@uos.ac.kr");
    assert_eq!(header.from_display_name(), "Alice");
    assert_eq!(header.to_address(), "me@mydomain.com");
    assert_eq!(header.to_display_name(), "Me");
    assert_eq!(header.subject(), "the subject");
    assert_eq!(header.date(), "the date");
    assert_eq!(header.duplicate(), header);
}

#[test]
fn fields_are_found_whatever_their_letter_case() {
    let fields = vec![field("SUBJECT", "one"), field("from", "two"), field("Subject", "three")];
    assert_eq!(find_field(&fields, "Subject"), Some(text("one")));
    assert_eq!(find_field(&fields, "subject"), Some(text("one")));
    assert_eq!(find_field(&fields, "From"), Some(text("two")));
    assert_eq!(find_field(&fields, "FROM"), Some(text("two")));
    assert_eq!(find_field(&fields, "To"), None);
    assert_eq!(find_field(&Vec::new(), "To"), None);
}

#[test]
fn header_names_are_looked_up_by_their_usual_text() {
    assert_eq!(HeaderName::From.text(), "From");
    assert_eq!(HeaderName::Subject.text(), "Subject");
    assert_eq!(HeaderName::Date.text(), "Date");
}

#[test]
fn display_name_defaults_to_the_address() {
    let bare = Address { display_name: None, addr: text("alice@uos.ac.kr") };
    let named = Address { display_name: Some(text("Alice")), addr: text("alice@uos.ac.kr") };
    assert_eq!(display_name(&bare), "alice@uos.ac.kr");
    assert_eq!(display_name(&named), "Alice");
    assert_eq!(display_name(&Address::none()), "");
}

#[test]
fn assemble_makes_the_record_of_resolved_addresses() {
    let sender = Address { display_name: Some(text("Alice")), addr: text("alice@uos.ac.kr") };
    let recipient = Address { display_name: None, addr: text("me@mydomain.com") };
    let header = assemble(id(5), &sender, &recipient, text("s"), text("d")).unwrap();
    assert_eq!(header.uid(), 5);
    assert_eq!(header.from_address(), "alice@uos.ac.kr");
    assert_eq!(header.from_display_name(), "Alice");
    assert_eq!(header.to_address(), "me@mydomain.com");
    assert_eq!(header.to_display_name(), "me@mydomain.com");
    assert_eq!(header.subject(), "s");
    assert_eq!(header.date(), "d");
    let nobody = assemble(id(5), &sender, &Address::none(), text("s"), text("d")).unwrap();
    assert_eq!(nobody.to_address(), "");
    assert_eq!(nobody.to_display_name(), "");
    assert_eq!(assemble(id(5), &Address::none(), &recipient, text("s"), text("d")), None);
    let odd = Address { display_name: None, addr: text("no-at-sign") };
    assert_eq!(assemble(id(5), &sender, &odd, text("s"), text("d")), None);
}

#[test]
fn extract_reads_a_header_block() {
    let raw = b"Date: Tue, 2 Jan 2024 10:00:00 +0900\r\nFROM: \"Alice Example\" <alice@uos.ac.kr>\r\nto: Someone <someone@elsewhere.org>, Me <me@mydomain.com>\r\nSubject: Hello\r\n there\r\nCc: x@y.z\r\n\r\nbody";
    let header = extract(raw, id(77), &my_domain()).unwrap();
    assert_eq!(header.id(), id(77));
    assert_eq!(header.from_address(), "alice@uos.ac.kr");
    assert_eq!(header.from_display_name(), "Alice Example");
    assert_eq!(header.to_address(), "me@mydomain.com");
    assert_eq!(header.to_display_name(), "Me");
    assert_eq!(header.subject(), "Hello there");
    assert_eq!(header.date(), "Tue, 2 Jan 2024 10:00:00 +0900");
}

#[test]
fn extract_decodes_encoded_words() {
    let raw = b"From: alice@uos.ac.kr\nTo: me@mydomain.com\nSubject: =?iso-8859-1?Q?=A1Hola,_se=F1or!?=\nDate: now\n\n";
    let header = extract(raw, id(1), &my_domain()).unwrap();
    assert_eq!(header.subject(), "\u{a1}Hola, se\u{f1}or!");
    assert_eq!(header.from_display_name(), "alice@uos.ac.kr");
}

#[test]
fn extract_takes_the_first_of_repeated_fields() {
    let raw = b"From: alice@uos.ac.kr\nSubject: first\nSubject: second\nTo: me@mydomain.com\nDate: now\nTo: other@mydomain.com\n\n";
    let header = extract(raw, id(1), &my_domain()).unwrap();
    assert_eq!(header.subject(), "first");
    assert_eq!(header.to_address(), "me@mydomain.com");
}

#[test]
fn extract_misses_fields_in_a_fixed_order() {
    let p = my_domain();
    let missing = |raw: &[u8]| extract(raw, id(1), &p).err();
    assert_eq!(missing(b"\r\n"), Some(ExtractError::MissingHeader(HeaderName::From)));
    assert_eq!(missing(b""), Some(ExtractError::MissingHeader(HeaderName::From)));
    assert_eq!(
        missing(b"To: me@mydomain.com\nDate: now\nSubject: s\n\n"),
        Some(ExtractError::MissingHeader(HeaderName::From))
    );
    assert_eq!(
        missing(b"From: a@b.c\n\n"),
        Some(ExtractError::MissingHeader(HeaderName::Subject))
    );
    assert_eq!(
        missing(b"From: a@b.c\nSubject: s\n\n"),
        Some(ExtractError::MissingHeader(HeaderName::Date))
    );
    assert_eq!(
        missing(b"From: not an address\nSubject: s\n\n"),
        Some(ExtractError::MissingHeader(HeaderName::Date))
    );
    assert_eq!(missing(b"From: a@b.c\nSubject: s\nDate: now\n\n"), None);
}

#[test]
fn extract_goes_on_without_a_to_field() {
    let raw = b"From: Bob <bob@other.com>\nSubject: s\nDate: now\nCc: me@mydomain.com\n\n";
    let header = extract(raw, id(4), &my_domain()).unwrap();
    assert_eq!(header.from_address(), "bob@other.com");
    assert_eq!(header.to_address(), "");
    assert_eq!(header.to_display_name(), "");
}

#[test]
fn extract_rejects_a_malformed_block() {
    let p = my_domain();
    assert_eq!(
        extract(b"From: a@b.c\r\n\rTo: x@y.z\r\n", id(1), &p).err(),
        Some(ExtractError::MalformedBlock)
    );
    assert_eq!(
        extract(b" From: a@b.c\n\n", id(1), &p).err(),
        Some(ExtractError::MalformedBlock)
    );
}

#[test]
fn extract_rejects_a_bad_sender() {
    let p = my_domain();
    let with_from = |from: &str| {
        let raw = format!("From: {from}\nTo: me@mydomain.com\nSubject: s\nDate: now\n\n");
        extract(raw.as_bytes(), id(1), &p).err()
    };
    assert_eq!(
        with_from("a@b.c, d@e.f"),
        Some(ExtractError::AddressParse(AddressParseError::NotOneAddress))
    );
    assert_eq!(
        with_from("friends: a@b.c;"),
        Some(ExtractError::AddressParse(AddressParseError::NotOneAddress))
    );
    assert_eq!(with_from(""), Some(ExtractError::AddressParse(AddressParseError::NotOneAddress)));
    assert_eq!(
        with_from("not an address"),
        Some(ExtractError::AddressParse(AddressParseError::Syntax))
    );
    assert_eq!(with_from("alice@uos.ac.kr"), None);
}

#[test]
fn extract_goes_on_without_a_recipient() {
    let p = my_domain();
    let with_to = |to: &str| {
        let raw = format!("From: a@b.c\nTo: {to}\nSubject: s\nDate: now\n\n");
        let header = extract(raw.as_bytes(), id(1), &p).unwrap();
        (header.to_address().to_string(), header.to_display_name().to_string())
    };
    assert_eq!(with_to(""), (text(""), text("")));
    assert_eq!(with_to("\"broken"), (text(""), text("")));
    assert_eq!(with_to("someone@elsewhere.org"), (text(""), text("")));
    assert_eq!(with_to("Me <me@mydomain.com>"), (text("me@mydomain.com"), text("Me")));
}

#[test]
fn extract_from_fields_works_on_given_fields() {
    let fields = vec![
        field("from", "Alice <alice@uos.ac.kr>"),
        field("SUBJECT", "s"),
        field("Date", "d"),
        field("To", "list: a@x.org, b@mydomain.com;"),
    ];
    let header = extract_from_fields(&fields, id(8), &my_domain()).unwrap();
    assert_eq!(header.from_display_name(), "Alice");
    assert_eq!(header.to_address(), "b@mydomain.com");
    assert_eq!(header.to_display_name(), "b@mydomain.com");
    let fields = vec![field("from", "alice@uos.ac.kr"), field("To", "x@y.z")];
    assert_eq!(
        extract_from_fields(&fields, id(8), &my_domain()).err(),
        Some(ExtractError::MissingHeader(HeaderName::Subject))
    );
}
