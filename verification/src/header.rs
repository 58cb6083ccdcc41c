//! From the raw header block of a fetched message to the canonical record
//! that the rules work on.

use crate::address::{
    no_address, parsed_address_list, recipient_in, resolve_recipient, resolve_sender, sender_in,
    Address, AddressParseError, AddressView,
};
use crate::pattern::PatternSet;
use crate::text::{contains_char, lowercased, to_lower};
use vstd::prelude::*;

verus! {

/// A message of a mailbox. The uid means something only together with the
/// generation (the validity token) of the mailbox it was seen in.
#[derive(Clone, Copy, Debug, PartialEq, Eq, Structural)]
pub struct MessageIdentity {
    pub uid: u32,
    pub mailbox_generation: u32,
}

/// The canonical record of one observed message.
///
/// The sender address is never empty. The recipient address is either empty,
/// which says that no recipient was found, or has an `@` in it.
#[derive(Debug, PartialEq, Eq)]
pub struct CanonicalHeader {
    id: MessageIdentity,
    from_address: String,
    from_display_name: String,
    to_address: String,
    to_display_name: String,
    subject: String,
    date: String,
}

/// A canonical record, as character sequences.
pub struct HeaderView {
    pub id: MessageIdentity,
    pub from_address: Seq<char>,
    pub from_display_name: Seq<char>,
    pub to_address: Seq<char>,
    pub to_display_name: Seq<char>,
    pub subject: Seq<char>,
    pub date: Seq<char>,
}

/// What holds of every canonical record.
pub open spec fn valid_header(header: HeaderView) -> bool {
    &&& header.from_address.len() > 0
    &&& header.to_address.len() == 0 || header.to_address.contains('@')
}

impl View for CanonicalHeader {
    type V = HeaderView;

    closed spec fn view(&self) -> HeaderView {
        HeaderView {
            id: self.id,
            from_address: self.from_address@,
            from_display_name: self.from_display_name@,
            to_address: self.to_address@,
            to_display_name: self.to_display_name@,
            subject: self.subject@,
            date: self.date@,
        }
    }
}

impl CanonicalHeader {
    #[verifier::type_invariant]
    spec fn well_formed(&self) -> bool {
        valid_header(self@)
    }

    /// Makes a record of the given parts, where they make a valid one.
    pub fn new(
        id: MessageIdentity,
        from_address: String,
        from_display_name: String,
        to_address: String,
        to_display_name: String,
        subject: String,
        date: String,
    ) -> (made: Option<CanonicalHeader>)
        ensures
            made is Some <==> valid_header(
                HeaderView {
                    id,
                    from_address: from_address@,
                    from_display_name: from_display_name@,
                    to_address: to_address@,
                    to_display_name: to_display_name@,
                    subject: subject@,
                    date: date@,
                },
            ),
            made matches Some(header) ==> header@ == (HeaderView {
                id,
                from_address: from_address@,
                from_display_name: from_display_name@,
                to_address: to_address@,
                to_display_name: to_display_name@,
                subject: subject@,
                date: date@,
            }),
    {
        if from_address.as_str().is_empty() {
            return None;
        }
        if !to_address.as_str().is_empty() && !contains_char(to_address.as_str(), '@') {
            return None;
        }
        Some(
            CanonicalHeader {
                id,
                from_address,
                from_display_name,
                to_address,
                to_display_name,
                subject,
                date,
            },
        )
    }

    /// A copy of this record.
    pub fn duplicate(&self) -> (copy: CanonicalHeader)
        ensures
            copy@ == self@,
    {
        proof {
            use_type_invariant(self);
        }
        CanonicalHeader {
            id: self.id,
            from_address: self.from_address.clone(),
            from_display_name: self.from_display_name.clone(),
            to_address: self.to_address.clone(),
            to_display_name: self.to_display_name.clone(),
            subject: self.subject.clone(),
            date: self.date.clone(),
        }
    }

    /// The message that the record is of.
    pub fn id(&self) -> (id: MessageIdentity)
        ensures
            id == self@.id,
    {
        self.id
    }

    /// The uid of the message.
    pub fn uid(&self) -> (uid: u32)
        ensures
            uid == self@.id.uid,
    {
        self.id.uid
    }

    /// The sender's address.
    pub fn from_address(&self) -> (text: &str)
        ensures
            text@ == self@.from_address,
            valid_header(self@),
    {
        proof {
            use_type_invariant(self);
        }
        self.from_address.as_str()
    }

    /// The sender's display name.
    pub fn from_display_name(&self) -> (text: &str)
        ensures
            text@ == self@.from_display_name,
    {
        self.from_display_name.as_str()
    }

    /// The resolved recipient's address; empty where none was found.
    pub fn to_address(&self) -> (text: &str)
        ensures
            text@ == self@.to_address,
            valid_header(self@),
    {
        proof {
            use_type_invariant(self);
        }
        self.to_address.as_str()
    }

    /// The resolved recipient's display name.
    pub fn to_display_name(&self) -> (text: &str)
        ensures
            text@ == self@.to_display_name,
    {
        self.to_display_name.as_str()
    }

    /// The subject, as the message gave it.
    pub fn subject(&self) -> (text: &str)
        ensures
            text@ == self@.subject,
    {
        self.subject.as_str()
    }

    /// The date, as the message gave it.
    pub fn date(&self) -> (text: &str)
        ensures
            text@ == self@.date,
    {
        self.date.as_str()
    }
}

/// One field of a header block: its name and its decoded value.
#[derive(Clone, Debug, PartialEq, Eq)]
pub struct HeaderField {
    pub name: String,
    pub value: String,
}

impl View for HeaderField {
    type V = (Seq<char>, Seq<char>);

    open spec fn view(&self) -> (Seq<char>, Seq<char>) {
        (self.name@, self.value@)
    }
}

/// The views of a sequence of fields.
pub open spec fn field_views(fields: Seq<HeaderField>) -> Seq<(Seq<char>, Seq<char>)> {
    Seq::new(fields.len(), |i: int| fields[i]@)
}

/// The fields that `mailparse::parse_headers` reads out of the header block
/// `raw`, each with the name that `MailHeader::get_key` and the value that
/// `MailHeader::get_value` give for it; none where the block is rejected.
pub uninterp spec fn parsed_header_fields(raw: Seq<u8>) -> Option<Seq<(Seq<char>, Seq<char>)>>;

/// Calls `mailparse::parse_headers` and copies each header it returns as its
/// `get_key()` and `get_value()`. Trusted: the outcome depends on the bytes
/// alone.
#[verifier::external_body]
fn parse_header_block(raw: &[u8]) -> (r: Result<Vec<HeaderField>, mailparse::MailParseError>)
    ensures
        match r {
            Ok(fields) => parsed_header_fields(raw@) == Some(field_views(fields@)),
            Err(_) => parsed_header_fields(raw@) is None,
        },
{
    let (headers, _) = mailparse::parse_headers(raw)?;
    Ok(headers.iter().map(|h| HeaderField { name: h.get_key(), value: h.get_value() }).collect())
}

/// The value of the first field whose name is `name`, letter case aside.
pub open spec fn field_value(fields: Seq<(Seq<char>, Seq<char>)>, name: Seq<char>) -> Option<
    Seq<char>,
>
    decreases fields.len(),
{
    if fields.len() == 0 {
        None
    } else if lowercased(fields[0].0) == lowercased(name) {
        Some(fields[0].1)
    } else {
        field_value(fields.drop_first(), name)
    }
}

/// Looks up the value of the first field whose name is `name`, letter case
/// aside.
pub fn find_field(fields: &Vec<HeaderField>, name: &str) -> (value: Option<String>)
    ensures
        match value {
            Some(text) => field_value(field_views(fields@), name@) == Some(text@),
            None => field_value(field_views(fields@), name@) is None,
        },
{
    let wanted = to_lower(name);
    let ghost all = field_views(fields@);
    let mut i: usize = 0;
    assert(all.skip(0) =~= all);
    while i < fields.len()
        invariant
            all == field_views(fields@),
            wanted@ == lowercased(name@),
            i <= fields@.len(),
            field_value(all, name@) == field_value(all.skip(i as int), name@),
        decreases fields@.len() - i,
    {
        let ghost rest = all.skip(i as int);
        assert(rest[0] == fields@[i as int]@);
        assert(rest.drop_first() =~= all.skip(i + 1));
        if to_lower(fields[i].name.as_str()) == wanted {
            return Some(fields[i].value.clone());
        }
        i += 1;
    }
    assert(all.skip(i as int).len() == 0);
    None
}

/// A header field that a record cannot be made without.
#[derive(Clone, Copy, Debug, PartialEq, Eq, Structural)]
pub enum HeaderName {
    From,
    Subject,
    Date,
}

/// Why no record could be made of a message.
#[derive(Clone, Copy, Debug, PartialEq, Eq, Structural)]
pub enum ExtractError {
    /// The message came without a header block.
    NoHeaderBlock,
    /// The header block is not a list of fields.
    MalformedBlock,
    /// A field that must be there is not.
    MissingHeader(HeaderName),
    /// The `From` field does not name exactly one sender.
    AddressParse(AddressParseError),
}

/// The name under which a field is looked up.
pub open spec fn header_name_text(name: HeaderName) -> Seq<char> {
    match name {
        HeaderName::From => "From"@,
        HeaderName::Subject => "Subject"@,
        HeaderName::Date => "Date"@,
    }
}

/// The name of the field that lists the recipients.
pub open spec fn recipient_field() -> Seq<char> {
    "To"@
}

impl HeaderName {
    /// The name under which the field is looked up.
    pub fn text(&self) -> (text: &'static str)
        ensures
            text@ == header_name_text(*self),
    {
        match self {
            HeaderName::From => "From",
            HeaderName::Subject => "Subject",
            HeaderName::Date => "Date",
        }
    }
}

/// The display name of a mailbox: the one it carries, else its address.
pub open spec fn display_name_of(address: AddressView) -> Seq<char> {
    match address.display_name {
        Some(name) => name,
        None => address.addr,
    }
}

/// The record of the message `id` with the given sender, recipient, subject
/// and date.
pub open spec fn header_of(
    id: MessageIdentity,
    sender: AddressView,
    recipient: AddressView,
    subject: Seq<char>,
    date: Seq<char>,
) -> HeaderView {
    HeaderView {
        id,
        from_address: sender.addr,
        from_display_name: display_name_of(sender),
        to_address: recipient.addr,
        to_display_name: display_name_of(recipient),
        subject,
        date,
    }
}

/// The recipient of a message whose header block holds `fields`: the one
/// that `patterns` single out of its `To` field, and none where there is no
/// such field.
pub open spec fn recipient_of_fields(
    fields: Seq<(Seq<char>, Seq<char>)>,
    patterns: Seq<Seq<char>>,
) -> AddressView {
    match field_value(fields, recipient_field()) {
        Some(to) => recipient_in(patterns, parsed_address_list(to)),
        None => no_address(),
    }
}

/// The record of the message `id` whose header block holds `fields`.
///
/// `From`, `Subject` and `Date` must all be there, and are missed in that
/// order. The sender must then be one mailbox. A message may come without a
/// recipient: with no `To` field, or with one of which `patterns` match
/// nothing.
pub open spec fn extracted_from_fields(
    fields: Seq<(Seq<char>, Seq<char>)>,
    id: MessageIdentity,
    patterns: Seq<Seq<char>>,
) -> Result<HeaderView, ExtractError> {
    if field_value(fields, header_name_text(HeaderName::From)) is None {
        Err(ExtractError::MissingHeader(HeaderName::From))
    } else if field_value(fields, header_name_text(HeaderName::Subject)) is None {
        Err(ExtractError::MissingHeader(HeaderName::Subject))
    } else if field_value(fields, header_name_text(HeaderName::Date)) is None {
        Err(ExtractError::MissingHeader(HeaderName::Date))
    } else {
        match sender_in(
            parsed_address_list(field_value(fields, header_name_text(HeaderName::From))->Some_0),
        ) {
            Err(e) => Err(ExtractError::AddressParse(e)),
            Ok(sender) => Ok(
                header_of(
                    id,
                    sender,
                    recipient_of_fields(fields, patterns),
                    field_value(fields, header_name_text(HeaderName::Subject))->Some_0,
                    field_value(fields, header_name_text(HeaderName::Date))->Some_0,
                ),
            ),
        }
    }
}

/// The record of the message `id` whose raw header block is `raw`.
pub open spec fn extracted(raw: Seq<u8>, id: MessageIdentity, patterns: Seq<Seq<char>>) -> Result<
    HeaderView,
    ExtractError,
> {
    match parsed_header_fields(raw) {
        None => Err(ExtractError::MalformedBlock),
        Some(fields) => extracted_from_fields(fields, id, patterns),
    }
}

/// The display name of `address`: the one it carries, else its address.
pub fn display_name(address: &Address) -> (name: String)
    ensures
        name@ == display_name_of(address@),
{
    match &address.display_name {
        Some(name) => name.clone(),
        None => address.addr.clone(),
    }
}

/// Makes the record of the message `id` out of its resolved sender and
/// recipient, where they make a valid one.
pub fn assemble(
    id: MessageIdentity,
    sender: &Address,
    recipient: &Address,
    subject: String,
    date: String,
) -> (made: Option<CanonicalHeader>)
    ensures
        made is Some <==> valid_header(header_of(id, sender@, recipient@, subject@, date@)),
        made matches Some(header) ==> header@ == header_of(
            id,
            sender@,
            recipient@,
            subject@,
            date@,
        ),
{
    CanonicalHeader::new(
        id,
        sender.addr.clone(),
        display_name(sender),
        recipient.addr.clone(),
        display_name(recipient),
        subject,
        date,
    )
}

/// Makes the record of the message `id` out of the fields of its header
/// block.
pub fn extract_from_fields(fields: &Vec<HeaderField>, id: MessageIdentity, patterns: &PatternSet) -> (r:
    Result<CanonicalHeader, ExtractError>)
    ensures
        match r {
            Ok(header) => extracted_from_fields(field_views(fields@), id, patterns@) == Ok::<
                HeaderView,
                ExtractError,
            >(header@),
            Err(e) => extracted_from_fields(field_views(fields@), id, patterns@) == Err::<
                HeaderView,
                ExtractError,
            >(e),
        },
{
    let from = match find_field(fields, HeaderName::From.text()) {
        Some(value) => value,
        None => {
            return Err(ExtractError::MissingHeader(HeaderName::From));
        },
    };
    let subject = match find_field(fields, HeaderName::Subject.text()) {
        Some(value) => value,
        None => {
            return Err(ExtractError::MissingHeader(HeaderName::Subject));
        },
    };
    let date = match find_field(fields, HeaderName::Date.text()) {
        Some(value) => value,
        None => {
            return Err(ExtractError::MissingHeader(HeaderName::Date));
        },
    };
    let to = find_field(fields, "To");
    let sender = match resolve_sender(from.as_str()) {
        Ok(address) => address,
        Err(e) => {
            return Err(ExtractError::AddressParse(e));
        },
    };
    let recipient = match to {
        Some(value) => resolve_recipient(value.as_str(), patterns),
        None => Address::none(),
    };
    let made = assemble(id, &sender, &recipient, subject, date);
    assert(sender@.addr.len() > 0) by {
        let at = choose|i: int| 0 <= i < sender@.addr.len() && sender@.addr[i] == '@';
    }
    Ok(made.unwrap())
}

/// Makes the record of the message `id` out of its raw header block.
pub fn extract(raw: &[u8], id: MessageIdentity, patterns: &PatternSet) -> (r: Result<
    CanonicalHeader,
    ExtractError,
>)
    ensures
        match r {
            Ok(header) => extracted(raw@, id, patterns@) == Ok::<HeaderView, ExtractError>(header@),
            Err(e) => extracted(raw@, id, patterns@) == Err::<HeaderView, ExtractError>(e),
        },
{
    match parse_header_block(raw) {
        Ok(fields) => extract_from_fields(&fields, id, patterns),
        Err(_) => Err(ExtractError::MalformedBlock),
    }
}

} // verus!
