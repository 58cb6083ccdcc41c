//! Address header fields: the sender of a message, and the one recipient
//! that the configured patterns single out.

use crate::pattern::{pattern_matches, PatternSet};
use vstd::prelude::*;

verus! {

#[verifier::external_type_specification]
#[verifier::external_body]
pub struct ExMailParseError(mailparse::MailParseError);

/// One mailbox: a routing address and, where the header gave one, a display
/// name.
#[derive(Clone, Debug, PartialEq, Eq)]
pub struct Address {
    pub display_name: Option<String>,
    pub addr: String,
}

/// A mailbox, as character sequences.
pub struct AddressView {
    pub display_name: Option<Seq<char>>,
    pub addr: Seq<char>,
}

impl View for Address {
    type V = AddressView;

    open spec fn view(&self) -> AddressView {
        AddressView {
            display_name: match self.display_name {
                Some(name) => Some(name@),
                None => None,
            },
            addr: self.addr@,
        }
    }
}

/// One entry of an address list: a mailbox, or a named group of mailboxes.
#[derive(Clone, Debug, PartialEq, Eq)]
pub enum AddressEntry {
    Single(Address),
    Group(Vec<Address>),
}

/// An entry of an address list, as character sequences.
pub enum EntryView {
    Single(AddressView),
    Group(Seq<AddressView>),
}

/// The views of a sequence of mailboxes.
pub open spec fn address_views(addresses: Seq<Address>) -> Seq<AddressView> {
    Seq::new(addresses.len(), |i: int| addresses[i]@)
}

impl View for AddressEntry {
    type V = EntryView;

    open spec fn view(&self) -> EntryView {
        match self {
            AddressEntry::Single(address) => EntryView::Single(address@),
            AddressEntry::Group(members) => EntryView::Group(address_views(members@)),
        }
    }
}

/// The views of a sequence of entries.
pub open spec fn entry_views(entries: Seq<AddressEntry>) -> Seq<EntryView> {
    Seq::new(entries.len(), |i: int| entries[i]@)
}

/// The mailboxes of an entry: the one of a single mailbox, the members of a
/// group.
pub open spec fn members_of(entry: EntryView) -> Seq<AddressView> {
    match entry {
        EntryView::Single(address) => seq![address],
        EntryView::Group(members) => members,
    }
}

/// Every mailbox of every entry has an `@` in its address.
pub open spec fn all_routable(entries: Seq<EntryView>) -> bool {
    forall|i: int, j: int|
        0 <= i < entries.len() && 0 <= j < members_of(entries[i]).len() ==> (#[trigger] members_of(
            entries[i],
        )[j]).addr.contains('@')
}

/// The address list that `mailparse::addrparse` reads out of the field text
/// `raw`; none where it rejects the text.
pub uninterp spec fn parsed_address_list(raw: Seq<char>) -> Option<Seq<EntryView>>;

/// Calls `mailparse::addrparse` and copies the list it returns, entry by
/// entry, with group names left out. Trusted: the outcome depends on the text
/// alone, and every mailbox that the parser returns has an `@` in its address
/// (it builds each through a constructor that refuses any other).
#[verifier::external_body]
fn parse_address_field(raw: &str) -> (r: Result<Vec<AddressEntry>, mailparse::MailParseError>)
    ensures
        match r {
            Ok(entries) => parsed_address_list(raw@) == Some(entry_views(entries@)) && all_routable(
                entry_views(entries@),
            ),
            Err(_) => parsed_address_list(raw@) is None,
        },
{
    let list = mailparse::addrparse(raw)?;
    Ok(list.iter().map(|entry| match entry {
        mailparse::MailAddr::Single(s) => AddressEntry::Single(
            Address { display_name: s.display_name.clone(), addr: s.addr.clone() },
        ),
        mailparse::MailAddr::Group(g) => AddressEntry::Group(
            g.addrs.iter().map(|s| Address {
                display_name: s.display_name.clone(),
                addr: s.addr.clone(),
            }).collect(),
        ),
    }).collect())
}

/// The record that stands for "no recipient found": an empty address and no
/// display name.
pub open spec fn no_address() -> AddressView {
    AddressView { display_name: None, addr: Seq::empty() }
}

/// The first of `members` whose address the pattern `source` matches.
pub open spec fn first_match(source: Seq<char>, members: Seq<AddressView>) -> Option<AddressView>
    decreases members.len(),
{
    if members.len() == 0 {
        None
    } else if pattern_matches(source, members[0].addr) {
        Some(members[0])
    } else {
        first_match(source, members.drop_first())
    }
}

/// The choice among `members`: the patterns are tried in order, each against
/// every member in order, and the first hit decides.
pub open spec fn choice_among(patterns: Seq<Seq<char>>, members: Seq<AddressView>) -> Option<
    AddressView,
>
    decreases patterns.len(),
{
    if patterns.len() == 0 {
        None
    } else {
        match first_match(patterns[0], members) {
            Some(address) => Some(address),
            None => choice_among(patterns.drop_first(), members),
        }
    }
}

/// The choice in a list of entries: that of the first entry that has one.
pub open spec fn choice_in_list(patterns: Seq<Seq<char>>, entries: Seq<EntryView>) -> Option<
    AddressView,
>
    decreases entries.len(),
{
    if entries.len() == 0 {
        None
    } else {
        match choice_among(patterns, members_of(entries[0])) {
            Some(address) => Some(address),
            None => choice_in_list(patterns, entries.drop_first()),
        }
    }
}

/// The recipient that the patterns single out of a parsed `To` field; the
/// empty record where the field did not parse or nothing matches.
pub open spec fn recipient_in(patterns: Seq<Seq<char>>, parsed: Option<Seq<EntryView>>) -> AddressView {
    match parsed {
        Some(entries) => match choice_in_list(patterns, entries) {
            Some(address) => address,
            None => no_address(),
        },
        None => no_address(),
    }
}

/// Why a sender field was rejected.
#[derive(Clone, Copy, Debug, PartialEq, Eq, Structural)]
pub enum AddressParseError {
    /// The field is not an address list.
    Syntax,
    /// The field holds no address, several, or a group.
    NotOneAddress,
}

/// The sender in a parsed `From` field: its only entry, which must be a
/// single mailbox.
pub open spec fn sender_in(parsed: Option<Seq<EntryView>>) -> Result<AddressView, AddressParseError> {
    match parsed {
        None => Err(AddressParseError::Syntax),
        Some(entries) => if entries.len() == 1 && entries[0] is Single {
            Ok(entries[0]->Single_0)
        } else {
            Err(AddressParseError::NotOneAddress)
        },
    }
}

/// Which address of a field is wanted.
#[derive(Clone, Copy, Debug, PartialEq, Eq, Structural)]
pub enum Role {
    /// The field names exactly one sender.
    Sender,
    /// The field lists recipients, of which the patterns choose one.
    RecipientSet,
}

impl Address {
    /// The record that stands for "no recipient found".
    pub fn none() -> (address: Address)
        ensures
            address@ == no_address(),
    {
        Address { display_name: None, addr: String::new() }
    }

    /// A copy of this mailbox.
    pub fn duplicate(&self) -> (copy: Address)
        ensures
            copy@ == self@,
    {
        let display_name = match &self.display_name {
            Some(name) => Some(name.clone()),
            None => None,
        };
        Address { display_name, addr: self.addr.clone() }
    }
}

/// The first of `members` that pattern number `index` matches.
fn find_match(patterns: &PatternSet, index: usize, members: &Vec<Address>) -> (found: Option<
    Address,
>)
    requires
        index < patterns@.len(),
    ensures
        match found {
            Some(address) => first_match(patterns@[index as int], address_views(members@)) == Some(
                address@,
            ),
            None => first_match(patterns@[index as int], address_views(members@)) is None,
        },
{
    let ghost all = address_views(members@);
    let ghost source = patterns@[index as int];
    let mut i: usize = 0;
    assert(all.skip(0) =~= all);
    while i < members.len()
        invariant
            index < patterns@.len(),
            source == patterns@[index as int],
            all == address_views(members@),
            i <= members@.len(),
            first_match(source, all) == first_match(source, all.skip(i as int)),
        decreases members@.len() - i,
    {
        let ghost rest = all.skip(i as int);
        assert(rest[0] == members@[i as int]@);
        assert(rest.drop_first() =~= all.skip(i + 1));
        if patterns.matches(index, members[i].addr.as_str()) {
            return Some(members[i].duplicate());
        }
        i += 1;
    }
    assert(all.skip(i as int).len() == 0);
    None
}

/// Chooses among `members`: tries the patterns in order, each against every
/// member in order, and returns the first member that one of them matches.
pub fn choose_among(patterns: &PatternSet, members: &Vec<Address>) -> (chosen: Option<Address>)
    ensures
        match chosen {
            Some(address) => choice_among(patterns@, address_views(members@)) == Some(address@),
            None => choice_among(patterns@, address_views(members@)) is None,
        },
{
    let ghost all = address_views(members@);
    let mut p: usize = 0;
    assert(patterns@.skip(0) =~= patterns@);
    while p < patterns.len()
        invariant
            all == address_views(members@),
            p <= patterns@.len(),
            choice_among(patterns@, all) == choice_among(patterns@.skip(p as int), all),
        decreases patterns@.len() - p,
    {
        let ghost rest = patterns@.skip(p as int);
        assert(rest[0] == patterns@[p as int]);
        assert(rest.drop_first() =~= patterns@.skip(p + 1));
        match find_match(patterns, p, members) {
            Some(address) => {
                return Some(address);
            },
            None => {},
        }
        p += 1;
    }
    assert(patterns@.skip(p as int).len() == 0);
    None
}

/// Chooses the recipient in a list of entries: the choice of the first entry
/// that has one, or the empty record.
pub fn choose_recipient(patterns: &PatternSet, entries: &Vec<AddressEntry>) -> (chosen: Address)
    ensures
        chosen@ == recipient_in(patterns@, Some(entry_views(entries@))),
{
    let ghost all = entry_views(entries@);
    let mut i: usize = 0;
    assert(all.skip(0) =~= all);
    while i < entries.len()
        invariant
            all == entry_views(entries@),
            i <= entries@.len(),
            choice_in_list(patterns@, all) == choice_in_list(patterns@, all.skip(i as int)),
        decreases entries@.len() - i,
    {
        let ghost rest = all.skip(i as int);
        assert(rest[0] == entries@[i as int]@);
        assert(rest.drop_first() =~= all.skip(i + 1));
        let found = match &entries[i] {
            AddressEntry::Single(address) => {
                let mut one: Vec<Address> = Vec::new();
                one.push(address.duplicate());
                assert(address_views(one@) =~= members_of(rest[0]));
                choose_among(patterns, &one)
            },
            AddressEntry::Group(members) => choose_among(patterns, members),
        };
        match found {
            Some(address) => {
                return address;
            },
            None => {},
        }
        i += 1;
    }
    assert(all.skip(i as int).len() == 0);
    Address::none()
}

/// Resolves the recipient of a raw `To` field.
///
/// A field that does not parse is no error: like a field in which nothing
/// matches, it gives the empty record.
pub fn resolve_recipient(raw: &str, patterns: &PatternSet) -> (recipient: Address)
    ensures
        recipient@ == recipient_in(patterns@, parsed_address_list(raw@)),
        recipient@.addr.len() == 0 || recipient@.addr.contains('@'),
{
    match parse_address_field(raw) {
        Ok(entries) => {
            let chosen = choose_recipient(patterns, &entries);
            proof {
                lemma_choice_is_member(patterns@, entry_views(entries@));
            }
            chosen
        },
        Err(_) => Address::none(),
    }
}

/// The sender in a parsed list: its only entry, where that is a single
/// mailbox.
pub fn sole_address(entries: &Vec<AddressEntry>) -> (r: Result<Address, AddressParseError>)
    ensures
        match r {
            Ok(address) => sender_in(Some(entry_views(entries@))) == Ok::<
                AddressView,
                AddressParseError,
            >(address@),
            Err(e) => sender_in(Some(entry_views(entries@))) == Err::<
                AddressView,
                AddressParseError,
            >(e),
        },
{
    if entries.len() == 1 {
        match &entries[0] {
            AddressEntry::Single(address) => Ok(address.duplicate()),
            AddressEntry::Group(_) => Err(AddressParseError::NotOneAddress),
        }
    } else {
        Err(AddressParseError::NotOneAddress)
    }
}

/// Resolves the sender of a raw `From` field, which must hold exactly one
/// mailbox.
pub fn resolve_sender(raw: &str) -> (r: Result<Address, AddressParseError>)
    ensures
        match r {
            Ok(address) => sender_in(parsed_address_list(raw@)) == Ok::<
                AddressView,
                AddressParseError,
            >(address@) && address@.addr.contains('@'),
            Err(e) => sender_in(parsed_address_list(raw@)) == Err::<AddressView, AddressParseError>(
                e,
            ),
        },
{
    match parse_address_field(raw) {
        Ok(entries) => {
            let r = sole_address(&entries);
            proof {
                if r is Ok {
                    let views = entry_views(entries@);
                    assert(members_of(views[0])[0] == r->Ok_0@);
                }
            }
            r
        },
        Err(_) => Err(AddressParseError::Syntax),
    }
}

/// Resolves the address that `role` asks for out of a raw header field.
pub fn resolve(raw: &str, patterns: &PatternSet, role: Role) -> (r: Result<
    Address,
    AddressParseError,
>)
    ensures
        match r {
            Ok(address) => match role {
                Role::Sender => sender_in(parsed_address_list(raw@)) == Ok::<
                    AddressView,
                    AddressParseError,
                >(address@),
                Role::RecipientSet => address@ == recipient_in(patterns@, parsed_address_list(raw@)),
            },
            Err(e) => role is Sender && sender_in(parsed_address_list(raw@)) == Err::<
                AddressView,
                AddressParseError,
            >(e),
        },
{
    match role {
        Role::Sender => resolve_sender(raw),
        Role::RecipientSet => Ok(resolve_recipient(raw, patterns)),
    }
}

/// `address` is a mailbox of `entries` that one of `patterns` matches.
pub open spec fn is_matching_member(
    patterns: Seq<Seq<char>>,
    entries: Seq<EntryView>,
    address: AddressView,
) -> bool {
    exists|i: int, j: int, p: int|
        0 <= i < entries.len() && 0 <= j < members_of(entries[i]).len() && 0 <= p < patterns.len()
            && #[trigger] members_of(entries[i])[j] == address && pattern_matches(
            #[trigger] patterns[p],
            address.addr,
        )
}

/// What `first_match` finds is a member that the pattern matches, and it
/// finds one wherever there is one.
pub proof fn lemma_first_match(source: Seq<char>, members: Seq<AddressView>)
    ensures
        match first_match(source, members) {
            Some(address) => exists|j: int|
                0 <= j < members.len() && #[trigger] members[j] == address && pattern_matches(
                    source,
                    address.addr,
                ),
            None => forall|j: int|
                0 <= j < members.len() ==> !pattern_matches(source, #[trigger] members[j].addr),
        },
    decreases members.len(),
{
    if members.len() > 0 && !pattern_matches(source, members[0].addr) {
        let rest = members.drop_first();
        lemma_first_match(source, rest);
        match first_match(source, rest) {
            Some(address) => {
                let j = choose|j: int|
                    0 <= j < rest.len() && #[trigger] rest[j] == address && pattern_matches(
                        source,
                        address.addr,
                    );
                assert(members[j + 1] == address);
            },
            None => {
                assert forall|j: int| 0 <= j < members.len() implies !pattern_matches(
                    source,
                    #[trigger] members[j].addr,
                ) by {
                    if j > 0 {
                        assert(rest[j - 1] == members[j]);
                    }
                }
            },
        }
    } else if members.len() > 0 {
        assert(members[0] == first_match(source, members)->Some_0);
    }
}

/// What `choice_among` chooses is a member that one of the patterns matches,
/// and it chooses one wherever some pattern matches some member.
pub proof fn lemma_choice_among(patterns: Seq<Seq<char>>, members: Seq<AddressView>)
    ensures
        match choice_among(patterns, members) {
            Some(address) => exists|j: int, p: int|
                0 <= j < members.len() && 0 <= p < patterns.len() && #[trigger] members[j]
                    == address && pattern_matches(#[trigger] patterns[p], address.addr),
            None => forall|j: int, p: int|
                0 <= j < members.len() && 0 <= p < patterns.len() ==> !pattern_matches(
                    #[trigger] patterns[p],
                    #[trigger] members[j].addr,
                ),
        },
    decreases patterns.len(),
{
    if patterns.len() > 0 {
        lemma_first_match(patterns[0], members);
        match first_match(patterns[0], members) {
            Some(address) => {
                let j = choose|j: int|
                    0 <= j < members.len() && #[trigger] members[j] == address && pattern_matches(
                        patterns[0],
                        address.addr,
                    );
                assert(members[j] == address && pattern_matches(patterns[0], address.addr));
            },
            None => {
                let rest = patterns.drop_first();
                lemma_choice_among(rest, members);
                match choice_among(rest, members) {
                    Some(address) => {
                        let (j, p) = choose|j: int, p: int|
                            0 <= j < members.len() && 0 <= p < rest.len() && #[trigger] members[j]
                                == address && pattern_matches(#[trigger] rest[p], address.addr);
                        assert(members[j] == address && pattern_matches(
                            patterns[p + 1],
                            address.addr,
                        ));
                    },
                    None => {
                        assert forall|j: int, p: int|
                            0 <= j < members.len() && 0 <= p < patterns.len() implies !pattern_matches(
                            #[trigger] patterns[p],
                            #[trigger] members[j].addr,
                        ) by {
                            if p > 0 {
                                assert(rest[p - 1] == patterns[p]);
                            }
                        }
                    },
                }
            },
        }
    }
}

/// The recipient that is chosen is a mailbox of the list that some pattern
/// matches; none is chosen only where no pattern matches any mailbox. Where
/// every mailbox of the list has an `@`, so has the recipient unless it is
/// empty.
pub proof fn lemma_choice_is_member(patterns: Seq<Seq<char>>, entries: Seq<EntryView>)
    ensures
        match choice_in_list(patterns, entries) {
            Some(address) => is_matching_member(patterns, entries, address),
            None => forall|address: AddressView| !is_matching_member(patterns, entries, address),
        },
        all_routable(entries) ==> ({
            let recipient = recipient_in(patterns, Some(entries));
            recipient.addr.len() == 0 || recipient.addr.contains('@')
        }),
    decreases entries.len(),
{
    if entries.len() > 0 {
        let members = members_of(entries[0]);
        lemma_choice_among(patterns, members);
        match choice_among(patterns, members) {
            Some(address) => {
                let (j, p) = choose|j: int, p: int|
                    0 <= j < members.len() && 0 <= p < patterns.len() && #[trigger] members[j]
                        == address && pattern_matches(#[trigger] patterns[p], address.addr);
                assert(members_of(entries[0])[j] == address && pattern_matches(
                    patterns[p],
                    address.addr,
                ));
            },
            None => {
                let rest = entries.drop_first();
                lemma_choice_is_member(patterns, rest);
                assert(all_routable(entries) ==> all_routable(rest)) by {
                    if all_routable(entries) {
                        assert forall|i: int, j: int|
                            0 <= i < rest.len() && 0 <= j < members_of(rest[i]).len() implies (
                        #[trigger] members_of(rest[i])[j]).addr.contains('@') by {
                            assert(rest[i] == entries[i + 1]);
                            assert(members_of(entries[i + 1])[j].addr.contains('@'));
                        }
                    }
                }
                match choice_in_list(patterns, rest) {
                    Some(address) => {
                        let (i, j, p) = choose|i: int, j: int, p: int|
                            0 <= i < rest.len() && 0 <= j < members_of(rest[i]).len() && 0 <= p
                                < patterns.len() && #[trigger] members_of(rest[i])[j] == address
                                && pattern_matches(#[trigger] patterns[p], address.addr);
                        assert(rest[i] == entries[i + 1]);
                        assert(members_of(entries[i + 1])[j] == address && pattern_matches(
                            patterns[p],
                            address.addr,
                        ));
                    },
                    None => {
                        assert forall|address: AddressView|
                            !is_matching_member(patterns, entries, address) by {
                            if is_matching_member(patterns, entries, address) {
                                let (i, j, p) = choose|i: int, j: int, p: int|
                                    0 <= i < entries.len() && 0 <= j < members_of(entries[i]).len()
                                        && 0 <= p < patterns.len() && #[trigger] members_of(
                                        entries[i],
                                    )[j] == address && pattern_matches(
                                        #[trigger] patterns[p],
                                        address.addr,
                                    );
                                if i == 0 {
                                    assert(!pattern_matches(patterns[p], members[j].addr));
                                } else {
                                    assert(rest[i - 1] == entries[i]);
                                    assert(members_of(rest[i - 1])[j] == address);
                                    assert(is_matching_member(patterns, rest, address));
                                }
                            }
                        }
                    },
                }
            },
        }
    }
    if all_routable(entries) {
        match choice_in_list(patterns, entries) {
            Some(address) => {
                let (i, j, p) = choose|i: int, j: int, p: int|
                    0 <= i < entries.len() && 0 <= j < members_of(entries[i]).len() && 0 <= p
                        < patterns.len() && #[trigger] members_of(entries[i])[j] == address
                        && pattern_matches(#[trigger] patterns[p], address.addr);
                assert(members_of(entries[i])[j].addr.contains('@'));
            },
            None => {},
        }
    }
}

} // verus!
