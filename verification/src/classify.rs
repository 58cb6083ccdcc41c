//! The rules that send a message to a folder: an ordered list, of which the
//! first rule that applies decides.

use crate::header::{CanonicalHeader, HeaderView};
use crate::text::{before_first, ends_with, text_before_first, texts};
use vstd::prelude::*;
use vstd::string::*;

verus! {

/// What to do with a message.
#[derive(Clone, Debug, PartialEq, Eq)]
pub enum Decision {
    /// Move it to this folder.
    Move(String),
    /// Leave it where it is.
    NoAction,
}

/// A decision, with the folder as a character sequence.
pub enum DecisionView {
    Move(Seq<char>),
    NoAction,
}

impl View for Decision {
    type V = DecisionView;

    open spec fn view(&self) -> DecisionView {
        match self {
            Decision::Move(folder) => DecisionView::Move(folder@),
            Decision::NoAction => DecisionView::NoAction,
        }
    }
}

/// One rule: a test on the record of a message, and the folder for the
/// messages that pass it.
#[derive(Clone, Debug, PartialEq, Eq)]
pub enum Rule {
    /// Mail whose sender address ends with `suffix` goes to `folder`.
    SenderDomain { suffix: String, folder: String },
    /// Mail to an account that is none of `general` goes to that account's
    /// folder, whose name is `prefix` followed by the account's name.
    OtherAccount { general: Vec<String>, prefix: String },
    /// Mail without a recipient goes to `folder`.
    NoRecipient { folder: String },
}

/// A rule, as character sequences.
pub enum RuleView {
    SenderDomain { suffix: Seq<char>, folder: Seq<char> },
    OtherAccount { general: Seq<Seq<char>>, prefix: Seq<char> },
    NoRecipient { folder: Seq<char> },
}

impl View for Rule {
    type V = RuleView;

    open spec fn view(&self) -> RuleView {
        match self {
            Rule::SenderDomain { suffix, folder } => RuleView::SenderDomain {
                suffix: suffix@,
                folder: folder@,
            },
            Rule::OtherAccount { general, prefix } => RuleView::OtherAccount {
                general: texts(general@),
                prefix: prefix@,
            },
            Rule::NoRecipient { folder } => RuleView::NoRecipient { folder: folder@ },
        }
    }
}

/// The rule list, in the order in which the rules are tried.
#[derive(Clone, Debug, PartialEq, Eq)]
pub struct Rules {
    pub entries: Vec<Rule>,
}

impl View for Rules {
    type V = Seq<RuleView>;

    open spec fn view(&self) -> Seq<RuleView> {
        Seq::new(self.entries@.len(), |i: int| self.entries@[i]@)
    }
}

/// The account that an address belongs to: what stands before its first `@`.
pub open spec fn local_part(address: Seq<char>) -> Seq<char> {
    before_first(address, '@')
}

/// Whether `rule` applies to the message that `header` is of.
pub open spec fn applies(rule: RuleView, header: HeaderView) -> bool {
    match rule {
        RuleView::SenderDomain { suffix, folder } => suffix.is_suffix_of(header.from_address),
        RuleView::OtherAccount { general, prefix } => header.to_address.len() > 0
            && !general.contains(local_part(header.to_address)),
        RuleView::NoRecipient { folder } => header.to_address.len() == 0,
    }
}

/// The folder that `rule` sends the message to.
pub open spec fn destination(rule: RuleView, header: HeaderView) -> Seq<char> {
    match rule {
        RuleView::SenderDomain { suffix, folder } => folder,
        RuleView::OtherAccount { general, prefix } => prefix + local_part(header.to_address),
        RuleView::NoRecipient { folder } => folder,
    }
}

/// The decision for a message: the folder of the first rule that applies,
/// and no action where none applies.
pub open spec fn decide(header: HeaderView, rules: Seq<RuleView>) -> DecisionView
    decreases rules.len(),
{
    if rules.len() == 0 {
        DecisionView::NoAction
    } else if applies(rules[0], header) {
        DecisionView::Move(destination(rules[0], header))
    } else {
        decide(header, rules.drop_first())
    }
}

/// The sender domains that have a folder of their own, in the order in which
/// they are tried.
pub open spec fn standard_domains() -> Seq<(Seq<char>, Seq<char>)> {
    seq![
        ("@uos.ac.kr"@, "UOS"@),
        ("@linkedin.com"@, "Special/Linked in"@),
        ("@inflearn.com"@, "Special/Inflearn"@),
        ("@accounts.google.com"@, "Special/Google"@),
        ("@x.com"@, "Special/X"@),
    ]
}

/// The standard rule list.
///
/// A sender domain with a folder of its own decides first. After that, mail
/// to an account that is not a general one goes to that account's folder,
/// and mail without a recipient goes to the folder for copies. What is left,
/// mail to a general account, stays where it is.
pub open spec fn standard_rules(general: Seq<Seq<char>>) -> Seq<RuleView> {
    Seq::new(standard_domains().len(), |i: int| sender_rule(standard_domains()[i])) + seq![
        RuleView::OtherAccount { general, prefix: "Special/"@ },
        RuleView::NoRecipient { folder: "Cc"@ },
    ]
}

/// The rule of one sender domain and its folder.
pub open spec fn sender_rule(domain: (Seq<char>, Seq<char>)) -> RuleView {
    RuleView::SenderDomain { suffix: domain.0, folder: domain.1 }
}

/// Whether `item` is one of `list`.
fn contains_text(list: &Vec<String>, item: &String) -> (found: bool)
    ensures
        found == texts(list@).contains(item@),
{
    let mut i: usize = 0;
    while i < list.len()
        invariant
            i <= list@.len(),
            forall|j: int| 0 <= j < i ==> texts(list@)[j] != item@,
        decreases list@.len() - i,
    {
        if list[i] == *item {
            assert(texts(list@)[i as int] == item@);
            return true;
        }
        i += 1;
    }
    false
}

impl Rule {
    /// The rule that sends mail from senders at `suffix` to `folder`.
    pub fn sender_domain(suffix: &str, folder: &str) -> (rule: Rule)
        ensures
            rule@ == (RuleView::SenderDomain { suffix: suffix@, folder: folder@ }),
    {
        Rule::SenderDomain { suffix: suffix.to_owned(), folder: folder.to_owned() }
    }

    /// The folder that this rule sends the message to, where it applies.
    pub fn folder_for(&self, header: &CanonicalHeader) -> (folder: Option<String>)
        ensures
            match folder {
                Some(name) => applies(self@, header@) && name@ == destination(self@, header@),
                None => !applies(self@, header@),
            },
    {
        match self {
            Rule::SenderDomain { suffix, folder } => {
                if ends_with(header.from_address(), suffix.as_str()) {
                    Some(folder.clone())
                } else {
                    None
                }
            },
            Rule::OtherAccount { general, prefix } => {
                let to = header.to_address();
                if to.is_empty() {
                    return None;
                }
                let local = text_before_first(to, '@');
                if contains_text(general, &local) {
                    None
                } else {
                    Some(prefix.clone().concat(local.as_str()))
                }
            },
            Rule::NoRecipient { folder } => {
                if header.to_address().is_empty() {
                    Some(folder.clone())
                } else {
                    None
                }
            },
        }
    }
}

impl Rules {
    /// The standard rule list, with the given general accounts.
    pub fn standard(general_accounts: Vec<String>) -> (rules: Rules)
        ensures
            rules@ == standard_rules(texts(general_accounts@)),
    {
        let mut entries: Vec<Rule> = Vec::new();
        entries.push(Rule::sender_domain("@uos.ac.kr", "UOS"));
        entries.push(Rule::sender_domain("@linkedin.com", "Special/Linked in"));
        entries.push(Rule::sender_domain("@inflearn.com", "Special/Inflearn"));
        entries.push(Rule::sender_domain("@accounts.google.com", "Special/Google"));
        entries.push(Rule::sender_domain("@x.com", "Special/X"));
        entries.push(
            Rule::OtherAccount { general: general_accounts, prefix: "Special/".to_owned() },
        );
        entries.push(Rule::NoRecipient { folder: "Cc".to_owned() });
        let rules = Rules { entries };
        assert(rules@ =~= standard_rules(texts(general_accounts@)));
        rules
    }
}

/// Decides what to do with the message that `header` is of.
pub fn classify(header: &CanonicalHeader, rules: &Rules) -> (decision: Decision)
    ensures
        decision@ == decide(header@, rules@),
{
    let ghost all = rules@;
    let mut i: usize = 0;
    assert(all.skip(0) =~= all);
    while i < rules.entries.len()
        invariant
            all == rules@,
            i <= rules.entries@.len(),
            decide(header@, all) == decide(header@, all.skip(i as int)),
        decreases rules.entries@.len() - i,
    {
        let ghost rest = all.skip(i as int);
        assert(rest[0] == rules.entries@[i as int]@);
        assert(rest.drop_first() =~= all.skip(i + 1));
        match rules.entries[i].folder_for(header) {
            Some(folder) => {
                return Decision::Move(folder);
            },
            None => {},
        }
        i += 1;
    }
    assert(all.skip(i as int).len() == 0);
    Decision::NoAction
}

/// `index` is the first rule of `rules` that applies to `header`.
pub open spec fn is_first_applying(header: HeaderView, rules: Seq<RuleView>, index: int) -> bool {
    &&& 0 <= index < rules.len()
    &&& applies(rules[index], header)
    &&& forall|j: int| 0 <= j < index ==> !applies(#[trigger] rules[j], header)
}

/// No rule of `rules` applies to `header`.
pub open spec fn none_applies(header: HeaderView, rules: Seq<RuleView>) -> bool {
    forall|j: int| 0 <= j < rules.len() ==> !applies(#[trigger] rules[j], header)
}

/// First match wins: the decision is the move of the first rule that
/// applies, and is no action exactly where no rule applies.
pub proof fn lemma_first_rule_decides(header: HeaderView, rules: Seq<RuleView>)
    ensures
        forall|i: int|
            is_first_applying(header, rules, i) ==> decide(header, rules) == DecisionView::Move(
                destination(rules[i], header),
            ),
        decide(header, rules) is NoAction <==> none_applies(header, rules),
    decreases rules.len(),
{
    if rules.len() > 0 {
        let rest = rules.drop_first();
        lemma_first_rule_decides(header, rest);
        if !applies(rules[0], header) {
            assert forall|i: int| is_first_applying(header, rules, i) implies decide(header, rules)
                == DecisionView::Move(destination(rules[i], header)) by {
                assert(i > 0);
                assert forall|j: int| 0 <= j < i - 1 implies !applies(#[trigger] rest[j], header) by {
                    assert(rest[j] == rules[j + 1]);
                }
                assert(rest[i - 1] == rules[i]);
                assert(is_first_applying(header, rest, i - 1));
            }
            if none_applies(header, rest) {
                assert forall|j: int| 0 <= j < rules.len() implies !applies(
                    #[trigger] rules[j],
                    header,
                ) by {
                    if j > 0 {
                        assert(rest[j - 1] == rules[j]);
                    }
                }
            }
            if none_applies(header, rules) {
                assert forall|j: int| 0 <= j < rest.len() implies !applies(
                    #[trigger] rest[j],
                    header,
                ) by {
                    assert(rest[j] == rules[j + 1]);
                }
            }
        } else {
            assert forall|i: int| is_first_applying(header, rules, i) implies i == 0 by {
                if i > 0 {
                    assert(!applies(rules[0], header));
                }
            }
        }
    }
}

/// The character of `text` that stands `back` places before its last one is
/// that of any suffix of `text` at the same place.
proof fn lemma_suffix_char(suffix: Seq<char>, text: Seq<char>, back: int)
    requires
        suffix.is_suffix_of(text),
        0 <= back < suffix.len(),
    ensures
        text[text.len() - 1 - back] == suffix[suffix.len() - 1 - back],
{
    let tail = text.subrange(text.len() - suffix.len(), text.len() as int);
    assert(tail[suffix.len() - 1 - back] == suffix[suffix.len() - 1 - back]);
}

/// No sender address ends with two of the standard domains.
pub proof fn lemma_standard_domains_exclusive(from: Seq<char>, i: int, j: int)
    requires
        0 <= i < j < standard_domains().len(),
        standard_domains()[i].0.is_suffix_of(from),
    ensures
        !standard_domains()[j].0.is_suffix_of(from),
{
    reveal_strlit("@uos.ac.kr");
    reveal_strlit("@linkedin.com");
    reveal_strlit("@inflearn.com");
    reveal_strlit("@accounts.google.com");
    reveal_strlit("@x.com");
    let a = standard_domains()[i].0;
    let b = standard_domains()[j].0;
    if b.is_suffix_of(from) {
        if i == 0 {
            lemma_suffix_char(a, from, 0);
            lemma_suffix_char(b, from, 0);
        } else if i == 1 && j == 2 {
            lemma_suffix_char(a, from, 5);
            lemma_suffix_char(b, from, 5);
        } else {
            lemma_suffix_char(a, from, 4);
            lemma_suffix_char(b, from, 4);
        }
    }
}

/// The sender address `from` ends with none of the standard domains.
pub open spec fn no_special_domain(from: Seq<char>) -> bool {
    forall|i: int|
        0 <= i < standard_domains().len() ==> !(#[trigger] standard_domains()[i]).0.is_suffix_of(
            from,
        )
}

/// Under the standard rules, mail from a sender whose address ends with one
/// of the standard domains is moved to that domain's folder, whatever else
/// the header holds.
pub proof fn lemma_special_sender_moves(header: HeaderView, general: Seq<Seq<char>>, index: int)
    requires
        0 <= index < standard_domains().len(),
        standard_domains()[index].0.is_suffix_of(header.from_address),
    ensures
        decide(header, standard_rules(general)) == DecisionView::Move(standard_domains()[index].1),
{
    let rules = standard_rules(general);
    assert forall|j: int| 0 <= j < index implies !applies(#[trigger] rules[j], header) by {
        if standard_domains()[j].0.is_suffix_of(header.from_address) {
            lemma_standard_domains_exclusive(header.from_address, j, index);
        }
    }
    assert(is_first_applying(header, rules, index));
    lemma_first_rule_decides(header, rules);
}

/// Under the standard rules, mail from no special domain to a general
/// account stays where it is.
pub proof fn lemma_general_account_stays(header: HeaderView, general: Seq<Seq<char>>)
    requires
        no_special_domain(header.from_address),
        header.to_address.len() > 0,
        general.contains(local_part(header.to_address)),
    ensures
        decide(header, standard_rules(general)) == DecisionView::NoAction,
{
    let rules = standard_rules(general);
    assert forall|j: int| 0 <= j < rules.len() implies !applies(#[trigger] rules[j], header) by {
        if j < standard_domains().len() {
            assert(!standard_domains()[j].0.is_suffix_of(header.from_address));
        }
    }
    lemma_first_rule_decides(header, rules);
}

/// Under the standard rules, mail from no special domain to an account that
/// is not a general one is moved to that account's folder.
pub proof fn lemma_other_account_moves(header: HeaderView, general: Seq<Seq<char>>)
    requires
        no_special_domain(header.from_address),
        header.to_address.len() > 0,
        !general.contains(local_part(header.to_address)),
    ensures
        decide(header, standard_rules(general)) == DecisionView::Move(
            "Special/"@ + local_part(header.to_address),
        ),
{
    let rules = standard_rules(general);
    let index = standard_domains().len() as int;
    assert forall|j: int| 0 <= j < index implies !applies(#[trigger] rules[j], header) by {
        assert(!standard_domains()[j].0.is_suffix_of(header.from_address));
    }
    assert(is_first_applying(header, rules, index));
    lemma_first_rule_decides(header, rules);
}

/// Under the standard rules, mail from no special domain without a recipient
/// is moved to the folder for copies.
pub proof fn lemma_no_recipient_moves(header: HeaderView, general: Seq<Seq<char>>)
    requires
        no_special_domain(header.from_address),
        header.to_address.len() == 0,
    ensures
        decide(header, standard_rules(general)) == DecisionView::Move("Cc"@),
{
    let rules = standard_rules(general);
    let index = standard_domains().len() as int + 1;
    assert forall|j: int| 0 <= j < index implies !applies(#[trigger] rules[j], header) by {
        if j < standard_domains().len() {
            assert(!standard_domains()[j].0.is_suffix_of(header.from_address));
        }
    }
    assert(is_first_applying(header, rules, index));
    lemma_first_rule_decides(header, rules);
}

/// Under the standard rules, a message stays where it is only if it comes
/// from no special domain and goes to a general account.
pub proof fn lemma_no_action_only_for_general(header: HeaderView, general: Seq<Seq<char>>)
    requires
        decide(header, standard_rules(general)) is NoAction,
    ensures
        no_special_domain(header.from_address),
        header.to_address.len() > 0,
        general.contains(local_part(header.to_address)),
{
    let rules = standard_rules(general);
    lemma_first_rule_decides(header, rules);
    assert forall|i: int| 0 <= i < standard_domains().len() implies !(
    #[trigger] standard_domains()[i]).0.is_suffix_of(header.from_address) by {
        assert(!applies(rules[i], header));
    }
    assert(!applies(rules[standard_domains().len() as int], header));
    assert(!applies(rules[standard_domains().len() as int + 1], header));
}

} // verus!
