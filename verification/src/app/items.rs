//! What the lists of services, journal entries and network interfaces show and find.
use vstd::prelude::*;

use crate::app::list::{Item, Key, Tag};
use crate::app::process_order;
use crate::linux::journal;
use crate::linux::journal::{priority_label, JournalEntry};
use crate::linux::network::NetworkInterfaceInfo;
use crate::linux::service::ServiceInfo;
use crate::numerals;
use crate::numerals::to_decimal;
use crate::text;
use crate::text::{characters, contains_chars, same_text, to_lowercase};

verus! {

broadcast use vstd::string::group_string_axioms;

/// One of these texts holds a query. Nothing is asked by the empty query, so that it holds
/// whatever the texts are.
pub open spec fn texts_hold(texts: Seq<Seq<char>>, query: Seq<char>) -> bool {
    query.len() == 0 || exists|i: int|
        0 <= i < texts.len() && text::contains(#[trigger] texts[i], query)
}

/// Whether one of these texts holds a query.
pub fn any_holds(texts: &Vec<String>, query: &Vec<char>) -> (found: bool)
    ensures
        found == texts_hold(text::views(texts@), query@),
{
    if query.len() == 0 {
        return true;
    }
    let mut i: usize = 0;
    while i < texts.len()
        invariant
            i <= texts@.len(),
            forall|j: int| 0 <= j < i ==> !text::contains(#[trigger] texts@[j]@, query@),
        decreases texts@.len() - i,
    {
        assert(text::views(texts@)[i as int] == texts@[i as int]@);
        if contains_chars(&characters(texts[i].as_str()), query) {
            return true;
        }
        i += 1;
    }
    assert forall|j: int| 0 <= j < texts@.len() implies !text::contains(
        #[trigger] text::views(texts@)[j],
        query@,
    ) by {
        assert(text::views(texts@)[j] == texts@[j]@);
    }
    false
}

/// What a service is searched by: its unit, its description and its states, in lower case.
pub open spec fn service_texts(service: ServiceInfo) -> Seq<Seq<char>> {
    seq![
        text::lowercase(service.unit@),
        text::lowercase(service.description@),
        text::lowercase(service.load_state@),
        text::lowercase(service.active_state@),
        text::lowercase(service.sub_state@),
    ]
}

/// A service is found by a query, itself in lower case.
pub open spec fn service_found(service: ServiceInfo, query: Seq<char>) -> bool {
    texts_hold(service_texts(service), query)
}

pub fn service_matches(service: &ServiceInfo, query: &Vec<char>) -> (found: bool)
    ensures
        found == service_found(*service, query@),
{
    let mut texts: Vec<String> = Vec::new();
    texts.push(to_lowercase(service.unit.as_str()));
    texts.push(to_lowercase(service.description.as_str()));
    texts.push(to_lowercase(service.load_state.as_str()));
    texts.push(to_lowercase(service.active_state.as_str()));
    texts.push(to_lowercase(service.sub_state.as_str()));
    assert(text::views(texts@) =~= service_texts(*service));
    any_holds(&texts, query)
}

impl Item for ServiceInfo {
    open spec fn tag(self) -> Tag {
        Tag::Name(self.unit@)
    }

    open spec fn found_by(self, query: Seq<char>) -> bool {
        service_found(self, query)
    }

    fn key(&self) -> (key: Key) {
        Key::Name(self.unit.clone())
    }

    fn has_key(&self, key: &Key) -> (result: bool) {
        match key {
            Key::Name(unit) => same_text(self.unit.as_str(), unit.as_str()),
            Key::Number(_) => false,
        }
    }

    fn matches(&self, query: &Vec<char>) -> (found: bool) {
        service_matches(self, query)
    }
}

/// What the severity of an entry is searched by: its number and its name, and for a warning the
/// whole word too.
pub open spec fn severity_texts(priority: Option<u8>) -> Seq<Seq<char>> {
    match priority {
        Some(level) => {
            let texts = seq![numerals::decimal(level as nat), journal::priority_name(priority)];
            if level == 4 {
                texts.push("warning"@)
            } else {
                texts
            }
        },
        None => Seq::empty(),
    }
}

/// The texts that a severity is searched by.
pub fn list_severity(priority: Option<u8>) -> (texts: Vec<String>)
    ensures
        text::views(texts@) == severity_texts(priority),
{
    let mut texts: Vec<String> = Vec::new();
    match priority {
        Some(level) => {
            texts.push(to_decimal(level as u64));
            texts.push(String::from_str(priority_label(priority)));
            if level == 4 {
                texts.push(String::from_str("warning"));
            }
        },
        None => {},
    }
    assert(text::views(texts@) =~= severity_texts(priority));
    texts
}

/// What an entry is searched by: its severity, and its source and message in lower case.
pub open spec fn log_texts(entry: JournalEntry) -> Seq<Seq<char>> {
    severity_texts(entry.priority).push(text::lowercase(entry.source@)).push(
        text::lowercase(entry.message@),
    )
}

/// A journal entry is found by a query, itself in lower case.
pub open spec fn log_found(entry: JournalEntry, query: Seq<char>) -> bool {
    texts_hold(log_texts(entry), query)
}

/// Whether a query, given in lower case, finds an entry.
pub fn log_matches(entry: &JournalEntry, query: &str) -> (found: bool)
    ensures
        found == log_found(*entry, query@),
{
    log_matches_chars(entry, &characters(query))
}

fn log_matches_chars(entry: &JournalEntry, query: &Vec<char>) -> (found: bool)
    ensures
        found == log_found(*entry, query@),
{
    let mut texts = list_severity(entry.priority);
    let ghost severity = texts@;
    texts.push(to_lowercase(entry.source.as_str()));
    texts.push(to_lowercase(entry.message.as_str()));
    assert(text::views(texts@) =~= text::views(severity).push(text::lowercase(entry.source@)).push(
        text::lowercase(entry.message@),
    ));
    any_holds(&texts, query)
}

impl Item for JournalEntry {
    open spec fn tag(self) -> Tag {
        Tag::Number(self.id)
    }

    open spec fn found_by(self, query: Seq<char>) -> bool {
        log_found(self, query)
    }

    fn key(&self) -> (key: Key) {
        Key::Number(self.id)
    }

    fn has_key(&self, key: &Key) -> (result: bool) {
        match key {
            Key::Name(_) => false,
            Key::Number(id) => self.id == *id,
        }
    }

    fn matches(&self, query: &Vec<char>) -> (found: bool) {
        log_matches_chars(self, query)
    }
}

/// Interfaces are not searched: all are shown.
impl Item for NetworkInterfaceInfo {
    open spec fn tag(self) -> Tag {
        Tag::Name(self.name@)
    }

    open spec fn found_by(self, query: Seq<char>) -> bool {
        true
    }

    fn key(&self) -> (key: Key) {
        Key::Name(self.name.clone())
    }

    fn has_key(&self, key: &Key) -> (result: bool) {
        match key {
            Key::Name(name) => same_text(self.name.as_str(), name.as_str()),
            Key::Number(_) => false,
        }
    }

    fn matches(&self, query: &Vec<char>) -> (found: bool) {
        true
    }
}

} // verus!
