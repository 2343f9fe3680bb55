//! The event mapping table: per event ID, its description and the CEF fields to fill.
use vstd::prelude::*;

use crate::assoc::{assoc_put, put_entry};
use crate::builtin::EVENT_MAPPINGS;
use crate::text::{decimal, usize_text, drop_all, join, join_with, parse_usize, parsed_usize, split, split_on, trim, trimmed, without};

verus! {

/// What the csv crate reads from a text, with records of any length accepted and no
/// header row: the records it could read, each as its fields, in order.
pub uninterp spec fn csv_records_of(text: Seq<char>) -> Seq<Seq<Seq<char>>>;

/// Relies on csv's `ReaderBuilder` (flexible, without headers) and `Reader::records`:
/// the records of the text, each as its fields; a record that fails to read is left out.
#[verifier::external_body]
fn csv_records(text: &str) -> (r: Vec<Vec<String>>)
    ensures
        r.deep_view() == csv_records_of(text@),
{
    csv::ReaderBuilder::new()
        .flexible(true)
        .has_headers(false)
        .from_reader(text.as_bytes())
        .records()
        .filter_map(|rec| rec.ok())
        .map(|rec| rec.iter().map(|f| f.to_string()).collect())
        .collect()
}

/// An event's entry in the mapping table.
pub struct WinEvent {
    /// Event ID.
    pub event_id: usize,
    /// Category of the event.
    pub category: String,
    /// Sub-category of the event.
    pub sub_category: String,
    /// Expected outcome of the event.
    pub outcome: String,
    /// Channel it is logged to.
    pub channel: String,
    /// Name of the event.
    pub name: String,
    /// The CEF fields to fill, as target label and rule text, in order.
    pub mapping_info: Option<Vec<(String, String)>>,
}

/// What a mapping entry holds, as plain values.
pub struct WinEventView {
    pub event_id: usize,
    pub category: Seq<char>,
    pub sub_category: Seq<char>,
    pub outcome: Seq<char>,
    pub channel: Seq<char>,
    pub name: Seq<char>,
    pub mapping_info: Option<Seq<(Seq<char>, Seq<char>)>>,
}

impl View for WinEvent {
    type V = WinEventView;

    open spec fn view(&self) -> WinEventView {
        WinEventView {
            event_id: self.event_id,
            category: self.category@,
            sub_category: self.sub_category@,
            outcome: self.outcome@,
            channel: self.channel@,
            name: self.name@,
            mapping_info: match self.mapping_info {
                Some(m) => Some(m.deep_view()),
                None => None,
            },
        }
    }
}

/// The fields of a record that are not empty, in order.
pub open spec fn filled(fields: Seq<Seq<char>>) -> Seq<Seq<char>>
    decreases fields.len(),
{
    if fields.len() == 0 {
        Seq::empty()
    } else if fields.last().len() == 0 {
        filled(fields.drop_last())
    } else {
        filled(fields.drop_last()).push(fields.last())
    }
}

/// A part of a mapping field with its single quotes taken out and trimmed.
pub open spec fn unquoted(s: Seq<char>) -> Seq<char> {
    trimmed(drop_all(s, '\''))
}

/// A `label:'rule'` field as its label and rule text; the rule is all after the first colon.
pub open spec fn rule_pair(field: Seq<char>) -> Option<(Seq<char>, Seq<char>)> {
    let p = split_on(field, ':');
    if p.len() >= 2 {
        Some((unquoted(p[0]), unquoted(join(p.skip(1), ":"@))))
    } else {
        None
    }
}

/// The rules of the given fields, in order; a later rule for the same label replaces an
/// earlier one, and a field without a colon is passed over.
pub open spec fn rules_of(fields: Seq<Seq<char>>) -> Seq<(Seq<char>, Seq<char>)>
    decreases fields.len(),
{
    if fields.len() == 0 {
        Seq::empty()
    } else {
        let r = rules_of(fields.drop_last());
        match rule_pair(fields.last()) {
            Some(p) => assoc_put(r, p.0, p.1),
            None => r,
        }
    }
}

/// The entry that a record gives: its first six filled fields are the ID, category,
/// sub-category, outcome, channel and name, and the rest its rules. A record with fewer
/// fields or an ID that is no number gives none.
pub open spec fn entry_of(record: Seq<Seq<char>>) -> Option<WinEventView> {
    let f = filled(record);
    if f.len() >= 6 && parsed_usize(f[0]) is Some {
        let rules = rules_of(f.skip(6));
        Some(
            WinEventView {
                event_id: parsed_usize(f[0])->0,
                category: f[1],
                sub_category: f[2],
                outcome: f[3],
                channel: f[4],
                name: f[5],
                mapping_info: if rules.len() == 0 {
                    None
                } else {
                    Some(rules)
                },
            },
        )
    } else {
        None
    }
}

/// The entries of the given records, in order.
pub open spec fn entries_of(records: Seq<Seq<Seq<char>>>) -> Seq<WinEventView>
    decreases records.len(),
{
    if records.len() == 0 {
        Seq::empty()
    } else {
        let e = entries_of(records.drop_last());
        match entry_of(records.last()) {
            Some(w) => e.push(w),
            None => e,
        }
    }
}

/// The last entry for `id`.
pub open spec fn event_lookup(events: Seq<WinEventView>, id: usize) -> Option<WinEventView>
    decreases events.len(),
{
    if events.len() == 0 {
        None
    } else if events.last().event_id == id {
        Some(events.last())
    } else {
        event_lookup(events.drop_last(), id)
    }
}

/// The event mapping table.
pub struct EventMapping {
    pub events: Vec<WinEvent>,
}

impl EventMapping {
    /// The entries, as plain values.
    pub open spec fn entries(&self) -> Seq<WinEventView> {
        self.events@.map_values(|e: WinEvent| e@)
    }

    /// The entry that governs `id`: the last one for it.
    pub open spec fn entry(&self, id: usize) -> Option<WinEventView> {
        event_lookup(self.entries(), id)
    }

    /// The position of the last entry for `id`.
    fn position(&self, id: usize) -> (r: Option<usize>)
        ensures
            match r {
                Some(i) => i < self.events.len() && self.entry(id) == Some(self.events[i as int]@),
                None => self.entry(id) is None,
            },
    {
        let ghost es = self.entries();
        let mut i: usize = self.events.len();
        assert(es.take(i as int) =~= es);
        while i > 0
            invariant
                es == self.entries(),
                i <= self.events.len(),
                self.entry(id) == event_lookup(es.take(i as int), id),
            decreases i,
        {
            assert(es.take(i as int).drop_last() =~= es.take(i - 1));
            if self.events[i - 1].event_id == id {
                return Some(i - 1);
            }
            i = i - 1;
        }
        None
    }

    /// The table that a sequence of records gives.
    pub fn from_records(records: &Vec<Vec<String>>) -> (r: EventMapping)
        ensures
            r.entries() == entries_of(records.deep_view()),
    {
        let ghost rs = records.deep_view();
        let mut events: Vec<WinEvent> = Vec::new();
        let mut i: usize = 0;
        assert(rs.take(0) =~= Seq::<Seq<Seq<char>>>::empty());
        assert(events@.map_values(|e: WinEvent| e@) =~= Seq::<WinEventView>::empty());
        while i < records.len()
            invariant
                rs == records.deep_view(),
                i <= records.len(),
                events@.map_values(|e: WinEvent| e@) == entries_of(rs.take(i as int)),
            decreases records.len() - i,
        {
            assert(rs.take(i + 1).drop_last() =~= rs.take(i as int));
            assert(rs[i as int] == records[i as int].deep_view());
            match win_event_of(&records[i]) {
                Some(e) => {
                    let ghost before = events@.map_values(|e: WinEvent| e@);
                    let ghost ev = e@;
                    events.push(e);
                    assert(events@.map_values(|e: WinEvent| e@) =~= before.push(ev));
                },
                None => {},
            }
            i = i + 1;
        }
        assert(rs.take(i as int) =~= rs);
        EventMapping { events }
    }
}

/// The fields of a record that are not empty, in order.
fn filled_fields(record: &Vec<String>) -> (r: Vec<String>)
    ensures
        r.deep_view() == filled(record.deep_view()),
{
    let ghost fs = record.deep_view();
    let mut out: Vec<String> = Vec::new();
    let mut i: usize = 0;
    assert(fs.take(0) =~= Seq::<Seq<char>>::empty());
    while i < record.len()
        invariant
            fs == record.deep_view(),
            i <= record.len(),
            out.deep_view() == filled(fs.take(i as int)),
        decreases record.len() - i,
    {
        assert(fs.take(i + 1).drop_last() =~= fs.take(i as int));
        assert(fs[i as int] == record[i as int]@);
        if !record[i].as_str().is_empty() {
            let ghost before = out.deep_view();
            let f = record[i].clone();
            out.push(f);
            assert(out.deep_view() =~= before.push(fs[i as int]));
        }
        i = i + 1;
    }
    assert(fs.take(i as int) =~= fs);
    out
}

/// A part of a mapping field with its single quotes taken out and trimmed.
fn unquote(s: &str) -> (r: String)
    ensures
        r@ == unquoted(s@),
{
    let bare = without(s, '\'');
    trim(bare.as_str())
}

/// A `label:'rule'` field as its label and rule text.
fn split_rule(field: &str) -> (r: Option<(String, String)>)
    ensures
        match r {
            Some(p) => rule_pair(field@) == Some((p.0@, p.1@)),
            None => rule_pair(field@) is None,
        },
{
    let parts = split(field, ':');
    if parts.len() < 2 {
        return None;
    }
    let mut rest: Vec<String> = Vec::new();
    let mut j: usize = 1;
    assert(rest.deep_view() =~= parts.deep_view().subrange(1, 1));
    while j < parts.len()
        invariant
            1 <= j <= parts.len(),
            rest.deep_view() == parts.deep_view().subrange(1, j as int),
        decreases parts.len() - j,
    {
        let ghost before = rest.deep_view();
        let p = parts[j].clone();
        rest.push(p);
        assert(rest.deep_view() =~= before.push(parts.deep_view()[j as int]));
        j = j + 1;
    }
    assert(rest.deep_view() =~= parts.deep_view().skip(1));
    let rule = join_with(&rest, ":");
    assert(parts.deep_view()[0] == parts[0]@);
    let label = unquote(parts[0].as_str());
    let text = unquote(rule.as_str());
    Some((label, text))
}

/// The entry that one record gives, if any.
fn win_event_of(record: &Vec<String>) -> (r: Option<WinEvent>)
    ensures
        match r {
            Some(e) => entry_of(record.deep_view()) == Some(e@),
            None => entry_of(record.deep_view()) is None,
        },
{
    let f = filled_fields(record);
    if f.len() < 6 {
        return None;
    }
    assert(f.deep_view()[0] == f[0]@);
    let event_id = match parse_usize(f[0].as_str()) {
        Some(id) => id,
        None => {
            return None;
        },
    };
    let ghost fs = f.deep_view();
    let mut rules: Vec<(String, String)> = Vec::new();
    let mut i: usize = 6;
    assert(fs.skip(6).take(0) =~= Seq::<Seq<char>>::empty());
    while i < f.len()
        invariant
            fs == f.deep_view(),
            6 <= i <= f.len(),
            rules.deep_view() == rules_of(fs.skip(6).take(i - 6)),
        decreases f.len() - i,
    {
        assert(fs.skip(6).take(i - 5).drop_last() =~= fs.skip(6).take(i - 6));
        assert(fs.skip(6).take(i - 5).last() == f[i as int]@);
        match split_rule(f[i].as_str()) {
            Some(p) => {
                let (label, text) = p;
                put_entry(&mut rules, label, text);
            },
            None => {},
        }
        i = i + 1;
    }
    assert(fs.skip(6).take(i - 6) =~= fs.skip(6));
    assert(fs[1] == f[1]@ && fs[2] == f[2]@ && fs[3] == f[3]@ && fs[4] == f[4]@ && fs[5] == f[5]@);
    let mapping_info = if rules.len() == 0 {
        None
    } else {
        Some(rules)
    };
    Some(
        WinEvent {
            event_id,
            category: f[1].clone(),
            sub_category: f[2].clone(),
            outcome: f[3].clone(),
            channel: f[4].clone(),
            name: f[5].clone(),
            mapping_info,
        },
    )
}

/// The mapping table that ships with the library.
pub open spec fn default_mapping() -> Seq<WinEventView> {
    entries_of(csv_records_of(EVENT_MAPPINGS@))
}

/// Loads the mapping table that ships with the library.
pub fn load_mapping() -> (r: EventMapping)
    ensures
        r.entries() == default_mapping(),
{
    let records = csv_records(EVENT_MAPPINGS);
    EventMapping::from_records(&records)
}

/// Lookups into an event mapping table by event ID.
pub trait EventMappingGetters {
    /// The entry that governs `event_id`.
    spec fn entry_for(&self, event_id: usize) -> Option<WinEventView>;

    /// The entry of the event.
    fn get_info(&self, event_id: &usize) -> (r: Option<&WinEvent>)
        ensures
            match r {
                Some(e) => self.entry_for(*event_id) == Some(e@),
                None => self.entry_for(*event_id) is None,
            },
    ;

    /// The CEF fields to fill for the event.
    fn get_mapping_info(&self, event_id: &usize) -> (r: Option<&Vec<(String, String)>>)
        ensures
            match r {
                Some(m) => self.entry_for(*event_id) is Some && self.entry_for(
                    *event_id,
                )->0.mapping_info == Some(m.deep_view()),
                None => self.entry_for(*event_id) is None || self.entry_for(
                    *event_id,
                )->0.mapping_info is None,
            },
    ;

    /// The name of the event.
    fn get_name(&self, event_id: &usize) -> (r: Option<&String>)
        ensures
            match r {
                Some(n) => self.entry_for(*event_id) is Some && self.entry_for(*event_id)->0.name
                    == n@,
                None => self.entry_for(*event_id) is None,
            },
    ;

    /// The channel or provider source of the event.
    fn get_channel(&self, event_id: &usize) -> (r: Option<&String>)
        ensures
            match r {
                Some(n) => self.entry_for(*event_id) is Some && self.entry_for(
                    *event_id,
                )->0.channel == n@,
                None => self.entry_for(*event_id) is None,
            },
    ;

    /// The category of the event.
    fn get_category(&self, event_id: &usize) -> (r: Option<&String>)
        ensures
            match r {
                Some(n) => self.entry_for(*event_id) is Some && self.entry_for(
                    *event_id,
                )->0.category == n@,
                None => self.entry_for(*event_id) is None,
            },
    ;

    /// The sub-category of the event.
    fn get_sub_category(&self, event_id: &usize) -> (r: Option<&String>)
        ensures
            match r {
                Some(n) => self.entry_for(*event_id) is Some && self.entry_for(
                    *event_id,
                )->0.sub_category == n@,
                None => self.entry_for(*event_id) is None,
            },
    ;

    /// The expected outcome of the event.
    fn get_outcome(&self, event_id: &usize) -> (r: Option<&String>)
        ensures
            match r {
                Some(n) => self.entry_for(*event_id) is Some && self.entry_for(
                    *event_id,
                )->0.outcome == n@,
                None => self.entry_for(*event_id) is None,
            },
    ;
}

impl EventMappingGetters for EventMapping {
    open spec fn entry_for(&self, event_id: usize) -> Option<WinEventView> {
        self.entry(event_id)
    }

    fn get_info(&self, event_id: &usize) -> (r: Option<&WinEvent>) {
        match self.position(*event_id) {
            Some(i) => Some(&self.events[i]),
            None => None,
        }
    }

    fn get_mapping_info(&self, event_id: &usize) -> (r: Option<&Vec<(String, String)>>) {
        match self.position(*event_id) {
            Some(i) => match &self.events[i].mapping_info {
                Some(m) => Some(m),
                None => None,
            },
            None => None,
        }
    }

    fn get_name(&self, event_id: &usize) -> (r: Option<&String>) {
        match self.position(*event_id) {
            Some(i) => Some(&self.events[i].name),
            None => None,
        }
    }

    fn get_channel(&self, event_id: &usize) -> (r: Option<&String>) {
        match self.position(*event_id) {
            Some(i) => Some(&self.events[i].channel),
            None => None,
        }
    }

    fn get_category(&self, event_id: &usize) -> (r: Option<&String>) {
        match self.position(*event_id) {
            Some(i) => Some(&self.events[i].category),
            None => None,
        }
    }

    fn get_sub_category(&self, event_id: &usize) -> (r: Option<&String>) {
        match self.position(*event_id) {
            Some(i) => Some(&self.events[i].sub_category),
            None => None,
        }
    }

    fn get_outcome(&self, event_id: &usize) -> (r: Option<&String>) {
        match self.position(*event_id) {
            Some(i) => Some(&self.events[i].outcome),
            None => None,
        }
    }
}

/// The name of an event ID as the shipped mapping table gives it, else `EventID-` and the ID.
pub fn get_event_name_mapping(event_id: usize) -> (r: String)
    ensures
        r@ == match event_lookup(default_mapping(), event_id) {
            Some(e) => e.name,
            None => "EventID-"@ + decimal(event_id as nat),
        },
{
    let map = load_mapping();
    match map.get_name(&event_id) {
        Some(name) => name.clone(),
        None => {
            let mut r = "EventID-".to_string();
            let n = usize_text(event_id);
            r.append(n.as_str());
            r
        },
    }
}

} // verus!
