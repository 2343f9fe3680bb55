//! The canonical event model, and the normalizer that builds it from a parsed record.
use vstd::prelude::*;

use crate::assoc::{assoc_put, put_entry};
use crate::codes::{
    from_usize_to_string, keywords_map, keywords_text, level_text, opcode_map, opcode_text,
    scoped_task_text, task_name_for,
};
use crate::mapping::{
    default_mapping, entries_of, event_lookup, filled, get_event_name_mapping,
    WinEventView,
};
use crate::text::decimal;

verus! {

/// The provider that raised an event.
pub struct Provider {
    pub name: Option<String>,
    pub guid: Option<String>,
    pub event_source_name: Option<String>,
}

/// The creation time as the record gives it.
pub struct TimeCreated {
    pub system_time: String,
}

/// The activity an event belongs to.
pub struct Correlation {
    pub activity_id: Option<String>,
}

/// The process and thread that logged an event.
pub struct Execution {
    pub process_id: usize,
    pub thread_id: usize,
}

/// An event ID with its display name.
pub struct EventInfo {
    pub event_id: usize,
    pub event_name: String,
}

/// The user an event was logged under.
pub struct Security {
    pub user_id: Option<String>,
}

/// One `<Data>` entry of an event's payload: named, or only a value.
pub enum Data {
    KV { name: String, value: Option<String> },
    V { value: Option<String> },
}

/// The payload of an event: named entries, positional values, both, or nothing.
pub enum DataShape {
    Empty,
    Keyed(Vec<(String, Option<String>)>),
    Positional(Vec<String>),
    Both(Vec<(String, Option<String>)>, Vec<String>),
}

/// What a payload holds, as plain values.
pub enum ShapeView {
    Empty,
    Keyed(Seq<(Seq<char>, Option<Seq<char>>)>),
    Positional(Seq<Seq<char>>),
    Both(Seq<(Seq<char>, Option<Seq<char>>)>, Seq<Seq<char>>),
}

impl View for DataShape {
    type V = ShapeView;

    open spec fn view(&self) -> ShapeView {
        match self {
            DataShape::Empty => ShapeView::Empty,
            DataShape::Keyed(m) => ShapeView::Keyed(m.deep_view()),
            DataShape::Positional(v) => ShapeView::Positional(v.deep_view()),
            DataShape::Both(m, v) => ShapeView::Both(m.deep_view(), v.deep_view()),
        }
    }
}

/// The payload of an event with its optional binary part.
pub struct EventData {
    pub data: DataShape,
    pub binary: Option<String>,
}

/// The fixed envelope of an event, its codes resolved to words.
pub struct System {
    pub provider: Option<Provider>,
    pub device_vendor: String,
    pub event_record_id: usize,
    pub event: EventInfo,
    pub level: String,
    pub task: String,
    pub opcode: String,
    pub keywords: String,
    pub time_created: String,
    pub correlation: Correlation,
    pub execution: Execution,
    pub channel: String,
    pub computer: String,
    pub security: Option<Security>,
    pub version: usize,
}

/// One Windows event.
pub struct Event {
    pub xmlns: String,
    pub system: System,
    pub event_data: Option<EventData>,
    pub user_data: Option<Vec<(String, Vec<(String, String)>)>>,
}

/// The envelope of an event as parsed, its codes still numbers.
pub struct RawSystem {
    pub provider: Option<Provider>,
    pub device_vendor: Option<String>,
    pub event_record_id: usize,
    pub event_id: usize,
    pub level: usize,
    pub task: usize,
    pub opcode: usize,
    pub keywords: String,
    pub time_created: TimeCreated,
    pub correlation: Correlation,
    pub execution: Execution,
    pub channel: String,
    pub computer: String,
    pub security: Option<Security>,
    pub version: usize,
}

/// The payload of an event as parsed: its `<Data>` entries in document order.
pub struct RawEventData {
    pub data: Option<Vec<Data>>,
    pub binary: Option<String>,
}

/// An event as parsed, before normalization.
pub struct RawEvent {
    pub xmlns: String,
    pub system: RawSystem,
    pub event_data: Option<RawEventData>,
    pub user_data: Option<Vec<(String, Vec<(String, String)>)>>,
}

/// An optional string as an optional sequence of characters.
pub open spec fn opt_view(o: Option<String>) -> Option<Seq<char>> {
    match o {
        Some(s) => Some(s@),
        None => None,
    }
}

/// The named entries of a payload; a later entry with the same name overwrites an earlier one.
pub open spec fn keyed_of(entries: Seq<Data>) -> Seq<(Seq<char>, Option<Seq<char>>)>
    decreases entries.len(),
{
    if entries.len() == 0 {
        Seq::empty()
    } else {
        match entries.last() {
            Data::KV { name, value } => assoc_put(keyed_of(entries.drop_last()), name@, opt_view(value)),
            Data::V { .. } => keyed_of(entries.drop_last()),
        }
    }
}

/// The values of the unnamed entries of a payload, in order; absent values are dropped.
pub open spec fn positional_of(entries: Seq<Data>) -> Seq<Seq<char>>
    decreases entries.len(),
{
    if entries.len() == 0 {
        Seq::empty()
    } else {
        match entries.last() {
            Data::V { value: Some(v) } => positional_of(entries.drop_last()).push(v@),
            _ => positional_of(entries.drop_last()),
        }
    }
}

/// The shape of a payload: keyed only, positional only, both, or empty.
pub open spec fn shape_of(entries: Option<Seq<Data>>) -> ShapeView {
    match entries {
        None => ShapeView::Empty,
        Some(es) => {
            let m = keyed_of(es);
            let v = positional_of(es);
            if m.len() == 0 && v.len() == 0 {
                ShapeView::Empty
            } else if m.len() == 0 {
                ShapeView::Positional(v)
            } else if v.len() == 0 {
                ShapeView::Keyed(m)
            } else {
                ShapeView::Both(m, v)
            }
        },
    }
}

/// The display name of an event ID: the mapping table's, else `EventID-` and the ID.
pub open spec fn event_name_of(event_id: usize) -> Seq<char> {
    match event_lookup(default_mapping(), event_id) {
        Some(e) => e.name,
        None => "EventID-"@ + decimal(event_id as nat),
    }
}

proof fn lemma_filled_nonempty(fields: Seq<Seq<char>>)
    ensures
        forall|i: int| 0 <= i < filled(fields).len() ==> #[trigger] filled(fields)[i].len() > 0,
    decreases fields.len(),
{
    if fields.len() > 0 {
        let rest = filled(fields.drop_last());
        lemma_filled_nonempty(fields.drop_last());
        if fields.last().len() > 0 {
            assert forall|i: int| 0 <= i < rest.push(fields.last()).len() implies #[trigger] rest.push(
                fields.last(),
            )[i].len() > 0 by {
                if i < rest.len() {
                    assert(rest.push(fields.last())[i] == rest[i]);
                }
            }
        }
    }
}

proof fn lemma_entry_names(records: Seq<Seq<Seq<char>>>)
    ensures
        forall|i: int| 0 <= i < entries_of(records).len() ==> #[trigger] entries_of(records)[i].name.len() > 0,
    decreases records.len(),
{
    if records.len() > 0 {
        lemma_entry_names(records.drop_last());
        lemma_filled_nonempty(records.last());
    }
}

proof fn lemma_lookup_names(events: Seq<WinEventView>, id: usize)
    requires
        forall|i: int| 0 <= i < events.len() ==> #[trigger] events[i].name.len() > 0,
    ensures
        event_lookup(events, id) matches Some(e) ==> e.name.len() > 0,
    decreases events.len(),
{
    if events.len() > 0 && events.last().event_id != id {
        lemma_lookup_names(events.drop_last(), id);
    }
}

proof fn lemma_decimal_nonempty(n: nat)
    ensures
        decimal(n).len() > 0,
    decreases n,
{
    if n >= 10 {
        lemma_decimal_nonempty(n / 10);
    }
}

/// The display name of an event is never empty.
pub proof fn lemma_event_name_nonempty(event_id: usize)
    ensures
        event_name_of(event_id).len() > 0,
{
    lemma_entry_names(crate::mapping::csv_records_of(crate::builtin::EVENT_MAPPINGS@));
    lemma_lookup_names(default_mapping(), event_id);
    lemma_decimal_nonempty(event_id as nat);
}

/// The vendor of every event this library reads.
pub fn default_device_vendor() -> (r: String)
    ensures
        r@ == "Microsoft"@,
{
    "Microsoft".to_string()
}

/// An event ID with its display name.
pub fn eventid_map(event_id: usize) -> (r: EventInfo)
    ensures
        r.event_id == event_id,
        r.event_name@ == event_name_of(event_id),
        r.event_name@.len() > 0,
{
    proof {
        lemma_event_name_nonempty(event_id);
    }
    EventInfo { event_id, event_name: get_event_name_mapping(event_id) }
}

/// Folds the `<Data>` entries of a payload into its shape, keeping named and unnamed
/// entries both.
pub fn eventdata_map(entries: Option<Vec<Data>>) -> (r: DataShape)
    ensures
        r@ == shape_of(
            match entries {
                Some(es) => Some(es@),
                None => None,
            },
        ),
{
    let es = match entries {
        Some(es) => es,
        None => {
            return DataShape::Empty;
        },
    };
    let ghost s = es@;
    let mut m: Vec<(String, Option<String>)> = Vec::new();
    let mut v: Vec<String> = Vec::new();
    let mut i: usize = 0;
    assert(s.take(0) =~= Seq::<Data>::empty());
    assert(m.deep_view() =~= Seq::<(Seq<char>, Option<Seq<char>>)>::empty());
    assert(v.deep_view() =~= Seq::<Seq<char>>::empty());
    while i < es.len()
        invariant
            s == es@,
            i <= es.len(),
            m.deep_view() == keyed_of(s.take(i as int)),
            v.deep_view() == positional_of(s.take(i as int)),
        decreases es.len() - i,
    {
        assert(s.take(i + 1).drop_last() =~= s.take(i as int));
        assert(s.take(i + 1).last() == es[i as int]);
        match &es[i] {
            Data::KV { name, value } => {
                let val = match value {
                    Some(x) => Some(x.clone()),
                    None => None,
                };
                assert(val.deep_view() == opt_view(*value));
                put_entry(&mut m, name.clone(), val);
            },
            Data::V { value } => {
                match value {
                    Some(x) => {
                        let ghost before = v.deep_view();
                        let c = x.clone();
                        v.push(c);
                        assert(v.deep_view() =~= before.push(x@));
                    },
                    None => {},
                }
            },
        }
        i = i + 1;
    }
    assert(s.take(i as int) =~= s);
    if m.len() == 0 && v.len() == 0 {
        DataShape::Empty
    } else if m.len() == 0 {
        DataShape::Positional(v)
    } else if v.len() == 0 {
        DataShape::Keyed(m)
    } else {
        DataShape::Both(m, v)
    }
}

impl Event {
    /// The canonical event of a parsed record: each code resolved to its name, the
    /// payload folded into its shape, the rest carried over.
    pub fn from_raw(raw: RawEvent) -> (r: Event)
        ensures
            r.xmlns == raw.xmlns,
            r.system.provider == raw.system.provider,
            r.system.device_vendor@ == match raw.system.device_vendor {
                Some(d) => d@,
                None => "Microsoft"@,
            },
            r.system.event_record_id == raw.system.event_record_id,
            r.system.event.event_id == raw.system.event_id,
            r.system.event.event_name@ == event_name_of(raw.system.event_id),
            r.system.event.event_name@.len() > 0,
            r.system.level@ == level_text(raw.system.level),
            r.system.task@ == scoped_task_text(
                match raw.system.provider {
                    Some(p) => opt_view(p.name),
                    None => None,
                },
                raw.system.task,
            ),
            r.system.opcode@ == opcode_text(raw.system.opcode),
            r.system.keywords@ == keywords_text(raw.system.keywords@),
            r.system.time_created == raw.system.time_created.system_time,
            r.system.correlation == raw.system.correlation,
            r.system.execution == raw.system.execution,
            r.system.channel == raw.system.channel,
            r.system.computer == raw.system.computer,
            r.system.security == raw.system.security,
            r.system.version == raw.system.version,
            r.user_data == raw.user_data,
            match raw.event_data {
                Some(d) => r.event_data is Some && r.event_data->0.binary == d.binary
                    && r.event_data->0.data@ == shape_of(
                    match d.data {
                        Some(es) => Some(es@),
                        None => None,
                    },
                ),
                None => r.event_data is None,
            },
    {
        let s = raw.system;
        let device_vendor = match s.device_vendor {
            Some(d) => d,
            None => default_device_vendor(),
        };
        let level = from_usize_to_string(&s.level);
        let task = match &s.provider {
            Some(p) => match &p.name {
                Some(n) => task_name_for(Some(n), s.task),
                None => task_name_for(None, s.task),
            },
            None => task_name_for(None, s.task),
        };
        let system = System {
            provider: s.provider,
            device_vendor,
            event_record_id: s.event_record_id,
            event: eventid_map(s.event_id),
            level,
            task,
            opcode: opcode_map(s.opcode),
            keywords: keywords_map(s.keywords.as_str()),
            time_created: s.time_created.system_time,
            correlation: s.correlation,
            execution: s.execution,
            channel: s.channel,
            computer: s.computer,
            security: s.security,
            version: s.version,
        };
        let event_data = match raw.event_data {
            Some(d) => Some(EventData { data: eventdata_map(d.data), binary: d.binary }),
            None => None,
        };
        Event { xmlns: raw.xmlns, system, event_data, user_data: raw.user_data }
    }
}

} // verus!
