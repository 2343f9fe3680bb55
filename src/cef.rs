//! The CEF assembler: the header, the baseline extension fields, and the final line.
use vstd::prelude::*;

use crate::assoc::{assoc_get, assoc_put, find_key, has_key, keys_unique, lemma_put_facts, lemma_put_other, put_entry};
use crate::codes::{from_string_to_usize, severity_of};
use crate::event::{DataShape, Event, EventData, ShapeView};
use crate::rules::{mapped_extension, mapper};
use crate::text::{
    decimal, drop_all, i64_text, join, join_with, signed_decimal, stripped, text_eq, trim_char,
    usize_text, without,
};

verus! {

/// The seconds since the Unix epoch that chrono reads from an RFC 3339 timestamp, if it
/// reads one.
pub uninterp spec fn rfc3339_seconds(s: Seq<char>) -> Option<i64>;

/// What serde_json writes for a string: the JSON string literal.
pub uninterp spec fn json_string_of(s: Seq<char>) -> Seq<char>;

/// What serde_json writes for an object of named, possibly null, string values.
pub uninterp spec fn json_object_of(m: Seq<(Seq<char>, Option<Seq<char>>)>) -> Seq<char>;

/// What serde_json writes for an array of strings.
pub uninterp spec fn json_array_of(v: Seq<Seq<char>>) -> Seq<char>;

/// Relies on chrono's `DateTime::parse_from_rfc3339` and `DateTime::timestamp`: the
/// instant an RFC 3339 text names, in whole seconds since the epoch; a function of the text.
#[verifier::external_body]
fn rfc3339_timestamp(s: &str) -> (r: Option<i64>)
    ensures
        r == rfc3339_seconds(s@),
{
    chrono::DateTime::parse_from_rfc3339(s).ok().map(|d| d.timestamp())
}

/// Relies on `serde_json::to_string` of a `str`: its JSON string literal, which cannot fail.
#[verifier::external_body]
fn json_string(s: &str) -> (r: String)
    ensures
        r@ == json_string_of(s@),
{
    serde_json::to_string(s).unwrap_or_default()
}

/// Relies on `serde_json::to_string` of a `BTreeMap<String, Option<String>>`: the JSON
/// object of the entries, keys in order, an absent value as `null`.
#[verifier::external_body]
fn json_object(m: &Vec<(String, Option<String>)>) -> (r: String)
    ensures
        r@ == json_object_of(m.deep_view()),
{
    let obj: std::collections::BTreeMap<String, Option<String>> = m.iter().cloned().collect();
    serde_json::to_string(&obj).unwrap_or_default()
}

/// Relies on `serde_json::to_string` of a `Vec<String>`: the JSON array of the strings.
#[verifier::external_body]
fn json_array(v: &Vec<String>) -> (r: String)
    ensures
        r@ == json_array_of(v.deep_view()),
{
    serde_json::to_string(v).unwrap_or_default()
}

/// The class ID of an event: its provider's name, else its channel.
pub open spec fn class_id_of(evt: Event) -> Seq<char> {
    match evt.system.provider {
        Some(p) => match p.name {
            Some(n) => n@,
            None => evt.system.channel@,
        },
        None => evt.system.channel@,
    }
}

/// The CEF outcome of a keyword phrase.
pub open spec fn outcome_of(keyword: Seq<char>) -> Seq<char> {
    if keyword == "Audit Success"@ {
        "/Success"@
    } else if keyword == "Audit Failure"@ {
        "/Failure"@
    } else {
        Seq::empty()
    }
}

/// The `start` value: the creation time in epoch seconds, else the time as written.
pub open spec fn start_of(time_created: Seq<char>) -> Seq<char> {
    match rfc3339_seconds(time_created) {
        Some(t) => signed_decimal(t as int),
        None => time_created,
    }
}

/// The positional values as one text: each as a JSON string, quotes taken out, joined by commas.
pub open spec fn positional_text(v: Seq<Seq<char>>) -> Seq<char> {
    join(v.map_values(|x: Seq<char>| drop_all(json_string_of(x), '"')), ","@)
}

/// Keyed and positional values as one text: the JSON object and the JSON array, quotes
/// taken out, joined by a comma.
pub open spec fn mixed_text(m: Seq<(Seq<char>, Option<Seq<char>>)>, v: Seq<Seq<char>>) -> Seq<char> {
    drop_all(json_object_of(m), '"') + ","@ + drop_all(json_array_of(v), '"')
}

/// The keyed data as the rule interpreter reads it: backslashes trimmed from both ends of
/// names and values, an absent value as empty.
pub open spec fn data_pairs(m: Seq<(Seq<char>, Option<Seq<char>>)>) -> Seq<(Seq<char>, Seq<char>)>
    decreases m.len(),
{
    if m.len() == 0 {
        Seq::empty()
    } else {
        let v = match m.last().1 {
            Some(x) => x,
            None => Seq::empty(),
        };
        assoc_put(data_pairs(m.drop_last()), stripped(m.last().0, '\\'), stripped(v, '\\'))
    }
}

/// The extension fields drawn from an event's payload.
pub open spec fn data_extension(event_id: usize, data: Option<ShapeView>) -> Seq<(Seq<char>, Seq<char>)> {
    match data {
        None => Seq::empty(),
        Some(ShapeView::Empty) => Seq::empty(),
        Some(ShapeView::Positional(v)) => seq![("cs6Label"@, "EventData"@), ("cs6"@, positional_text(v))],
        Some(ShapeView::Both(m, v)) => seq![("cs6Label"@, "EventData"@), ("cs6"@, mixed_text(m, v))],
        Some(ShapeView::Keyed(m)) => match mapped_extension(event_id, data_pairs(m)) {
            Some(x) => x,
            None => Seq::empty(),
        },
    }
}

/// `acc` with each entry of `extra` set in turn, entries with an empty key left out.
pub open spec fn merged(acc: Seq<(Seq<char>, Seq<char>)>, extra: Seq<(Seq<char>, Seq<char>)>) -> Seq<(Seq<char>, Seq<char>)>
    decreases extra.len(),
{
    if extra.len() == 0 {
        acc
    } else {
        let before = merged(acc, extra.drop_last());
        if extra.last().0.len() > 0 {
            assoc_put(before, extra.last().0, extra.last().1)
        } else {
            before
        }
    }
}

/// The fields every event gets, before those drawn from its payload.
pub open spec fn baseline_of(evt: Event) -> Seq<(Seq<char>, Seq<char>)> {
    seq![
        ("start"@, start_of(evt.system.time_created@)),
        ("externalId"@, decimal(evt.system.event.event_id as nat)),
        ("outcome"@, outcome_of(evt.system.keywords@)),
        ("cn5Label"@, "EventRecordId"@),
        ("cn5"@, decimal(evt.system.event_record_id as nat)),
        ("cs2Label"@, "Keywords"@),
        ("cs2"@, evt.system.keywords@),
    ]
}

/// The payload of an event, as plain values.
pub open spec fn payload_of(evt: Event) -> Option<ShapeView> {
    match evt.event_data {
        Some(d) => Some(d.data@),
        None => None,
    }
}

/// The CEF extension of an event: the baseline fields, then those of its payload, which
/// win where a key is set twice.
pub open spec fn extension_of_event(evt: Event) -> Seq<(Seq<char>, Seq<char>)> {
    merged(Seq::empty(), baseline_of(evt) + data_extension(evt.system.event.event_id, payload_of(evt)))
}

/// The CEF header of an event, double quotes taken out.
pub open spec fn header_of(evt: Event) -> Seq<char> {
    drop_all(
        "CEF:0|Microsoft|Windows|Windows 7|"@ + class_id_of(evt) + "|"@ + evt.system.event.event_name@
            + "|"@ + decimal(severity_of(evt.system.level@) as nat) + "|"@,
        '"',
    )
}

/// The extension as `key=value` tokens, led by `msg=<event name>` when it has no message,
/// joined by spaces, double quotes taken out.
pub open spec fn body_of(evt: Event) -> Seq<char> {
    let ext = extension_of_event(evt);
    let tokens = ext.map_values(|p: (Seq<char>, Seq<char>)| p.0 + "="@ + p.1);
    let all = if has_key(ext, "msg"@) {
        tokens
    } else {
        seq!["msg="@ + evt.system.event.event_name@] + tokens
    };
    drop_all(join(all, " "@), '"')
}

/// The CEF line of an event whose serialized form is `raw`.
pub open spec fn cef_line(evt: Event, raw: Seq<char>) -> Seq<char> {
    header_of(evt) + body_of(evt) + " rawEvent="@ + raw
}

/// Merging keeps keys unique.
pub proof fn lemma_merged_keys_unique(acc: Seq<(Seq<char>, Seq<char>)>, extra: Seq<(Seq<char>, Seq<char>)>)
    requires
        keys_unique(acc),
    ensures
        keys_unique(merged(acc, extra)),
    decreases extra.len(),
{
    if extra.len() > 0 {
        lemma_merged_keys_unique(acc, extra.drop_last());
        if extra.last().0.len() > 0 {
            lemma_put_facts(merged(acc, extra.drop_last()), extra.last().0, extra.last().1);
        }
    }
}

proof fn lemma_merged_append(
    acc: Seq<(Seq<char>, Seq<char>)>,
    x: Seq<(Seq<char>, Seq<char>)>,
    y: Seq<(Seq<char>, Seq<char>)>,
)
    ensures
        merged(acc, x + y) == merged(merged(acc, x), y),
    decreases y.len(),
{
    if y.len() == 0 {
        assert(x + y =~= x);
    } else {
        assert((x + y).drop_last() =~= x + y.drop_last());
        assert((x + y).last() == y.last());
        lemma_merged_append(acc, x, y.drop_last());
    }
}

proof fn lemma_merged_absent(
    acc: Seq<(Seq<char>, Seq<char>)>,
    extra: Seq<(Seq<char>, Seq<char>)>,
    k: Seq<char>,
)
    requires
        forall|i: int| 0 <= i < extra.len() ==> #[trigger] extra[i].0 != k,
    ensures
        assoc_get(merged(acc, extra), k) == assoc_get(acc, k),
    decreases extra.len(),
{
    if extra.len() > 0 {
        lemma_merged_absent(acc, extra.drop_last(), k);
        if extra.last().0.len() > 0 {
            lemma_put_other(merged(acc, extra.drop_last()), extra.last().0, extra.last().1, k);
        }
    }
}

/// A creation time that chrono cannot read as RFC 3339 stands as written in the `start`
/// field, unless the payload's own fields set `start`.
pub proof fn lemma_start_fallback(evt: Event)
    requires
        rfc3339_seconds(evt.system.time_created@) is None,
        forall|i: int|
            0 <= i < data_extension(evt.system.event.event_id, payload_of(evt)).len() ==> (
            #[trigger] data_extension(evt.system.event.event_id, payload_of(evt))[i]).0 != "start"@,
    ensures
        assoc_get(extension_of_event(evt), "start"@) == Some(evt.system.time_created@),
{
    reveal_strlit("start");
    reveal_strlit("externalId");
    reveal_strlit("outcome");
    reveal_strlit("cn5Label");
    reveal_strlit("cn5");
    reveal_strlit("cs2Label");
    reveal_strlit("cs2");
    let base = baseline_of(evt);
    let ed = data_extension(evt.system.event.event_id, payload_of(evt));
    let empty = Seq::<(Seq<char>, Seq<char>)>::empty();
    lemma_merged_append(empty, base, ed);
    lemma_merged_append(empty, base.take(1), base.skip(1));
    assert(base.take(1) + base.skip(1) =~= base);
    assert(base.take(1).drop_last() =~= empty);
    assert(keys_unique(empty));
    lemma_put_facts(empty, "start"@, start_of(evt.system.time_created@));
    assert(base.take(1).last() == base[0]);
    assert(base[0].0 == "start"@);
    assert(base[0].0.len() > 0);
    assert(merged(empty, base.take(1).drop_last()) == empty);
    assert(merged(empty, base.take(1)) == assoc_put(empty, "start"@, start_of(evt.system.time_created@)));
    lemma_merged_absent(merged(empty, base.take(1)), base.skip(1), "start"@);
    lemma_merged_absent(merged(empty, base), ed, "start"@);
}

/// Converting the same event, with the same serialized form, twice gives the same line:
/// nothing but the event itself enters it.
pub proof fn lemma_cef_deterministic(a: Event, b: Event, raw_a: Seq<char>, raw_b: Seq<char>)
    requires
        a == b,
        raw_a == raw_b,
    ensures
        cef_line(a, raw_a) == cef_line(b, raw_b),
{
}

/// The class ID of an event: its provider's name, else its channel.
pub fn get_class_id(evt: &Event) -> (r: String)
    ensures
        r@ == class_id_of(*evt),
{
    match &evt.system.provider {
        Some(p) => match &p.name {
            Some(n) => n.clone(),
            None => evt.system.channel.clone(),
        },
        None => evt.system.channel.clone(),
    }
}

/// The CEF outcome of a keyword phrase.
pub fn get_event_outcome(keyword: &String) -> (r: String)
    ensures
        r@ == outcome_of(keyword@),
{
    if text_eq(keyword.as_str(), "Audit Success") {
        "/Success".to_string()
    } else if text_eq(keyword.as_str(), "Audit Failure") {
        "/Failure".to_string()
    } else {
        String::new()
    }
}

/// The `start` value of a creation time.
pub fn start_value(time_created: &String) -> (r: String)
    ensures
        r@ == start_of(time_created@),
{
    match rfc3339_timestamp(time_created.as_str()) {
        Some(t) => i64_text(t),
        None => time_created.clone(),
    }
}

fn pair(k: &str, v: String) -> (r: (String, String))
    ensures
        r.0@ == k@,
        r.1 == v,
{
    (k.to_string(), v)
}

/// The keyed data as the rule interpreter reads it.
fn data_pairs_of(m: &Vec<(String, Option<String>)>) -> (r: Vec<(String, String)>)
    ensures
        r.deep_view() == data_pairs(m.deep_view()),
{
    let ghost ms = m.deep_view();
    let mut out: Vec<(String, String)> = Vec::new();
    let mut i: usize = 0;
    assert(ms.take(0) =~= Seq::<(Seq<char>, Option<Seq<char>>)>::empty());
    while i < m.len()
        invariant
            ms == m.deep_view(),
            i <= m.len(),
            out.deep_view() == data_pairs(ms.take(i as int)),
        decreases m.len() - i,
    {
        assert(ms.take(i + 1).drop_last() =~= ms.take(i as int));
        assert(ms[i as int].0 == m[i as int].0@);
        assert(ms[i as int].1 == m[i as int].1.deep_view());
        let k = trim_char(m[i].0.as_str(), '\\');
        let v = match &m[i].1 {
            Some(x) => trim_char(x.as_str(), '\\'),
            None => {
                proof {
                    reveal_strlit("");
                }
                trim_char("", '\\')
            },
        };
        proof {
            reveal_strlit("");
            assert(""@ =~= Seq::<char>::empty());
        }
        put_entry(&mut out, k, v);
        i = i + 1;
    }
    assert(ms.take(i as int) =~= ms);
    out
}

/// The positional values as one text.
fn positional_text_of(v: &Vec<String>) -> (r: String)
    ensures
        r@ == positional_text(v.deep_view()),
{
    let ghost vs = v.deep_view();
    let mut items: Vec<String> = Vec::new();
    let mut i: usize = 0;
    while i < v.len()
        invariant
            vs == v.deep_view(),
            i <= v.len(),
            items.deep_view() == vs.take(i as int).map_values(|x: Seq<char>| drop_all(json_string_of(x), '"')),
        decreases v.len() - i,
    {
        assert(vs[i as int] == v[i as int]@);
        let j = json_string(v[i].as_str());
        let item = without(j.as_str(), '"');
        let ghost before = items.deep_view();
        items.push(item);
        assert(items.deep_view() =~= before.push(item@));
        assert(vs.take(i + 1).map_values(|x: Seq<char>| drop_all(json_string_of(x), '"')) =~= vs.take(
            i as int,
        ).map_values(|x: Seq<char>| drop_all(json_string_of(x), '"')).push(item@));
        i = i + 1;
    }
    assert(vs.take(i as int) =~= vs);
    join_with(&items, ",")
}

/// The extension fields drawn from an event's payload.
pub fn get_event_data(event_id: &usize, event_data: Option<&EventData>) -> (r: Vec<(String, String)>)
    ensures
        r.deep_view() == data_extension(
            *event_id,
            match event_data {
                Some(d) => Some(d.data@),
                None => None,
            },
        ),
{
    let data = match event_data {
        Some(d) => d,
        None => {
            return Vec::new();
        },
    };
    match &data.data {
        DataShape::Empty => Vec::new(),
        DataShape::Positional(v) => {
            let text = positional_text_of(v);
            let mut r: Vec<(String, String)> = Vec::new();
            r.push(pair("cs6Label", "EventData".to_string()));
            r.push(pair("cs6", text));
            assert(r.deep_view() =~= seq![("cs6Label"@, "EventData"@), ("cs6"@, positional_text(v.deep_view()))]);
            r
        },
        DataShape::Both(m, v) => {
            let obj = json_object(m);
            let arr = json_array(v);
            let mut text = without(obj.as_str(), '"');
            text.append(",");
            let arr_text = without(arr.as_str(), '"');
            text.append(arr_text.as_str());
            let mut r: Vec<(String, String)> = Vec::new();
            r.push(pair("cs6Label", "EventData".to_string()));
            r.push(pair("cs6", text));
            assert(r.deep_view() =~= seq![("cs6Label"@, "EventData"@), ("cs6"@, mixed_text(m.deep_view(), v.deep_view()))]);
            r
        },
        DataShape::Keyed(m) => {
            let obj = data_pairs_of(m);
            match mapper(event_id, &obj) {
                Some(x) => x,
                None => Vec::new(),
            }
        },
    }
}

/// Sets each entry of `extra` in turn, entries with an empty key left out.
fn merge_into(acc: &mut Vec<(String, String)>, extra: Vec<(String, String)>)
    ensures
        final(acc).deep_view() == merged(old(acc).deep_view(), extra.deep_view()),
{
    let ghost xs = extra.deep_view();
    let ghost start = acc.deep_view();
    let mut i: usize = 0;
    assert(xs.take(0) =~= Seq::<(Seq<char>, Seq<char>)>::empty());
    while i < extra.len()
        invariant
            xs == extra.deep_view(),
            start == old(acc).deep_view(),
            i <= extra.len(),
            acc.deep_view() == merged(start, xs.take(i as int)),
        decreases extra.len() - i,
    {
        assert(xs.take(i + 1).drop_last() =~= xs.take(i as int));
        assert(xs[i as int] == (extra[i as int].0@, extra[i as int].1@));
        if !extra[i].0.as_str().is_empty() {
            put_entry(acc, extra[i].0.clone(), extra[i].1.clone());
        }
        i = i + 1;
    }
    assert(xs.take(i as int) =~= xs);
}

/// The CEF extension of an event: the baseline fields, then those of its payload.
pub fn build_cef_extension(evt: &Event) -> (r: Vec<(String, String)>)
    ensures
        r.deep_view() == extension_of_event(*evt),
        keys_unique(r.deep_view()),
{
    let mut all: Vec<(String, String)> = Vec::new();
    all.push(pair("start", start_value(&evt.system.time_created)));
    all.push(pair("externalId", usize_text(evt.system.event.event_id)));
    all.push(pair("outcome", get_event_outcome(&evt.system.keywords)));
    all.push(pair("cn5Label", "EventRecordId".to_string()));
    all.push(pair("cn5", usize_text(evt.system.event_record_id)));
    all.push(pair("cs2Label", "Keywords".to_string()));
    all.push(pair("cs2", evt.system.keywords.clone()));
    let ghost base = all.deep_view();
    assert(base =~= baseline_of(*evt));
    let event_data = match &evt.event_data {
        Some(d) => get_event_data(&evt.system.event.event_id, Some(d)),
        None => get_event_data(&evt.system.event.event_id, None),
    };
    let ghost ed = event_data.deep_view();
    let mut extra = event_data;
    let mut combined = all;
    combined.append(&mut extra);
    assert(combined.deep_view() =~= base + ed);
    let mut result: Vec<(String, String)> = Vec::new();
    assert(result.deep_view() =~= Seq::<(Seq<char>, Seq<char>)>::empty());
    let ghost all_v = combined.deep_view();
    merge_into(&mut result, combined);
    proof {
        lemma_merged_keys_unique(Seq::empty(), all_v);
    }
    result
}

/// The tokens `key=value` of an extension, in order.
fn tokens_of(ext: &Vec<(String, String)>) -> (r: Vec<String>)
    ensures
        r.deep_view() == ext.deep_view().map_values(|p: (Seq<char>, Seq<char>)| p.0 + "="@ + p.1),
{
    let ghost es = ext.deep_view();
    let mut out: Vec<String> = Vec::new();
    let mut i: usize = 0;
    while i < ext.len()
        invariant
            es == ext.deep_view(),
            i <= ext.len(),
            out.deep_view() == es.take(i as int).map_values(|p: (Seq<char>, Seq<char>)| p.0 + "="@ + p.1),
        decreases ext.len() - i,
    {
        assert(es[i as int] == (ext[i as int].0@, ext[i as int].1@));
        let mut t = ext[i].0.clone();
        t.append("=");
        t.append(ext[i].1.as_str());
        let ghost before = out.deep_view();
        out.push(t);
        assert(out.deep_view() =~= before.push(t@));
        assert(es.take(i + 1).map_values(|p: (Seq<char>, Seq<char>)| p.0 + "="@ + p.1) =~= es.take(
            i as int,
        ).map_values(|p: (Seq<char>, Seq<char>)| p.0 + "="@ + p.1).push(t@));
        i = i + 1;
    }
    assert(es.take(i as int) =~= es);
    out
}

/// The CEF line of an event whose serialized form is `raw_event`.
pub fn cef_string(evt: &Event, raw_event: &str) -> (r: String)
    ensures
        r@ == cef_line(*evt, raw_event@),
{
    let mut header = "CEF:0|Microsoft|Windows|Windows 7|".to_string();
    let class_id = get_class_id(evt);
    header.append(class_id.as_str());
    header.append("|");
    header.append(evt.system.event.event_name.as_str());
    header.append("|");
    let sev = usize_text(from_string_to_usize(&evt.system.level));
    header.append(sev.as_str());
    header.append("|");
    let header = without(header.as_str(), '"');
    let ext = build_cef_extension(evt);
    let tokens = tokens_of(&ext);
    let has_msg = match find_key(&ext, "msg") {
        Some(_) => true,
        None => false,
    };
    let all = if has_msg {
        tokens
    } else {
        let mut msg = "msg=".to_string();
        msg.append(evt.system.event.event_name.as_str());
        let mut lead: Vec<String> = Vec::new();
        lead.push(msg);
        let ghost t = tokens.deep_view();
        let mut rest = tokens;
        lead.append(&mut rest);
        assert(lead.deep_view() =~= seq![msg@] + t);
        lead
    };
    proof {
        let ext_v = extension_of_event(*evt);
        if has_msg {
            let i = choose|i: int| 0 <= i < ext_v.len() && #[trigger] ext_v[i].0 == "msg"@;
            assert(has_key(ext_v, "msg"@));
        } else {
            assert(!has_key(ext_v, "msg"@)) by {
                if has_key(ext_v, "msg"@) {
                    let i = choose|i: int| 0 <= i < ext_v.len() && #[trigger] ext_v[i].0 == "msg"@;
                    assert(ext.deep_view()[i].0 == "msg"@);
                }
            }
        }
    }
    let joined = join_with(&all, " ");
    let body = without(joined.as_str(), '"');
    let mut line = header;
    line.append(body.as_str());
    line.append(" rawEvent=");
    line.append(raw_event);
    line
}

/// Conversion of an event to a CEF line.
pub trait ToCEF {
    /// The CEF line of `self`, whose serialized form is `raw_event`.
    spec fn cef_of(&self, raw_event: Seq<char>) -> Seq<char>;

    /// The CEF line of `self`, with `raw_event` as its `rawEvent` field.
    fn to_cef(&self, raw_event: &str) -> (r: String)
        ensures
            r@ == self.cef_of(raw_event@),
    ;
}

impl ToCEF for Event {
    open spec fn cef_of(&self, raw_event: Seq<char>) -> Seq<char> {
        cef_line(*self, raw_event)
    }

    fn to_cef(&self, raw_event: &str) -> (r: String) {
        cef_string(self, raw_event)
    }
}

} // verus!
