//! The mapping rule language: how each CEF field of an event is drawn from its data.
use vstd::prelude::*;

use crate::assoc::{assoc_get, assoc_put, get_text, keys_unique, lemma_put_facts, lemma_put_other, put_entry};
use crate::fields::{default_fields, resolve_label, CefMap};
use crate::mapping::{default_mapping, event_lookup, load_mapping, EventMappingGetters};
use crate::text::{
    chars_of, drop_all, eq_ascii_folded, eq_ignore_ascii_case, has_infix, has_prefix, join,
    join_with, lemma_split_nonempty, remove_all, remove_text, split, split_on, starts_with,
    contains, count_char, count_of, text_eq, trim, trimmed, without,
};

verus! {

/// The forms a rule takes, decided once from its target label and rule text.
#[derive(PartialEq, Eq, Structural, Clone, Copy, Debug)]
pub enum Rule {
    /// The message, put together by `concatenate(...)`.
    MessageConcat,
    /// The message, made of every filled data field as a `key: value` line.
    MessageAllOfData,
    /// The message, as the rule text says it.
    MessageLiteral,
    /// The device action, as the rule text says it.
    ActionLiteral,
    /// The device action, looked up under the rule text.
    ActionLookup,
    /// The first filled of several arguments.
    OneOf,
    /// All filled arguments, joined by spaces.
    AllOf,
    /// Every argument, filled or not, joined by spaces.
    Both,
    /// Literal pieces and positional parameters run together.
    Concatenate,
    /// A field's value when it looks like an IPv6 address.
    Ipv6Filter,
    /// One positional parameter.
    ParamSubstitute,
    /// A field looked up by the rule text.
    DirectLookup,
}

/// The form of the rule `text` for the target `label`; the first pattern that fits wins.
pub open spec fn rule_kind(label: Seq<char>, text: Seq<char>) -> Rule {
    if eq_ascii_folded(label, "message"@) {
        if has_prefix(text, "concatenate"@) {
            Rule::MessageConcat
        } else if eq_ascii_folded(text, "all_of_data"@) {
            Rule::MessageAllOfData
        } else {
            Rule::MessageLiteral
        }
    } else if eq_ascii_folded(label, "device action"@) {
        if text.contains(' ') {
            Rule::ActionLiteral
        } else {
            Rule::ActionLookup
        }
    } else if has_prefix(text, "one_of("@) {
        Rule::OneOf
    } else if has_prefix(text, "all_of("@) {
        Rule::AllOf
    } else if has_prefix(text, "both("@) {
        Rule::Both
    } else if has_prefix(text, "concatenate"@) {
        Rule::Concatenate
    } else if has_infix(text, "IPv6 Address)"@) {
        Rule::Ipv6Filter
    } else if has_prefix(text, "%"@) && count_of(text, '%') == 1 {
        Rule::ParamSubstitute
    } else {
        Rule::DirectLookup
    }
}

/// The rule fills the message or the device action rather than a field named by its label.
pub open spec fn is_fixed_target(kind: Rule) -> bool {
    kind == Rule::MessageConcat || kind == Rule::MessageAllOfData || kind == Rule::MessageLiteral
        || kind == Rule::ActionLiteral || kind == Rule::ActionLookup
}

/// The value of the data field `k`; empty when there is none.
pub open spec fn field_or_empty(data: Seq<(Seq<char>, Seq<char>)>, k: Seq<char>) -> Seq<char> {
    match assoc_get(data, k) {
        Some(v) => v,
        None => Seq::empty(),
    }
}

/// The arguments of a rule: its comma-separated parts with the `wrapper` and every `)`
/// taken out.
pub open spec fn rule_args(text: Seq<char>, wrapper: Seq<char>) -> Seq<Seq<char>> {
    split_on(text, ',').map_values(|p: Seq<char>| drop_all(remove_all(p, wrapper), ')'))
}

/// An argument that `one_of` takes as it is rather than as a field name.
pub open spec fn is_sentinel(a: Seq<char>) -> bool {
    a == "localhost"@ || a == "No"@ || a == "Blocked"@
}

/// The values of the `one_of` arguments: a sentinel stands for itself, a field name for
/// the field's value.
pub open spec fn one_of_values(data: Seq<(Seq<char>, Seq<char>)>, args: Seq<Seq<char>>) -> Seq<Seq<char>> {
    args.map_values(|a: Seq<char>| if is_sentinel(a) { a } else { field_or_empty(data, a) })
}

/// The values of the fields named by the arguments.
pub open spec fn lookups(data: Seq<(Seq<char>, Seq<char>)>, args: Seq<Seq<char>>) -> Seq<Seq<char>> {
    args.map_values(|a: Seq<char>| field_or_empty(data, a))
}

/// A value is filled when it is not empty once trimmed.
pub open spec fn is_filled(v: Seq<char>) -> bool {
    trimmed(v).len() > 0
}

/// The first filled value; empty when none is.
pub open spec fn first_filled(vals: Seq<Seq<char>>) -> Seq<char>
    decreases vals.len(),
{
    if vals.len() == 0 {
        Seq::empty()
    } else if is_filled(vals[0]) {
        vals[0]
    } else {
        first_filled(vals.skip(1))
    }
}

/// The filled values, in order.
pub open spec fn filled_values(vals: Seq<Seq<char>>) -> Seq<Seq<char>>
    decreases vals.len(),
{
    if vals.len() == 0 {
        Seq::empty()
    } else if is_filled(vals.last()) {
        filled_values(vals.drop_last()).push(vals.last())
    } else {
        filled_values(vals.drop_last())
    }
}

/// The key of a positional parameter `%n`: `paramn`.
pub open spec fn param_key(token: Seq<char>) -> Seq<char> {
    "param"@ + drop_all(token, '%')
}

/// One piece of a concatenation: a parameter's trimmed value, else the token itself.
pub open spec fn concat_piece(data: Seq<(Seq<char>, Seq<char>)>, token: Seq<char>) -> Seq<char> {
    if has_prefix(token, "%"@) {
        trimmed(field_or_empty(data, param_key(token)))
    } else {
        token
    }
}

/// What `concatenate(...)` gives: its pieces run together, double quotes taken out.
pub open spec fn concatenated(data: Seq<(Seq<char>, Seq<char>)>, text: Seq<char>) -> Seq<char> {
    drop_all(
        join(
            rule_args(text, "concatenate("@).map_values(|t: Seq<char>| concat_piece(data, t)),
            Seq::empty(),
        ),
        '"',
    )
}

/// Each data field with a non-empty value as a `key: value` line.
pub open spec fn data_lines(data: Seq<(Seq<char>, Seq<char>)>) -> Seq<Seq<char>>
    decreases data.len(),
{
    if data.len() == 0 {
        Seq::empty()
    } else if data.last().1.len() > 0 {
        data_lines(data.drop_last()).push(data.last().0 + ": "@ + data.last().1)
    } else {
        data_lines(data.drop_last())
    }
}

/// What `all_of_data` gives: the lines of the data, double quotes taken out.
pub open spec fn all_data_text(data: Seq<(Seq<char>, Seq<char>)>) -> Seq<char> {
    drop_all(join(data_lines(data), "\n"@), '"')
}

/// The field named before the first space of the rule, when its value holds a colon.
pub open spec fn ipv6_value(data: Seq<(Seq<char>, Seq<char>)>, text: Seq<char>) -> Seq<char> {
    let v = field_or_empty(data, split_on(text, ' ')[0]);
    if v.contains(':') {
        v
    } else {
        Seq::empty()
    }
}

/// The value that a rule of the given form draws from the data.
pub open spec fn rule_value(data: Seq<(Seq<char>, Seq<char>)>, kind: Rule, text: Seq<char>) -> Seq<char> {
    match kind {
        Rule::MessageConcat => concatenated(data, text),
        Rule::Concatenate => concatenated(data, text),
        Rule::MessageAllOfData => all_data_text(data),
        Rule::MessageLiteral => text,
        Rule::ActionLiteral => text,
        Rule::ActionLookup => field_or_empty(data, text),
        Rule::DirectLookup => field_or_empty(data, text),
        Rule::OneOf => first_filled(one_of_values(data, rule_args(text, "one_of("@))),
        Rule::AllOf => join(filled_values(lookups(data, rule_args(text, "all_of("@))), " "@),
        Rule::Both => join(lookups(data, rule_args(text, "both("@)), " "@),
        Rule::Ipv6Filter => ipv6_value(data, text),
        Rule::ParamSubstitute => field_or_empty(data, param_key(text)),
    }
}

/// The CEF key a rule fills: `msg`, `act`, or the key its label resolves to.
pub open spec fn target_key(m: Seq<(Seq<char>, Seq<Seq<char>>)>, label: Seq<char>, kind: Rule) -> Seq<char> {
    if kind == Rule::MessageConcat || kind == Rule::MessageAllOfData || kind == Rule::MessageLiteral {
        "msg"@
    } else if kind == Rule::ActionLiteral || kind == Rule::ActionLookup {
        "act"@
    } else {
        resolve_label(m, label)
    }
}

/// A key or value as it enters the extension: double quotes taken out, then trimmed.
pub open spec fn clean(s: Seq<char>) -> Seq<char> {
    trimmed(drop_all(s, '"'))
}

/// `acc` with `k` set to `v`, both cleaned, unless either is empty once cleaned.
pub open spec fn put_filled(acc: Seq<(Seq<char>, Seq<char>)>, k: Seq<char>, v: Seq<char>) -> Seq<(Seq<char>, Seq<char>)> {
    if clean(k).len() > 0 && clean(v).len() > 0 {
        assoc_put(acc, clean(k), clean(v))
    } else {
        acc
    }
}

/// `acc` with what one rule contributes: its key and value and, for a custom field, the
/// label entry `<key>Label` holding the rule text.
pub open spec fn apply_rule(
    m: Seq<(Seq<char>, Seq<Seq<char>>)>,
    data: Seq<(Seq<char>, Seq<char>)>,
    acc: Seq<(Seq<char>, Seq<char>)>,
    label: Seq<char>,
    text: Seq<char>,
) -> Seq<(Seq<char>, Seq<char>)> {
    let kind = rule_kind(label, text);
    let key = target_key(m, label, kind);
    let with_value = put_filled(acc, key, rule_value(data, kind, text));
    if !is_fixed_target(kind) && has_infix(label, " Custom "@) {
        put_filled(with_value, key + "Label"@, text)
    } else {
        with_value
    }
}

/// The CEF extension that the rules draw from the data, rule by rule.
pub open spec fn extension_of(
    m: Seq<(Seq<char>, Seq<Seq<char>>)>,
    rules: Seq<(Seq<char>, Seq<char>)>,
    data: Seq<(Seq<char>, Seq<char>)>,
) -> Seq<(Seq<char>, Seq<char>)>
    decreases rules.len(),
{
    if rules.len() == 0 {
        Seq::empty()
    } else {
        apply_rule(m, data, extension_of(m, rules.drop_last(), data), rules.last().0, rules.last().1)
    }
}

/// `one_of` gives the first filled value, every value before it being blank; when no
/// value is filled it gives the empty text.
pub proof fn lemma_one_of_first(vals: Seq<Seq<char>>)
    ensures
        (exists|i: int| 0 <= i < vals.len() && is_filled(#[trigger] vals[i])) ==> exists|i: int|
            0 <= i < vals.len() && is_filled(#[trigger] vals[i]) && first_filled(vals) == vals[i]
                && forall|j: int| 0 <= j < i ==> !is_filled(#[trigger] vals[j]),
        (forall|i: int| 0 <= i < vals.len() ==> !is_filled(#[trigger] vals[i])) ==> first_filled(vals)
            == Seq::<char>::empty(),
    decreases vals.len(),
{
    if vals.len() > 0 {
        let rest = vals.skip(1);
        lemma_one_of_first(rest);
        if !is_filled(vals[0]) {
            if exists|i: int| 0 <= i < vals.len() && is_filled(#[trigger] vals[i]) {
                let i = choose|i: int| 0 <= i < vals.len() && is_filled(#[trigger] vals[i]);
                assert(is_filled(rest[i - 1]));
                let k = choose|k: int|
                    0 <= k < rest.len() && is_filled(#[trigger] rest[k]) && first_filled(rest) == rest[k]
                        && forall|j: int| 0 <= j < k ==> !is_filled(#[trigger] rest[j]);
                assert(vals[k + 1] == rest[k]);
                assert forall|j: int| 0 <= j < k + 1 implies !is_filled(#[trigger] vals[j]) by {
                    if j > 0 {
                        assert(vals[j] == rest[j - 1]);
                    }
                }
            }
            if forall|i: int| 0 <= i < vals.len() ==> !is_filled(#[trigger] vals[i]) {
                assert forall|i: int| 0 <= i < rest.len() implies !is_filled(#[trigger] rest[i]) by {
                    assert(rest[i] == vals[i + 1]);
                }
            }
        }
    }
}

/// `all_of` keeps exactly the filled values, in order: they are the values that
/// `Seq::filter` keeps.
pub proof fn lemma_all_of_keeps_filled(vals: Seq<Seq<char>>)
    ensures
        filled_values(vals) == vals.filter(|v: Seq<char>| is_filled(v)),
    decreases vals.len(),
{
    reveal(Seq::filter);
    if vals.len() > 0 {
        lemma_all_of_keeps_filled(vals.drop_last());
    }
}

/// A rule for a named field whose label holds ` Custom ` adds the entry `<key>Label`,
/// which holds the rule text, beside the entry of its key; a rule whose label does not
/// adds only the entry of its key.
pub proof fn lemma_custom_label(
    m: Seq<(Seq<char>, Seq<Seq<char>>)>,
    data: Seq<(Seq<char>, Seq<char>)>,
    label: Seq<char>,
    text: Seq<char>,
)
    requires
        !is_fixed_target(rule_kind(label, text)),
    ensures
        ({
            let key = resolve_label(m, label);
            let value = rule_value(data, rule_kind(label, text), text);
            let r = apply_rule(m, data, Seq::empty(), label, text);
            &&& has_infix(label, " Custom "@) && clean(key + "Label"@).len() > 0 && clean(text).len()
                > 0 ==> assoc_get(r, clean(key + "Label"@)) == Some(clean(text))
            &&& has_infix(label, " Custom "@) && clean(key).len() > 0 && clean(value).len() > 0
                && clean(key) != clean(key + "Label"@) ==> assoc_get(r, clean(key)) == Some(clean(value))
            &&& !has_infix(label, " Custom "@) ==> forall|i: int|
                0 <= i < r.len() ==> #[trigger] r[i].0 == clean(key)
        }),
{
    let kind = rule_kind(label, text);
    let key = resolve_label(m, label);
    let value = rule_value(data, kind, text);
    let empty = Seq::<(Seq<char>, Seq<char>)>::empty();
    let first = put_filled(empty, key, value);
    assert(keys_unique(empty));
    if clean(key).len() > 0 && clean(value).len() > 0 {
        lemma_put_facts(empty, clean(key), clean(value));
        assert(first =~= seq![(clean(key), clean(value))]);
    } else {
        assert(first == empty);
    }
    if has_infix(label, " Custom "@) {
        if clean(key + "Label"@).len() > 0 && clean(text).len() > 0 {
            lemma_put_facts(first, clean(key + "Label"@), clean(text));
            if clean(key) != clean(key + "Label"@) {
                lemma_put_other(first, clean(key + "Label"@), clean(text), clean(key));
            }
        }
    }
}

/// The extension that rules draw never holds a key twice.
pub proof fn lemma_extension_keys_unique(
    m: Seq<(Seq<char>, Seq<Seq<char>>)>,
    rules: Seq<(Seq<char>, Seq<char>)>,
    data: Seq<(Seq<char>, Seq<char>)>,
)
    ensures
        keys_unique(extension_of(m, rules, data)),
    decreases rules.len(),
{
    if rules.len() > 0 {
        lemma_extension_keys_unique(m, rules.drop_last(), data);
        let acc = extension_of(m, rules.drop_last(), data);
        let label = rules.last().0;
        let text = rules.last().1;
        let kind = rule_kind(label, text);
        let key = target_key(m, label, kind);
        let value = rule_value(data, kind, text);
        if clean(key).len() > 0 && clean(value).len() > 0 {
            lemma_put_facts(acc, clean(key), clean(value));
        }
        let first = put_filled(acc, key, value);
        if clean(key + "Label"@).len() > 0 && clean(text).len() > 0 {
            lemma_put_facts(first, clean(key + "Label"@), clean(text));
        }
    } else {
        assert(keys_unique(Seq::<(Seq<char>, Seq<char>)>::empty()));
    }
}

/// The form of the rule `text` for the target `label`.
pub fn parse_rule(label: &str, text: &str) -> (r: Rule)
    ensures
        r == rule_kind(label@, text@),
{
    if eq_ignore_ascii_case(label, "message") {
        if starts_with(text, "concatenate") {
            Rule::MessageConcat
        } else if eq_ignore_ascii_case(text, "all_of_data") {
            Rule::MessageAllOfData
        } else {
            Rule::MessageLiteral
        }
    } else if eq_ignore_ascii_case(label, "device action") {
        if has_space(text) {
            Rule::ActionLiteral
        } else {
            Rule::ActionLookup
        }
    } else if starts_with(text, "one_of(") {
        Rule::OneOf
    } else if starts_with(text, "all_of(") {
        Rule::AllOf
    } else if starts_with(text, "both(") {
        Rule::Both
    } else if starts_with(text, "concatenate") {
        Rule::Concatenate
    } else if contains(text, "IPv6 Address)") {
        Rule::Ipv6Filter
    } else if starts_with(text, "%") && count_char(text, '%') == 1 {
        Rule::ParamSubstitute
    } else {
        Rule::DirectLookup
    }
}

/// `s` holds the character `c`.
fn has_char(s: &str, c: char) -> (r: bool)
    ensures
        r == s@.contains(c),
{
    let v = chars_of(s);
    let mut i: usize = 0;
    while i < v.len()
        invariant
            v@ == s@,
            i <= v.len(),
            forall|j: int| 0 <= j < i ==> v@[j] != c,
        decreases v.len() - i,
    {
        if v[i] == c {
            return true;
        }
        i = i + 1;
    }
    false
}

fn has_space(s: &str) -> (r: bool)
    ensures
        r == s@.contains(' '),
{
    has_char(s, ' ')
}

/// The value of the data field `k`; empty when there is none.
pub fn field_value(data: &Vec<(String, String)>, k: &str) -> (r: String)
    ensures
        r@ == field_or_empty(data.deep_view(), k@),
{
    match get_text(data, k) {
        Some(v) => v,
        None => String::new(),
    }
}

/// The arguments of a rule: its comma-separated parts with `wrapper` and every `)` taken out.
pub fn rule_arguments(text: &str, wrapper: &str) -> (r: Vec<String>)
    ensures
        r.deep_view() == rule_args(text@, wrapper@),
{
    let parts = split(text, ',');
    let ghost ps = parts.deep_view();
    let mut out: Vec<String> = Vec::new();
    let mut i: usize = 0;
    while i < parts.len()
        invariant
            ps == parts.deep_view(),
            ps == split_on(text@, ','),
            i <= parts.len(),
            out.deep_view() == ps.take(i as int).map_values(|p: Seq<char>| drop_all(remove_all(p, wrapper@), ')')),
        decreases parts.len() - i,
    {
        let bare = remove_text(parts[i].as_str(), wrapper);
        let arg = without(bare.as_str(), ')');
        let ghost before = out.deep_view();
        out.push(arg);
        assert(ps[i as int] == parts[i as int]@);
        assert(out.deep_view() =~= before.push(arg@));
        assert(ps.take(i + 1).map_values(|p: Seq<char>| drop_all(remove_all(p, wrapper@), ')'))
            =~= ps.take(i as int).map_values(|p: Seq<char>| drop_all(remove_all(p, wrapper@), ')')).push(arg@));
        i = i + 1;
    }
    assert(ps.take(i as int) =~= ps);
    out
}

/// The first of the values that is not empty once trimmed; empty when none is.
pub fn one_of(values: &Vec<String>) -> (r: String)
    ensures
        r@ == first_filled(values.deep_view()),
{
    let ghost vs = values.deep_view();
    let mut i: usize = 0;
    assert(vs.skip(0) =~= vs);
    while i < values.len()
        invariant
            vs == values.deep_view(),
            i <= values.len(),
            first_filled(vs) == first_filled(vs.skip(i as int)),
        decreases values.len() - i,
    {
        assert(vs.skip(i as int).skip(1) =~= vs.skip(i + 1));
        assert(vs.skip(i as int)[0] == values[i as int]@);
        let t = trim(values[i].as_str());
        if !t.as_str().is_empty() {
            return values[i].clone();
        }
        i = i + 1;
    }
    String::new()
}

/// Every value that is not empty once trimmed, in order, joined by single spaces.
pub fn all_of(values: &Vec<String>) -> (r: String)
    ensures
        r@ == join(filled_values(values.deep_view()), " "@),
{
    let ghost vs = values.deep_view();
    let mut kept: Vec<String> = Vec::new();
    let mut i: usize = 0;
    assert(vs.take(0) =~= Seq::<Seq<char>>::empty());
    while i < values.len()
        invariant
            vs == values.deep_view(),
            i <= values.len(),
            kept.deep_view() == filled_values(vs.take(i as int)),
        decreases values.len() - i,
    {
        assert(vs.take(i + 1).drop_last() =~= vs.take(i as int));
        assert(vs[i as int] == values[i as int]@);
        let t = trim(values[i].as_str());
        if !t.as_str().is_empty() {
            let ghost before = kept.deep_view();
            let v = values[i].clone();
            kept.push(v);
            assert(kept.deep_view() =~= before.push(vs[i as int]));
        }
        i = i + 1;
    }
    assert(vs.take(i as int) =~= vs);
    join_with(&kept, " ")
}

/// `one_of` over the comma-separated parts of `text`.
pub fn one_of_text(text: &str) -> (r: String)
    ensures
        r@ == first_filled(split_on(text@, ',')),
{
    let parts = split(text, ',');
    one_of(&parts)
}

/// `all_of` over the comma-separated parts of `text`.
pub fn all_of_text(text: &str) -> (r: String)
    ensures
        r@ == join(filled_values(split_on(text@, ',')), " "@),
{
    let parts = split(text, ',');
    all_of(&parts)
}

/// Looks up the arguments of a `one_of(...)` rule and returns the first filled value.
pub fn do_one_of(xml_key: &String, event_data: &Vec<(String, String)>) -> (r: String)
    ensures
        r@ == first_filled(one_of_values(event_data.deep_view(), rule_args(xml_key@, "one_of("@))),
{
    let args = rule_arguments(xml_key.as_str(), "one_of(");
    let ghost a = args.deep_view();
    let ghost data = event_data.deep_view();
    let mut vals: Vec<String> = Vec::new();
    let mut i: usize = 0;
    while i < args.len()
        invariant
            a == args.deep_view(),
            data == event_data.deep_view(),
            i <= args.len(),
            vals.deep_view() == one_of_values(data, a.take(i as int)),
        decreases args.len() - i,
    {
        assert(a[i as int] == args[i as int]@);
        let arg = args[i].as_str();
        let v = if text_eq(arg, "localhost") || text_eq(arg, "No") || text_eq(arg, "Blocked") {
            args[i].clone()
        } else {
            field_value(event_data, arg)
        };
        let ghost before = vals.deep_view();
        vals.push(v);
        assert(vals.deep_view() =~= before.push(v@));
        assert(one_of_values(data, a.take(i + 1)) =~= one_of_values(data, a.take(i as int)).push(v@));
        i = i + 1;
    }
    assert(a.take(i as int) =~= a);
    one_of(&vals)
}

/// The values of the fields that the arguments name.
fn look_up_all(args: &Vec<String>, event_data: &Vec<(String, String)>) -> (r: Vec<String>)
    ensures
        r.deep_view() == lookups(event_data.deep_view(), args.deep_view()),
{
    let ghost a = args.deep_view();
    let ghost data = event_data.deep_view();
    let mut vals: Vec<String> = Vec::new();
    let mut i: usize = 0;
    while i < args.len()
        invariant
            a == args.deep_view(),
            data == event_data.deep_view(),
            i <= args.len(),
            vals.deep_view() == lookups(data, a.take(i as int)),
        decreases args.len() - i,
    {
        assert(a[i as int] == args[i as int]@);
        let v = field_value(event_data, args[i].as_str());
        let ghost before = vals.deep_view();
        vals.push(v);
        assert(vals.deep_view() =~= before.push(v@));
        assert(lookups(data, a.take(i + 1)) =~= lookups(data, a.take(i as int)).push(v@));
        i = i + 1;
    }
    assert(a.take(i as int) =~= a);
    vals
}

/// Looks up the arguments of an `all_of(...)` rule and joins the filled values.
pub fn do_all_of(xml_key: &String, event_data: &Vec<(String, String)>) -> (r: String)
    ensures
        r@ == join(filled_values(lookups(event_data.deep_view(), rule_args(xml_key@, "all_of("@))), " "@),
{
    let args = rule_arguments(xml_key.as_str(), "all_of(");
    let vals = look_up_all(&args, event_data);
    all_of(&vals)
}

/// Looks up the arguments of a `both(...)` rule and joins every value, empty or not.
pub fn do_both(xml_key: &String, event_data: &Vec<(String, String)>) -> (r: String)
    ensures
        r@ == join(lookups(event_data.deep_view(), rule_args(xml_key@, "both("@)), " "@),
{
    let args = rule_arguments(xml_key.as_str(), "both(");
    let vals = look_up_all(&args, event_data);
    join_with(&vals, " ")
}

/// The key of a positional parameter `%n`.
fn param_name(token: &str) -> (r: String)
    ensures
        r@ == param_key(token@),
{
    let digits = without(token, '%');
    let mut r = "param".to_string();
    r.append(digits.as_str());
    r
}

/// Puts together the message of a `concatenate(...)` rule.
pub fn do_msg_concat(xml_key: &String, event_data: &Vec<(String, String)>) -> (r: String)
    ensures
        r@ == concatenated(event_data.deep_view(), xml_key@),
{
    let toks = rule_arguments(xml_key.as_str(), "concatenate(");
    let ghost t = toks.deep_view();
    let ghost data = event_data.deep_view();
    let mut pieces: Vec<String> = Vec::new();
    let mut i: usize = 0;
    while i < toks.len()
        invariant
            t == toks.deep_view(),
            data == event_data.deep_view(),
            i <= toks.len(),
            pieces.deep_view() == t.take(i as int).map_values(|x: Seq<char>| concat_piece(data, x)),
        decreases toks.len() - i,
    {
        assert(t[i as int] == toks[i as int]@);
        let tok = toks[i].as_str();
        let piece = if starts_with(tok, "%") {
            let key = param_name(tok);
            let v = field_value(event_data, key.as_str());
            trim(v.as_str())
        } else {
            toks[i].clone()
        };
        let ghost before = pieces.deep_view();
        pieces.push(piece);
        assert(pieces.deep_view() =~= before.push(piece@));
        assert(t.take(i + 1).map_values(|x: Seq<char>| concat_piece(data, x)) =~= t.take(
            i as int,
        ).map_values(|x: Seq<char>| concat_piece(data, x)).push(piece@));
        i = i + 1;
    }
    assert(t.take(i as int) =~= t);
    let joined = join_with(&pieces, "");
    proof {
        reveal_strlit("");
        assert(""@ =~= Seq::<char>::empty());
    }
    without(joined.as_str(), '"')
}

/// Every data field with a non-empty value as a `key: value` line, the lines joined.
pub fn do_all_of_data(event_data: &Vec<(String, String)>) -> (r: String)
    ensures
        r@ == all_data_text(event_data.deep_view()),
{
    let ghost data = event_data.deep_view();
    let mut lines: Vec<String> = Vec::new();
    let mut i: usize = 0;
    assert(data.take(0) =~= Seq::<(Seq<char>, Seq<char>)>::empty());
    while i < event_data.len()
        invariant
            data == event_data.deep_view(),
            i <= event_data.len(),
            lines.deep_view() == data_lines(data.take(i as int)),
        decreases event_data.len() - i,
    {
        assert(data.take(i + 1).drop_last() =~= data.take(i as int));
        assert(data[i as int] == (event_data[i as int].0@, event_data[i as int].1@));
        if !event_data[i].1.as_str().is_empty() {
            let mut line = event_data[i].0.clone();
            line.append(": ");
            line.append(event_data[i].1.as_str());
            let ghost before = lines.deep_view();
            lines.push(line);
            assert(lines.deep_view() =~= before.push(line@));
        }
        i = i + 1;
    }
    assert(data.take(i as int) =~= data);
    let joined = join_with(&lines, "\n");
    without(joined.as_str(), '"')
}

/// The field named before the first space of the rule, when its value holds a colon.
pub fn do_ipv6(xml_key: &String, event_data: &Vec<(String, String)>) -> (r: String)
    ensures
        r@ == ipv6_value(event_data.deep_view(), xml_key@),
{
    let words = split(xml_key.as_str(), ' ');
    proof {
        lemma_split_nonempty(xml_key@, ' ');
    }
    assert(words.deep_view()[0] == words[0]@);
    let v = field_value(event_data, words[0].as_str());
    if has_char(v.as_str(), ':') {
        v
    } else {
        String::new()
    }
}

/// The value that the rule draws from the data.
pub fn rule_value_of(event_data: &Vec<(String, String)>, kind: Rule, xml_key: &String) -> (r: String)
    ensures
        r@ == rule_value(event_data.deep_view(), kind, xml_key@),
{
    match kind {
        Rule::MessageConcat => do_msg_concat(xml_key, event_data),
        Rule::Concatenate => do_msg_concat(xml_key, event_data),
        Rule::MessageAllOfData => do_all_of_data(event_data),
        Rule::MessageLiteral => xml_key.clone(),
        Rule::ActionLiteral => xml_key.clone(),
        Rule::ActionLookup => field_value(event_data, xml_key.as_str()),
        Rule::DirectLookup => field_value(event_data, xml_key.as_str()),
        Rule::OneOf => do_one_of(xml_key, event_data),
        Rule::AllOf => do_all_of(xml_key, event_data),
        Rule::Both => do_both(xml_key, event_data),
        Rule::Ipv6Filter => do_ipv6(xml_key, event_data),
        Rule::ParamSubstitute => {
            let key = param_name(xml_key.as_str());
            field_value(event_data, key.as_str())
        },
    }
}

/// Sets `k` to `v`, both cleaned, unless either is empty once cleaned.
fn put_if_filled(acc: &mut Vec<(String, String)>, k: &str, v: &str)
    ensures
        final(acc).deep_view() == put_filled(old(acc).deep_view(), k@, v@),
{
    let k2 = without(k, '"');
    let k3 = trim(k2.as_str());
    let v2 = without(v, '"');
    let v3 = trim(v2.as_str());
    if !k3.as_str().is_empty() && !v3.as_str().is_empty() {
        put_entry(acc, k3, v3);
    }
}

/// Adds to `acc` what the rule `xml_key` for the target `label` draws from the data.
pub fn apply_rule_to(
    cef_map: &CefMap,
    event_data: &Vec<(String, String)>,
    acc: &mut Vec<(String, String)>,
    label: &String,
    xml_key: &String,
)
    requires
        cef_map.wf(),
    ensures
        final(acc).deep_view() == apply_rule(
            cef_map.map.deep_view(),
            event_data.deep_view(),
            old(acc).deep_view(),
            label@,
            xml_key@,
        ),
{
    let kind = parse_rule(label.as_str(), xml_key.as_str());
    let fixed = match kind {
        Rule::MessageConcat | Rule::MessageAllOfData | Rule::MessageLiteral | Rule::ActionLiteral
        | Rule::ActionLookup => true,
        _ => false,
    };
    let key = match kind {
        Rule::MessageConcat | Rule::MessageAllOfData | Rule::MessageLiteral => "msg".to_string(),
        Rule::ActionLiteral | Rule::ActionLookup => "act".to_string(),
        _ => cef_map.get_cef_field_or_default(label.as_str()),
    };
    let value = rule_value_of(event_data, kind, xml_key);
    put_if_filled(acc, key.as_str(), value.as_str());
    if !fixed && contains(label.as_str(), " Custom ") {
        let mut label_key = key.clone();
        label_key.append("Label");
        put_if_filled(acc, label_key.as_str(), xml_key.as_str());
    }
}

/// The CEF extension that the rules, in order, draw from the event data.
pub fn build_extension(
    cef_map: &CefMap,
    rules: &Vec<(String, String)>,
    event_data: &Vec<(String, String)>,
) -> (r: Vec<(String, String)>)
    requires
        cef_map.wf(),
    ensures
        r.deep_view() == extension_of(cef_map.map.deep_view(), rules.deep_view(), event_data.deep_view()),
        keys_unique(r.deep_view()),
{
    proof {
        lemma_extension_keys_unique(cef_map.map.deep_view(), rules.deep_view(), event_data.deep_view());
    }
    let ghost rs = rules.deep_view();
    let mut acc: Vec<(String, String)> = Vec::new();
    let mut i: usize = 0;
    assert(rs.take(0) =~= Seq::<(Seq<char>, Seq<char>)>::empty());
    assert(acc.deep_view() =~= Seq::<(Seq<char>, Seq<char>)>::empty());
    while i < rules.len()
        invariant
            cef_map.wf(),
            rs == rules.deep_view(),
            i <= rules.len(),
            acc.deep_view() == extension_of(cef_map.map.deep_view(), rs.take(i as int), event_data.deep_view()),
        decreases rules.len() - i,
    {
        assert(rs.take(i + 1).drop_last() =~= rs.take(i as int));
        assert(rs[i as int] == (rules[i as int].0@, rules[i as int].1@));
        apply_rule_to(cef_map, event_data, &mut acc, &rules[i].0, &rules[i].1);
        i = i + 1;
    }
    assert(rs.take(i as int) =~= rs);
    acc
}

/// The CEF extension that the shipped tables draw from an event's keyed data: none when
/// the mapping table holds no rules for the event.
pub open spec fn mapped_extension(event_id: usize, data: Seq<(Seq<char>, Seq<char>)>) -> Option<Seq<(Seq<char>, Seq<char>)>> {
    match event_lookup(default_mapping(), event_id) {
        Some(e) => match e.mapping_info {
            Some(rules) => Some(extension_of(default_fields(), rules, data)),
            None => None,
        },
        None => None,
    }
}

/// Maps an event's keyed data to CEF extension fields with the shipped tables.
pub fn mapper(event_id: &usize, evt: &Vec<(String, String)>) -> (r: Option<Vec<(String, String)>>)
    ensures
        r.deep_view() == mapped_extension(*event_id, evt.deep_view()),
{
    let evt_mapping = load_mapping();
    let rules = match evt_mapping.get_mapping_info(event_id) {
        Some(m) => m,
        None => {
            return None;
        },
    };
    let cef_map = CefMap::load_cef_map();
    Some(build_extension(&cef_map, rules, evt))
}

} // verus!
