//! The CEF field name resolver: from any accepted label of a field to its CEF key.
use vstd::prelude::*;

use crate::builtin::CEF_FIELDS;
use crate::assoc::{assoc_get, assoc_put, get_text, put_entry};
use crate::text::{
    drop_ws, lemma_split_nonempty, split, split_on, trim, trimmed, without_spaces,
};

verus! {

/// What `str::to_lowercase` makes of a string.
pub uninterp spec fn lower_of(s: Seq<char>) -> Seq<char>;

/// What convert_case's `to_case(Case::Camel)` makes of a string.
pub uninterp spec fn camel_of(s: Seq<char>) -> Seq<char>;

/// Relies on `str::to_lowercase`: Unicode lower case, a function of the characters alone.
#[verifier::external_body]
fn lowercase(s: &str) -> (r: String)
    ensures
        r@ == lower_of(s@),
{
    s.to_lowercase()
}

/// Relies on convert_case's `Casing::to_case` with `Case::Camel`: the words of `s` run
/// together, the first in lower case and each later one capitalised; a function of the
/// characters alone.
#[verifier::external_body]
fn camel_case(s: &str) -> (r: String)
    ensures
        r@ == camel_of(s@),
{
    convert_case::Casing::to_case(&s, convert_case::Case::Camel)
}

/// The form under which labels are compared: white space taken out, then lower case.
pub open spec fn label_key(s: Seq<char>) -> Seq<char> {
    lower_of(drop_ws(s))
}

/// The rows of a field table: its lines, trimmed, each cut at its commas.
pub open spec fn table_rows(text: Seq<char>) -> Seq<Seq<Seq<char>>> {
    split_on(trimmed(text), '\n').map_values(|l: Seq<char>| split_on(trimmed(l), ','))
}

/// The forward map of a field table: each row's first cell is a CEF key, the rest its
/// labels; a later row for the same key replaces an earlier one.
pub open spec fn forward_of(rows: Seq<Seq<Seq<char>>>) -> Seq<(Seq<char>, Seq<Seq<char>>)>
    decreases rows.len(),
{
    if rows.len() == 0 {
        Seq::empty()
    } else {
        let row = rows.last();
        assoc_put(forward_of(rows.drop_last()), row[0], row.skip(1))
    }
}

/// `acc` with each of `labels`, in order, sent to `code`.
pub open spec fn invert_labels(
    acc: Seq<(Seq<char>, Seq<char>)>,
    code: Seq<char>,
    labels: Seq<Seq<char>>,
) -> Seq<(Seq<char>, Seq<char>)>
    decreases labels.len(),
{
    if labels.len() == 0 {
        acc
    } else {
        assoc_put(invert_labels(acc, code, labels.drop_last()), label_key(labels.last()), code)
    }
}

/// The inverted map: the compared form of every label to its CEF key, later entries
/// winning where two labels compare equal.
pub open spec fn invert(m: Seq<(Seq<char>, Seq<Seq<char>>)>) -> Seq<(Seq<char>, Seq<char>)>
    decreases m.len(),
{
    if m.len() == 0 {
        Seq::empty()
    } else {
        invert_labels(invert(m.drop_last()), m.last().0, m.last().1)
    }
}

/// The CEF key of a label under a forward map: the map's, else the label in camel case.
pub open spec fn resolve_label(m: Seq<(Seq<char>, Seq<Seq<char>>)>, label: Seq<char>) -> Seq<char> {
    match assoc_get(invert(m), label_key(label)) {
        Some(c) => c,
        None => camel_of(label),
    }
}

/// The forward map of the field table that ships with the library.
pub open spec fn default_fields() -> Seq<(Seq<char>, Seq<Seq<char>>)> {
    forward_of(table_rows(CEF_FIELDS@))
}

/// Labels that compare alike, that is that differ only in white space and letter case,
/// resolve alike: to the same key of the table, or both to none.
pub proof fn lemma_resolve_ignores_layout(
    m: Seq<(Seq<char>, Seq<Seq<char>>)>,
    a: Seq<char>,
    b: Seq<char>,
)
    requires
        label_key(a) == label_key(b),
    ensures
        assoc_get(invert(m), label_key(a)) == assoc_get(invert(m), label_key(b)),
        assoc_get(invert(m), label_key(a)) is Some ==> resolve_label(m, a) == resolve_label(m, b),
{
}

/// The CEF field table: CEF keys with their labels, and its inversion.
pub struct CefMap {
    pub map: Vec<(String, Vec<String>)>,
    pub inverted_map: Vec<(String, String)>,
}

impl CefMap {
    /// The inverted map is the inversion of the forward map.
    pub open spec fn wf(&self) -> bool {
        self.inverted_map.deep_view() == invert(self.map.deep_view())
    }

    /// The CEF key that a label resolves to through the table, if any.
    pub open spec fn lookup(&self, label: Seq<char>) -> Option<Seq<char>> {
        assoc_get(invert(self.map.deep_view()), label_key(label))
    }

    /// The CEF key of a label: the table's, else the label in camel case.
    pub open spec fn resolved(&self, label: Seq<char>) -> Seq<char> {
        resolve_label(self.map.deep_view(), label)
    }

    /// The compared form of a label.
    pub fn get_cef_value_hash(cef_val: String) -> (r: String)
        ensures
            r@ == label_key(cef_val@),
    {
        let bare = without_spaces(cef_val.as_str());
        lowercase(bare.as_str())
    }

    /// The forward map of a field table given as text.
    pub fn populate_map(text: String) -> (r: Vec<(String, Vec<String>)>)
        ensures
            r.deep_view() == forward_of(table_rows(text@)),
    {
        let body = trim(text.as_str());
        let lines = split(body.as_str(), '\n');
        let ghost rows = table_rows(text@);
        assert(rows.len() == lines.len());
        let mut map: Vec<(String, Vec<String>)> = Vec::new();
        let mut i: usize = 0;
        assert(rows.take(0) =~= Seq::<Seq<Seq<char>>>::empty());
        while i < lines.len()
            invariant
                rows == table_rows(text@),
                lines.deep_view() == split_on(trimmed(text@), '\n'),
                rows.len() == lines.len(),
                i <= lines.len(),
                map.deep_view() == forward_of(rows.take(i as int)),
            decreases lines.len() - i,
        {
            let line = trim(lines[i].as_str());
            let cells = split(line.as_str(), ',');
            proof {
                lemma_split_nonempty(line@, ',');
                assert(lines.deep_view()[i as int] == lines[i as int]@);
                assert(cells.deep_view() == rows[i as int]);
                assert(rows.take(i + 1).drop_last() =~= rows.take(i as int));
            }
            let mut labels: Vec<String> = Vec::new();
            let mut j: usize = 1;
            assert(labels.deep_view() =~= cells.deep_view().subrange(1, 1));
            while j < cells.len()
                invariant
                    1 <= j <= cells.len(),
                    labels.deep_view() == cells.deep_view().subrange(1, j as int),
                decreases cells.len() - j,
            {
                assert(cells.deep_view()[j as int] == cells[j as int]@);
                let ghost before = labels.deep_view();
                let cell = cells[j].clone();
                labels.push(cell);
                assert(labels.deep_view() =~= before.push(cells[j as int]@));
                assert(labels.deep_view() =~= cells.deep_view().subrange(1, j + 1));
                j = j + 1;
            }
            assert(labels.deep_view() =~= rows[i as int].skip(1));
            let ghost before = map.deep_view();
            put_entry(&mut map, cells[0].clone(), labels);
            i = i + 1;
        }
        assert(rows.take(i as int) =~= rows);
        map
    }

    /// The inversion of a forward map.
    pub fn populate_inverted_map(map: &Vec<(String, Vec<String>)>) -> (r: Vec<(String, String)>)
        ensures
            r.deep_view() == invert(map.deep_view()),
    {
        let mut inv: Vec<(String, String)> = Vec::new();
        let mut i: usize = 0;
        assert(map.deep_view().take(0) =~= Seq::<(Seq<char>, Seq<Seq<char>>)>::empty());
        while i < map.len()
            invariant
                i <= map.len(),
                inv.deep_view() == invert(map.deep_view().take(i as int)),
            decreases map.len() - i,
        {
            let labels = &map[i].1;
            let ghost m = map.deep_view();
            assert(m.take(i + 1).drop_last() =~= m.take(i as int));
            assert(m[i as int].1 == labels.deep_view());
            let ghost acc = inv.deep_view();
            let mut j: usize = 0;
            assert(labels.deep_view().take(0) =~= Seq::<Seq<char>>::empty());
            while j < labels.len()
                invariant
                    i < map.len(),
                    labels == &map[i as int].1,
                    acc == invert(map.deep_view().take(i as int)),
                    j <= labels.len(),
                    inv.deep_view() == invert_labels(acc, map[i as int].0@, labels.deep_view().take(j as int)),
                decreases labels.len() - j,
            {
                assert(labels.deep_view().take(j + 1).drop_last() =~= labels.deep_view().take(j as int));
                let key = Self::get_cef_value_hash(labels[j].clone());
                put_entry(&mut inv, key, map[i].0.clone());
                j = j + 1;
            }
            assert(labels.deep_view().take(j as int) =~= labels.deep_view());
            i = i + 1;
        }
        assert(map.deep_view().take(i as int) =~= map.deep_view());
        inv
    }

    /// The resolver for a field table given as text, one `key,label,label,...` row per line.
    pub fn from_mapping(text: &str) -> (r: CefMap)
        ensures
            r.wf(),
            r.map.deep_view() == forward_of(table_rows(text@)),
    {
        let map = Self::populate_map(text.to_string());
        let inverted_map = Self::populate_inverted_map(&map);
        CefMap { map, inverted_map }
    }

    /// The resolver for the field table that ships with the library.
    pub fn load_cef_map() -> (r: CefMap)
        ensures
            r.wf(),
            r.map.deep_view() == default_fields(),
    {
        Self::from_mapping(CEF_FIELDS)
    }

    /// The CEF key that `field` resolves to through the table, if any.
    pub fn get_cef_field(&self, field: &str) -> (r: Option<String>)
        requires
            self.wf(),
        ensures
            r.deep_view() == self.lookup(field@),
    {
        self.get_cef_field_for(field)
    }

    /// The CEF key that `field` resolves to through the table, if any.
    pub fn get_cef_field_for(&self, field: &str) -> (r: Option<String>)
        requires
            self.wf(),
        ensures
            r.deep_view() == self.lookup(field@),
    {
        let key = Self::get_cef_value_hash(field.to_string());
        get_text(&self.inverted_map, key.as_str())
    }

    /// The CEF key of `field`: the table's, else `field` in camel case.
    pub fn get_cef_field_or_default(&self, field: &str) -> (r: String)
        requires
            self.wf(),
        ensures
            r@ == self.resolved(field@),
    {
        match self.get_cef_field_for(field) {
            Some(f) => f,
            None => camel_case(field),
        }
    }
}

} // verus!
