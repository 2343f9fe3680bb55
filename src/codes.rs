//! Code tables: what the numeric and hexadecimal codes of an event record mean in words.
use vstd::prelude::*;

use crate::builtin::{EVENT_LOG_TASKS, EVENT_NAMES, SECURITY_AUDIT_TASKS, SETUP_TASKS};
use crate::text::{
    decimal, parse_usize, parsed_usize, split, split_on, text_eq, trim,
    trimmed, usize_text,
};

verus! {

/// The entry that one line of a code table gives: the number in column `k` and the text
/// in column `v`, when the line has both and the first is a number.
pub open spec fn row_entry(line: Seq<char>, sep: char, k: int, v: int) -> Option<(usize, Seq<char>)> {
    let cols = split_on(line, sep);
    if 0 <= k < cols.len() && 0 <= v < cols.len() && parsed_usize(cols[k]) is Some {
        Some((parsed_usize(cols[k])->0, cols[v]))
    } else {
        None
    }
}

/// The entries of the given lines, in order; lines that give none are passed over.
pub open spec fn code_entries(lines: Seq<Seq<char>>, sep: char, k: int, v: int) -> Seq<(usize, Seq<char>)>
    decreases lines.len(),
{
    if lines.len() == 0 {
        Seq::empty()
    } else {
        let e = code_entries(lines.drop_last(), sep, k, v);
        match row_entry(lines.last(), sep, k, v) {
            Some(x) => e.push(x),
            None => e,
        }
    }
}

/// The entries of a code table given as text.
pub open spec fn code_table(text: Seq<char>, line_break: char, sep: char, k: int, v: int) -> Seq<(usize, Seq<char>)> {
    code_entries(split_on(trimmed(text), line_break), sep, k, v)
}

/// The text of the last entry for `id`.
pub open spec fn code_lookup(t: Seq<(usize, Seq<char>)>, id: usize) -> Option<Seq<char>>
    decreases t.len(),
{
    if t.len() == 0 {
        None
    } else if t.last().0 == id {
        Some(t.last().1)
    } else {
        code_lookup(t.drop_last(), id)
    }
}

/// The name found, else the code in parentheses.
pub open spec fn task_text(found: Option<Seq<char>>, id: usize) -> Seq<char> {
    match found {
        Some(n) => n,
        None => "("@ + decimal(id as nat) + ")"@,
    }
}

/// The name found, else `EventID-` and the ID.
pub open spec fn event_name_text(found: Option<Seq<char>>, id: usize) -> Seq<char> {
    match found {
        Some(n) => n,
        None => "EventID-"@ + decimal(id as nat),
    }
}

/// The name of a level code; an unknown code stands for itself.
pub open spec fn level_text(level: usize) -> Seq<char> {
    if level == 0 || level == 4 {
        "Information"@
    } else if level == 1 {
        "Critical"@
    } else if level == 2 {
        "Error"@
    } else if level == 3 {
        "Warning"@
    } else if level == 5 {
        "Verbose"@
    } else {
        decimal(level as nat)
    }
}

/// The CEF severity of a level name.
pub open spec fn severity_of(level: Seq<char>) -> usize {
    if level == "Information"@ {
        2
    } else if level == "Critical"@ {
        10
    } else if level == "Error"@ {
        7
    } else if level == "Warning"@ {
        6
    } else if level == "Verbose"@ {
        4
    } else {
        0
    }
}

/// The name of an opcode; an unknown code stands for itself.
pub open spec fn opcode_text(code: usize) -> Seq<char> {
    if code == 0 {
        "Info"@
    } else if code == 1 {
        "Start"@
    } else if code == 2 {
        "Stop"@
    } else if code == 3 {
        "Data Collection Start"@
    } else if code == 4 {
        "Data Collection Stop"@
    } else if code == 5 {
        "Extension"@
    } else if code == 6 {
        "Reply"@
    } else if code == 7 {
        "Resume"@
    } else if code == 8 {
        "Suspend"@
    } else if code == 9 {
        "Send"@
    } else if code == 240 {
        "Receive"@
    } else {
        decimal(code as nat)
    }
}

/// The phrase of a keyword mask; an unknown mask stands for itself.
pub open spec fn keywords_text(mask: Seq<char>) -> Seq<char> {
    if mask == "0x8020000000000000"@ {
        "Audit Success"@
    } else if mask == "0x8010000000000000"@ {
        "Audit Failure"@
    } else if mask == "0x80000000000000"@ {
        "Classic"@
    } else {
        mask
    }
}

/// The name of a task code, scoped by the provider that raised the event: `None` for 0;
/// the security-auditing table for the security-auditing provider, the event log table
/// for the event log service; else the code in parentheses.
pub open spec fn scoped_task_text(provider: Option<Seq<char>>, task: usize) -> Seq<char> {
    if task == 0 {
        "None"@
    } else if provider == Some("Microsoft-Windows-Security-Auditing"@) {
        task_text(code_lookup(code_table(SECURITY_AUDIT_TASKS@, '\n', ',', 1, 2), task), task)
    } else if provider == Some("Microsoft-Windows-Eventlog"@) {
        task_text(code_lookup(code_table(EVENT_LOG_TASKS@, '\n', ',', 1, 2), task), task)
    } else {
        task_text(None, task)
    }
}

/// The entries of a code table: its lines, cut at `string_break`, each giving the
/// number in column `key_index` and the text in column `val_index`.
pub fn get_map(text_str: &str, line_break: char, string_break: char, columns: (usize, usize)) -> (r: Vec<(usize, String)>)
    ensures
        r.deep_view() == code_table(text_str@, line_break, string_break, columns.0 as int, columns.1 as int),
{
    let (key_index, val_index) = columns;
    let body = trim(text_str);
    let lines = split(body.as_str(), line_break);
    let ghost ls = lines.deep_view();
    let mut out: Vec<(usize, String)> = Vec::new();
    let mut i: usize = 0;
    assert(ls.take(0) =~= Seq::<Seq<char>>::empty());
    while i < lines.len()
        invariant
            ls == lines.deep_view(),
            ls == split_on(trimmed(text_str@), line_break),
            key_index == columns.0,
            val_index == columns.1,
            i <= lines.len(),
            out.deep_view() == code_entries(ls.take(i as int), string_break, key_index as int, val_index as int),
        decreases lines.len() - i,
    {
        assert(ls.take(i + 1).drop_last() =~= ls.take(i as int));
        assert(ls[i as int] == lines[i as int]@);
        let cols = split(lines[i].as_str(), string_break);
        if key_index < cols.len() && val_index < cols.len() {
            assert(cols.deep_view()[key_index as int] == cols[key_index as int]@);
            assert(cols.deep_view()[val_index as int] == cols[val_index as int]@);
            match parse_usize(cols[key_index].as_str()) {
                Some(id) => {
                    let ghost before = out.deep_view();
                    let name = cols[val_index].clone();
                    out.push((id, name));
                    assert(out.deep_view() =~= before.push((id, cols[val_index as int]@)));
                },
                None => {},
            }
        }
        i = i + 1;
    }
    assert(ls.take(i as int) =~= ls);
    out
}

/// The text of the last entry for `id`.
pub fn find_code(t: &Vec<(usize, String)>, id: usize) -> (r: Option<String>)
    ensures
        r.deep_view() == code_lookup(t.deep_view(), id),
{
    let mut i: usize = t.len();
    assert(t.deep_view().take(t.len() as int) =~= t.deep_view());
    while i > 0
        invariant
            i <= t.len(),
            code_lookup(t.deep_view(), id) == code_lookup(t.deep_view().take(i as int), id),
        decreases i,
    {
        assert(t.deep_view().take(i as int).drop_last() =~= t.deep_view().take(i - 1));
        if t[i - 1].0 == id {
            return Some(t[i - 1].1.clone());
        }
        i = i - 1;
    }
    None
}

fn lookup_task(table: &str, task_id: usize) -> (r: String)
    ensures
        r@ == task_text(code_lookup(code_table(table@, '\n', ',', 1, 2), task_id), task_id),
{
    let tasks = get_map(table, '\n', ',', (1, 2));
    match find_code(&tasks, task_id) {
        Some(name) => name,
        None => in_parentheses(task_id),
    }
}

/// The code in parentheses, the name of a task that no table knows.
fn in_parentheses(task_id: usize) -> (r: String)
    ensures
        r@ == task_text(None, task_id),
{
    let mut r = "(".to_string();
    let n = usize_text(task_id);
    r.append(n.as_str());
    r.append(")");
    r
}

/// The name of a security-auditing task, else the code in parentheses.
pub fn get_sa_tasks_mapping(task_id: usize) -> (r: String)
    ensures
        r@ == task_text(code_lookup(code_table(SECURITY_AUDIT_TASKS@, '\n', ',', 1, 2), task_id), task_id),
{
    lookup_task(SECURITY_AUDIT_TASKS, task_id)
}

/// The name of a setup task, else the code in parentheses.
pub fn get_setup_tasks_mapping(task_id: usize) -> (r: String)
    ensures
        r@ == task_text(code_lookup(code_table(SETUP_TASKS@, '\n', ',', 1, 2), task_id), task_id),
{
    lookup_task(SETUP_TASKS, task_id)
}

/// The name of an event log service task, else the code in parentheses.
pub fn get_event_log_tasks_mapping(task_id: usize) -> (r: String)
    ensures
        r@ == task_text(code_lookup(code_table(EVENT_LOG_TASKS@, '\n', ',', 1, 2), task_id), task_id),
{
    lookup_task(EVENT_LOG_TASKS, task_id)
}

/// The name of a task code, scoped by the provider that raised the event.
pub fn task_name_for(provider: Option<&String>, task: usize) -> (r: String)
    ensures
        r@ == scoped_task_text(
            match provider {
                Some(p) => Some(p@),
                None => None,
            },
            task,
        ),
{
    if task == 0 {
        return "None".to_string();
    }
    let p = match provider {
        Some(p) => p.as_str(),
        None => {
            return in_parentheses(task);
        },
    };
    if text_eq(p, "Microsoft-Windows-Security-Auditing") {
        get_sa_tasks_mapping(task)
    } else if text_eq(p, "Microsoft-Windows-Eventlog") {
        get_event_log_tasks_mapping(task)
    } else {
        in_parentheses(task)
    }
}

/// The name of an event ID from the table of event names, else `EventID-` and the ID.
pub fn get_event_mapping(event_id: usize) -> (r: String)
    ensures
        r@ == event_name_text(code_lookup(code_table(EVENT_NAMES@, '\n', ',', 0, 1), event_id), event_id),
{
    let events = get_map(EVENT_NAMES, '\n', ',', (0, 1));
    match find_code(&events, event_id) {
        Some(name) => name,
        None => {
            let mut r = "EventID-".to_string();
            let n = usize_text(event_id);
            r.append(n.as_str());
            r
        },
    }
}

/// The name of a level code.
pub fn from_usize_to_string(level: &usize) -> (r: String)
    ensures
        r@ == level_text(*level),
{
    match *level {
        0 | 4 => "Information".to_string(),
        1 => "Critical".to_string(),
        2 => "Error".to_string(),
        3 => "Warning".to_string(),
        5 => "Verbose".to_string(),
        _ => usize_text(*level),
    }
}

/// The CEF severity of a level name.
pub fn from_string_to_usize(level: &String) -> (r: usize)
    ensures
        r == severity_of(level@),
{
    if text_eq(level.as_str(), "Information") {
        2
    } else if text_eq(level.as_str(), "Critical") {
        10
    } else if text_eq(level.as_str(), "Error") {
        7
    } else if text_eq(level.as_str(), "Warning") {
        6
    } else if text_eq(level.as_str(), "Verbose") {
        4
    } else {
        0
    }
}

/// The name of an opcode.
pub fn opcode_map(code: usize) -> (r: String)
    ensures
        r@ == opcode_text(code),
{
    match code {
        0 => "Info".to_string(),
        1 => "Start".to_string(),
        2 => "Stop".to_string(),
        3 => "Data Collection Start".to_string(),
        4 => "Data Collection Stop".to_string(),
        5 => "Extension".to_string(),
        6 => "Reply".to_string(),
        7 => "Resume".to_string(),
        8 => "Suspend".to_string(),
        9 => "Send".to_string(),
        240 => "Receive".to_string(),
        _ => usize_text(code),
    }
}

/// The phrase of a keyword mask written in hexadecimal.
pub fn keywords_map(mask: &str) -> (r: String)
    ensures
        r@ == keywords_text(mask@),
{
    if text_eq(mask, "0x8020000000000000") {
        "Audit Success".to_string()
    } else if text_eq(mask, "0x8010000000000000") {
        "Audit Failure".to_string()
    } else if text_eq(mask, "0x80000000000000") {
        "Classic".to_string()
    } else {
        mask.to_string()
    }
}

} // verus!
