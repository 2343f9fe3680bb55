//! Numbered custom slots (`cn1`, `cs2`, ...): finding which are taken and the next free one.
use vstd::prelude::*;

use crate::text::{chars_of, decimal, digits_value, has_prefix, is_digit, starts_with, usize_text};

verus! {

/// `s` from its first digit on.
pub open spec fn from_first_digit(s: Seq<char>) -> Seq<char>
    decreases s.len(),
{
    if s.len() == 0 || is_digit(s[0]) {
        s
    } else {
        from_first_digit(s.skip(1))
    }
}

/// The digits that begin `s`.
pub open spec fn leading_digits(s: Seq<char>) -> Seq<char>
    decreases s.len(),
{
    if s.len() == 0 || !is_digit(s[0]) {
        Seq::empty()
    } else {
        seq![s[0]] + leading_digits(s.skip(1))
    }
}

/// The number that the first run of digits in `s` denotes; none when `s` has no digit or
/// the number does not fit.
pub open spec fn first_int(s: Seq<char>) -> Option<usize> {
    let run = leading_digits(from_first_digit(s));
    if run.len() > 0 && digits_value(run) <= usize::MAX {
        Some(digits_value(run) as usize)
    } else {
        None
    }
}

/// `s` ends with `p`.
pub open spec fn has_suffix(s: Seq<char>, p: Seq<char>) -> bool {
    p.len() <= s.len() && s.skip(s.len() - p.len()) == p
}

/// The smallest positive number that is not in `used`.
pub open spec fn is_next_free(used: Seq<usize>, n: usize) -> bool {
    &&& n >= 1
    &&& !used.contains(n)
    &&& forall|m: usize| 1 <= m < n ==> used.contains(m)
}

proof fn lemma_digits_prefix(run: Seq<char>, k: int)
    requires
        0 <= k <= run.len(),
        forall|i: int| 0 <= i < run.len() ==> is_digit(#[trigger] run[i]),
    ensures
        digits_value(run.take(k)) <= digits_value(run),
    decreases run.len() - k,
{
    if k < run.len() {
        lemma_digits_prefix(run, k + 1);
        assert(run.take(k + 1).drop_last() =~= run.take(k));
    } else {
        assert(run.take(k) =~= run);
    }
}

proof fn lemma_leading_digits_all(s: Seq<char>)
    ensures
        forall|i: int| 0 <= i < leading_digits(s).len() ==> is_digit(#[trigger] leading_digits(s)[i]),
        leading_digits(s).len() <= s.len(),
        forall|i: int| 0 <= i < leading_digits(s).len() ==> leading_digits(s)[i] == s[i],
        leading_digits(s).len() < s.len() ==> !is_digit(s[leading_digits(s).len() as int]),
    decreases s.len(),
{
    if s.len() > 0 && is_digit(s[0]) {
        let t = s.skip(1);
        lemma_leading_digits_all(t);
        let r = leading_digits(s);
        let rt = leading_digits(t);
        assert(r == seq![s[0]] + rt);
        assert forall|i: int| 0 <= i < r.len() implies r[i] == s[i] && is_digit(#[trigger] r[i]) by {
            if i > 0 {
                assert(r[i] == rt[i - 1]);
                assert(t[i - 1] == s[i]);
            }
        }
        if r.len() < s.len() {
            assert(t[rt.len() as int] == s[r.len() as int]);
        }
    }
}

/// The first whole number written in `input`.
pub fn parse_int(input: &str) -> (r: Option<usize>)
    ensures
        r == first_int(input@),
{
    let v = chars_of(input);
    let n = v.len();
    let mut i: usize = 0;
    assert(v@.skip(0) =~= v@);
    while i < n && !(0x30 <= (v[i] as u32) && (v[i] as u32) <= 0x39)
        invariant
            v@ == input@,
            i <= n == v.len(),
            from_first_digit(v@) == from_first_digit(v@.skip(i as int)),
        decreases n - i,
    {
        assert(v@.skip(i as int).skip(1) =~= v@.skip(i + 1));
        i = i + 1;
    }
    let ghost t = v@.skip(i as int);
    assert(from_first_digit(v@) == t);
    proof {
        lemma_leading_digits_all(t);
    }
    let ghost run = leading_digits(t);
    let start = i;
    let mut acc: usize = 0;
    assert(run.take(0) =~= Seq::<char>::empty());
    while i < n && 0x30 <= (v[i] as u32) && (v[i] as u32) <= 0x39
        invariant
            v@ == input@,
            start <= i <= n == v.len(),
            t == v@.skip(start as int),
            t == from_first_digit(input@),
            run == leading_digits(t),
            i - start <= run.len(),
            forall|j: int| 0 <= j < run.len() ==> is_digit(#[trigger] run[j]),
            forall|j: int| 0 <= j < run.len() ==> run[j] == t[j],
            run.len() < t.len() ==> !is_digit(t[run.len() as int]),
            acc == digits_value(run.take(i - start)),
        decreases n - i,
    {
        let k = i - start;
        assert(t[k as int] == v@[i as int]);
        proof {
            if k as int == run.len() {
                assert(false);
            }
        }
        assert(run[k as int] == v@[i as int]);
        assert(run.take(k + 1).drop_last() =~= run.take(k as int));
        let d = (v[i] as u32 - 0x30) as usize;
        if acc > (usize::MAX - d) / 10 {
            proof {
                lemma_digits_prefix(run, k + 1);
                assert(digits_value(run.take(k + 1)) == acc * 10 + d) by (nonlinear_arith)
                    requires
                        digits_value(run.take(k + 1)) == digits_value(run.take(k as int)) * 10 + d,
                        acc == digits_value(run.take(k as int)),
                ;
                assert(acc * 10 + d > usize::MAX) by (nonlinear_arith)
                    requires
                        acc > (usize::MAX - d) / 10,
                        d <= 9,
                ;
            }
            return None;
        }
        assert(acc * 10 + d <= usize::MAX) by (nonlinear_arith)
            requires
                acc <= (usize::MAX - d) / 10,
                d <= 9,
        ;
        acc = acc * 10 + d;
        i = i + 1;
    }
    let k = i - start;
    proof {
        if (k as int) < run.len() {
            assert(t[k as int] == v@[i as int]);
            assert(run[k as int] == t[k as int]);
            assert(false);
        }
    }
    assert(run.take(k as int) =~= run);
    if k == 0 {
        None
    } else {
        Some(acc)
    }
}

/// The smallest positive number that is not in `arr`.
pub fn next_usable_number(arr: Vec<usize>) -> (r: usize)
    requires
        arr.len() < usize::MAX,
    ensures
        is_next_free(arr@, r),
{
    let mut n: usize = 1;
    loop
        invariant
            arr.len() < usize::MAX,
            1 <= n <= arr.len() + 1,
            forall|m: usize| 1 <= m < n ==> arr@.contains(m),
        decreases arr.len() + 1 - n,
    {
        let mut found = false;
        let mut j: usize = 0;
        while j < arr.len()
            invariant
                j <= arr.len(),
                found == exists|k: int| 0 <= k < j && arr@[k] == n,
            decreases arr.len() - j,
        {
            if arr[j] == n {
                found = true;
            }
            j = j + 1;
        }
        if !found {
            return n;
        }
        if n == arr.len() + 1 {
            proof {
                let used = arr@.filter(|x: usize| 1 <= x <= n);
                assert forall|m: usize| 1 <= m <= n implies arr@.contains(m) by {
                    if m == n {
                        let k = choose|k: int| 0 <= k < arr.len() && arr@[k] == n;
                        assert(arr@[k] == m);
                    }
                }
                lemma_pigeonhole(arr@, n);
            }
        }
        n = n + 1;
    }
}

/// A sequence cannot hold each of `1..=n` with fewer than `n` entries.
proof fn lemma_pigeonhole(s: Seq<usize>, n: usize)
    requires
        forall|m: usize| 1 <= m <= n ==> s.contains(m),
    ensures
        s.len() >= n,
    decreases n,
{
    if n > 0 {
        assert(s.contains(n));
        let k = choose|k: int| 0 <= k < s.len() && s[k] == n;
        let t = s.subrange(0, k) + s.subrange(k + 1, s.len() as int);
        assert forall|m: usize| 1 <= m <= (n - 1) as usize implies t.contains(m) by {
            assert(s.contains(m));
            let j = choose|j: int| 0 <= j < s.len() && s[j] == m;
            if j < k {
                assert(t[j] == s[j]);
            } else {
                assert(j != k);
                assert(t[j - 1] == s[j]);
            }
        }
        lemma_pigeonhole(t, (n - 1) as usize);
    }
}

/// The numbers of the given slot names; a name without one counts as 0.
fn slot_numbers(names: &Vec<String>) -> (r: Vec<usize>)
    ensures
        r.len() == names.len(),
        forall|i: int| 0 <= i < names.len() ==> r@[i] == match first_int(#[trigger] names@[i]@) {
            Some(x) => x,
            None => 0,
        },
{
    let mut out: Vec<usize> = Vec::new();
    let mut i: usize = 0;
    while i < names.len()
        invariant
            i <= names.len(),
            out.len() == i,
            forall|j: int| 0 <= j < i ==> out@[j] == match first_int(#[trigger] names@[j]@) {
                Some(x) => x,
                None => 0,
            },
        decreases names.len() - i,
    {
        let x = match parse_int(names[i].as_str()) {
            Some(x) => x,
            None => 0,
        };
        out.push(x);
        i = i + 1;
    }
    out
}

/// `prefix` followed by the smallest positive number that no name in `taken` uses.
fn next_slot(prefix: &str, taken: &Vec<String>) -> (r: String)
    requires
        taken.len() < usize::MAX,
    ensures
        exists|n: usize|
            r@ == prefix@ + decimal(n as nat) && is_next_free(
                taken@.map_values(|x: String| match first_int(x@) {
                    Some(v) => v,
                    None => 0,
                }),
                n,
            ),
{
    let nums = slot_numbers(taken);
    assert(nums@ =~= taken@.map_values(|x: String| match first_int(x@) {
        Some(v) => v,
        None => 0,
    }));
    let n = next_usable_number(nums);
    let digits = usize_text(n);
    let mut r = prefix.to_string();
    r.append(digits.as_str());
    r
}

/// The next free `cnN` slot after those taken.
pub fn get_next_cn(cn: &Vec<String>) -> (r: String)
    requires
        cn.len() < usize::MAX,
    ensures
        exists|n: usize|
            r@ == "cn"@ + decimal(n as nat) && is_next_free(
                cn@.map_values(|x: String| match first_int(x@) {
                    Some(v) => v,
                    None => 0,
                }),
                n,
            ),
{
    next_slot("cn", cn)
}

/// The next free `csN` slot after those taken.
pub fn get_next_cs(cs: &Vec<String>) -> (r: String)
    requires
        cs.len() < usize::MAX,
    ensures
        exists|n: usize|
            r@ == "cs"@ + decimal(n as nat) && is_next_free(
                cs@.map_values(|x: String| match first_int(x@) {
                    Some(v) => v,
                    None => 0,
                }),
                n,
            ),
{
    next_slot("cs", cs)
}

/// The keys of an extension that begin with `filter_by` and are not labels.
pub open spec fn slot_keys(obj: Seq<(Seq<char>, Seq<char>)>, filter_by: Seq<char>) -> Seq<Seq<char>>
    decreases obj.len(),
{
    if obj.len() == 0 {
        Seq::empty()
    } else {
        let k = obj.last().0;
        let rest = slot_keys(obj.drop_last(), filter_by);
        if has_prefix(k, filter_by) && !has_suffix(k, "Label"@) {
            rest.push(k)
        } else {
            rest
        }
    }
}

/// `s` ends with `p`.
fn ends_with(s: &str, p: &str) -> (r: bool)
    ensures
        r == has_suffix(s@, p@),
{
    let v = chars_of(s);
    let w = chars_of(p);
    if w.len() > v.len() {
        return false;
    }
    let off = v.len() - w.len();
    let mut k: usize = 0;
    while k < w.len()
        invariant
            v@ == s@,
            w@ == p@,
            off == v.len() - w.len(),
            k <= w.len(),
            forall|j: int| 0 <= j < k ==> v@[off + j] == w@[j],
        decreases w.len() - k,
    {
        if v[off + k] != w[k] {
            assert(v@.skip(off as int)[k as int] != w@[k as int]);
            return false;
        }
        k = k + 1;
    }
    assert(v@.skip(off as int) =~= w@);
    true
}

/// The keys of an extension that begin with `filter_by` and are not labels, in order.
pub fn get_keys(obj: &Vec<(String, String)>, filter_by: &str) -> (r: Vec<String>)
    ensures
        r.deep_view() == slot_keys(obj.deep_view(), filter_by@),
{
    let ghost os = obj.deep_view();
    let mut out: Vec<String> = Vec::new();
    let mut i: usize = 0;
    assert(os.take(0) =~= Seq::<(Seq<char>, Seq<char>)>::empty());
    while i < obj.len()
        invariant
            os == obj.deep_view(),
            i <= obj.len(),
            out.deep_view() == slot_keys(os.take(i as int), filter_by@),
        decreases obj.len() - i,
    {
        assert(os.take(i + 1).drop_last() =~= os.take(i as int));
        assert(os[i as int].0 == obj[i as int].0@);
        let k = obj[i].0.as_str();
        if starts_with(k, filter_by) && !ends_with(k, "Label") {
            let ghost before = out.deep_view();
            let key = obj[i].0.clone();
            out.push(key);
            assert(out.deep_view() =~= before.push(os[i as int].0));
        }
        i = i + 1;
    }
    assert(os.take(i as int) =~= os);
    out
}

/// The `cnN` keys of an extension.
pub fn get_cn_keys(obj: &Vec<(String, String)>) -> (r: Vec<String>)
    ensures
        r.deep_view() == slot_keys(obj.deep_view(), "cn"@),
{
    get_keys(obj, "cn")
}

/// The `csN` keys of an extension.
pub fn get_cs_keys(obj: &Vec<(String, String)>) -> (r: Vec<String>)
    ensures
        r.deep_view() == slot_keys(obj.deep_view(), "cs"@),
{
    get_keys(obj, "cs")
}

} // verus!
