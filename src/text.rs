use vstd::prelude::*;
use vstd::string::*;

verus! {

/// `pat` occurs in `s` at position `i`.
pub open spec fn match_at(s: Seq<char>, pat: Seq<char>, i: int) -> bool {
    0 <= i && i + pat.len() <= s.len() && s.subrange(i, i + pat.len()) == pat
}

/// Position of the first occurrence of `pat` in `s` at or after `from`.
pub open spec fn find_from(s: Seq<char>, pat: Seq<char>, from: int) -> Option<int>
    decreases s.len() + 1 - from,
{
    if from < 0 || from + pat.len() > s.len() {
        None
    } else if match_at(s, pat, from) {
        Some(from)
    } else {
        find_from(s, pat, from + 1)
    }
}

/// Field `n` of the text of `s` that starts at `from`, the fields being
/// separated by non-overlapping occurrences of `pat`, found left to right.
pub open spec fn field_from(s: Seq<char>, pat: Seq<char>, n: nat, from: int) -> Option<Seq<char>>
    decreases n,
{
    match find_from(s, pat, from) {
        None => if n == 0 {
            Some(s.subrange(from, s.len() as int))
        } else {
            None
        },
        Some(e) => if n == 0 {
            Some(s.subrange(from, e))
        } else {
            field_from(s, pat, (n - 1) as nat, e + pat.len())
        },
    }
}

/// Field `n` of `s` split on `pat`.
pub open spec fn field(s: Seq<char>, pat: Seq<char>, n: nat) -> Option<Seq<char>> {
    field_from(s, pat, n, 0)
}

pub proof fn lemma_find_from_bounds(s: Seq<char>, pat: Seq<char>, from: int)
    ensures
        find_from(s, pat, from) matches Some(e) ==> from <= e && e + pat.len() <= s.len()
            && match_at(s, pat, e),
    decreases s.len() + 1 - from,
{
    if !(from < 0 || from + pat.len() > s.len()) && !match_at(s, pat, from) {
        lemma_find_from_bounds(s, pat, from + 1);
    }
}

pub(crate) fn match_at_exec(s: &str, slen: usize, pat: &str, plen: usize, i: usize) -> (r: bool)
    requires
        slen == s@.len(),
        plen == pat@.len(),
        i <= slen,
    ensures
        r == match_at(s@, pat@, i as int),
{
    if plen > slen - i {
        return false;
    }
    let mut j: usize = 0;
    while j < plen
        invariant
            j <= plen,
            i + plen <= slen,
            slen == s@.len(),
            plen == pat@.len(),
            forall|k: int| 0 <= k < j ==> s@[i + k] == pat@[k],
        decreases plen - j,
    {
        if s.get_char(i + j) != pat.get_char(j) {
            assert(s@.subrange(i as int, i + plen)[j as int] != pat@[j as int]);
            return false;
        }
        j = j + 1;
    }
    assert(s@.subrange(i as int, i + plen) =~= pat@);
    true
}

pub(crate) fn find_from_exec(s: &str, slen: usize, pat: &str, plen: usize, from: usize) -> (r: Option<usize>)
    requires
        slen == s@.len(),
        plen == pat@.len(),
        from <= slen,
    ensures
        match r {
            Some(e) => find_from(s@, pat@, from as int) == Some(e as int),
            None => find_from(s@, pat@, from as int).is_none(),
        },
{
    let mut i = from;
    while plen <= slen - i
        invariant
            from <= i,
            i <= slen,
            slen == s@.len(),
            plen == pat@.len(),
            find_from(s@, pat@, from as int) == find_from(s@, pat@, i as int),
        decreases slen - i,
    {
        if match_at_exec(s, slen, pat, plen, i) {
            return Some(i);
        }
        if i == slen {
            assert(find_from(s@, pat@, i + 1).is_none());
            return None;
        }
        i = i + 1;
    }
    None
}

/// Field `n` of `s` split on `pat`, as `str::split(pat).nth(n)` gives it.
pub fn split_field<'a>(s: &'a str, pat: &str, n: usize) -> (r: Option<&'a str>)
    requires
        pat@.len() > 0,
    ensures
        match r {
            Some(f) => field(s@, pat@, n as nat) == Some(f@),
            None => field(s@, pat@, n as nat).is_none(),
        },
{
    let slen = s.unicode_len();
    let plen = pat.unicode_len();
    let mut from: usize = 0;
    let mut k: usize = 0;
    while k < n
        invariant
            k <= n,
            from <= slen,
            slen == s@.len(),
            plen == pat@.len(),
            plen > 0,
            field(s@, pat@, n as nat) == field_from(s@, pat@, (n - k) as nat, from as int),
        decreases n - k,
    {
        proof {
            lemma_find_from_bounds(s@, pat@, from as int);
        }
        match find_from_exec(s, slen, pat, plen, from) {
            None => {
                return None;
            },
            Some(e) => {
                from = e + plen;
            },
        }
        k = k + 1;
    }
    proof {
        lemma_find_from_bounds(s@, pat@, from as int);
    }
    match find_from_exec(s, slen, pat, plen, from) {
        None => Some(s.substring_char(from, slen)),
        Some(e) => Some(s.substring_char(from, e)),
    }
}

/// Whether two texts are equal.
pub fn same_text(a: &str, b: &str) -> (r: bool)
    ensures
        r == (a@ == b@),
{
    a.to_owned() == b.to_owned()
}

/// A text with `n + 1` fields has each of its first fields too.
pub proof fn lemma_earlier_fields(s: Seq<char>, pat: Seq<char>, n: nat, from: int, m: nat)
    requires
        m <= n,
        0 <= from <= s.len(),
        field_from(s, pat, n, from).is_some(),
        pat.len() > 0,
    ensures
        field_from(s, pat, m, from).is_some(),
    decreases n,
{
    if m < n && n > 0 {
        if let Some(e) = find_from(s, pat, from) {
            lemma_find_from_bounds(s, pat, from);
            if m > 0 {
                lemma_earlier_fields(s, pat, (n - 1) as nat, e + pat.len(), (m - 1) as nat);
            }
        }
    }
}

/// Whether `c` has the Unicode `White_Space` property, which is what
/// `char::is_whitespace` and `str::trim` go by.
pub open spec fn is_space(c: char) -> bool {
    ('\u{9}' <= c && c <= '\u{d}') || c == ' ' || c == '\u{85}' || c == '\u{a0}' || c
        == '\u{1680}' || ('\u{2000}' <= c && c <= '\u{200a}') || c == '\u{2028}' || c
        == '\u{2029}' || c == '\u{202f}' || c == '\u{205f}' || c == '\u{3000}'
}

/// Whether `c` is a whitespace character.
pub fn space_char(c: char) -> (r: bool)
    ensures
        r == is_space(c),
{
    ('\u{9}' <= c && c <= '\u{d}') || c == ' ' || c == '\u{85}' || c == '\u{a0}' || c
        == '\u{1680}' || ('\u{2000}' <= c && c <= '\u{200a}') || c == '\u{2028}' || c
        == '\u{2029}' || c == '\u{202f}' || c == '\u{205f}' || c == '\u{3000}'
}

/// Number of leading whitespace characters of `s`.
pub open spec fn leading_space(s: Seq<char>) -> nat
    decreases s.len(),
{
    if s.len() > 0 && is_space(s[0]) {
        1 + leading_space(s.drop_first())
    } else {
        0
    }
}

/// Number of trailing whitespace characters of `s`.
pub open spec fn trailing_space(s: Seq<char>) -> nat
    decreases s.len(),
{
    if s.len() > 0 && is_space(s.last()) {
        1 + trailing_space(s.drop_last())
    } else {
        0
    }
}

/// `s` without its leading and trailing whitespace.
pub open spec fn trimmed(s: Seq<char>) -> Seq<char> {
    let t = s.subrange(leading_space(s) as int, s.len() as int);
    t.subrange(0, t.len() - trailing_space(t))
}

proof fn lemma_leading_space(s: Seq<char>, i: int)
    requires
        0 <= i <= s.len(),
        forall|k: int| 0 <= k < i ==> is_space(#[trigger] s[k]),
    ensures
        leading_space(s) == i + leading_space(s.subrange(i, s.len() as int)),
        leading_space(s) <= s.len(),
    decreases i,
{
    lemma_space_bound(s);
    if i > 0 {
        let d = s.drop_first();
        assert forall|k: int| 0 <= k < i - 1 implies is_space(#[trigger] d[k]) by {
            assert(d[k] == s[k + 1]);
        }
        lemma_leading_space(d, i - 1);
        assert(d.subrange(i - 1, d.len() as int) =~= s.subrange(i, s.len() as int));
    } else {
        assert(s.subrange(0, s.len() as int) =~= s);
    }
}

proof fn lemma_space_bound(s: Seq<char>)
    ensures
        leading_space(s) <= s.len(),
        trailing_space(s) <= s.len(),
    decreases s.len(),
{
    if s.len() > 0 {
        lemma_space_bound(s.drop_first());
        lemma_space_bound(s.drop_last());
    }
}

proof fn lemma_trailing_space(s: Seq<char>, j: int)
    requires
        0 <= j <= s.len(),
        forall|k: int| j <= k < s.len() ==> is_space(#[trigger] s[k]),
    ensures
        trailing_space(s) == (s.len() - j) + trailing_space(s.subrange(0, j)),
    decreases s.len() - j,
{
    if j < s.len() {
        let d = s.drop_last();
        assert forall|k: int| j <= k < d.len() implies is_space(#[trigger] d[k]) by {
            assert(d[k] == s[k]);
        }
        lemma_trailing_space(d, j);
        assert(d.subrange(0, j) =~= s.subrange(0, j));
    } else {
        assert(s.subrange(0, j) =~= s);
    }
}

/// `s` without its leading and trailing whitespace, as `str::trim` gives it.
pub fn trim(s: &str) -> (r: &str)
    ensures
        r@ == trimmed(s@),
{
    let n = s.unicode_len();
    let mut i: usize = 0;
    while i < n && space_char(s.get_char(i))
        invariant
            i <= n,
            n == s@.len(),
            forall|k: int| 0 <= k < i ==> is_space(#[trigger] s@[k]),
        decreases n - i,
    {
        i = i + 1;
    }
    proof {
        lemma_leading_space(s@, i as int);
        let rest = s@.subrange(i as int, n as int);
        if i < n {
            assert(rest[0] == s@[i as int]);
        }
        assert(leading_space(rest) == 0);
    }
    let mut j: usize = n;
    while j > i && space_char(s.get_char(j - 1))
        invariant
            i <= j <= n,
            n == s@.len(),
            forall|k: int| j <= k < n ==> is_space(#[trigger] s@[k]),
        decreases j,
    {
        j = j - 1;
    }
    proof {
        let t = s@.subrange(i as int, n as int);
        assert forall|k: int| j - i <= k < t.len() implies is_space(#[trigger] t[k]) by {
            assert(t[k] == s@[i + k]);
        }
        lemma_trailing_space(t, j - i);
        let u = t.subrange(0, j - i);
        if j > i {
            assert(u.last() == s@[j - 1]);
        }
        assert(trailing_space(u) == 0);
        assert(t.subrange(0, t.len() - trailing_space(t)) =~= s@.subrange(i as int, j as int));
    }
    s.substring_char(i, j)
}

/// `pat` occurs somewhere in `s`.
pub open spec fn contains_text_spec(s: Seq<char>, pat: Seq<char>) -> bool {
    exists|i: int| match_at(s, pat, i)
}

proof fn lemma_find_none(s: Seq<char>, pat: Seq<char>, from: int, i: int)
    requires
        0 <= from <= i,
        find_from(s, pat, from).is_none(),
    ensures
        !match_at(s, pat, i),
    decreases i - from,
{
    if from < i && !(from + pat.len() > s.len()) {
        lemma_find_none(s, pat, from + 1, i);
    }
}

/// Whether `pat` occurs in `s`, as `str::contains` says.
pub fn contains_text(s: &str, pat: &str) -> (r: bool)
    ensures
        r == contains_text_spec(s@, pat@),
{
    let n = s.unicode_len();
    let p = pat.unicode_len();
    let r = find_from_exec(s, n, pat, p, 0);
    proof {
        lemma_find_from_bounds(s@, pat@, 0);
        if r.is_none() {
            assert forall|i: int| !match_at(s@, pat@, i) by {
                if i >= 0 {
                    lemma_find_none(s@, pat@, 0, i);
                }
            }
        }
    }
    r.is_some()
}

/// `s` starts with `pat`.
pub fn starts_with_text(s: &str, pat: &str) -> (r: bool)
    ensures
        r == match_at(s@, pat@, 0),
{
    let n = s.unicode_len();
    let p = pat.unicode_len();
    match_at_exec(s, n, pat, p, 0)
}

/// A text has at most as many separated fields beyond the first as it has
/// characters from where the fields start.
pub proof fn lemma_field_count(s: Seq<char>, pat: Seq<char>, n: nat, from: int)
    requires
        0 <= from <= s.len(),
        pat.len() > 0,
        field_from(s, pat, n, from).is_some(),
    ensures
        n <= s.len() - from,
    decreases n,
{
    if n > 0 {
        lemma_find_from_bounds(s, pat, from);
        let e = find_from(s, pat, from).unwrap();
        lemma_field_count(s, pat, (n - 1) as nat, e + pat.len());
    }
}

/// Once a field is missing, so are all that follow.
pub proof fn lemma_fields_end(s: Seq<char>, pat: Seq<char>, n: nat, m: nat)
    requires
        n <= m,
        pat.len() > 0,
        field(s, pat, n).is_none(),
    ensures
        field(s, pat, m).is_none(),
{
    if field(s, pat, m).is_some() {
        lemma_earlier_fields(s, pat, m, 0, n);
    }
}

/// A text with as many fields beyond the first as it has characters from
/// where the fields start has an empty last field.
pub proof fn lemma_last_field_empty(s: Seq<char>, pat: Seq<char>, n: nat, from: int)
    requires
        0 <= from <= s.len(),
        pat.len() > 0,
        n == s.len() - from,
        field_from(s, pat, n, from).is_some(),
    ensures
        field_from(s, pat, n, from).unwrap().len() == 0,
    decreases n,
{
    lemma_find_from_bounds(s, pat, from);
    if n > 0 {
        let e = find_from(s, pat, from).unwrap();
        lemma_field_count(s, pat, (n - 1) as nat, e + pat.len());
        lemma_last_field_empty(s, pat, (n - 1) as nat, e + pat.len());
    }
}

} // verus!
