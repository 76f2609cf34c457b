//! Reading the text that the system tools behind the resource readers print.

use vstd::prelude::*;
use vstd::string::*;

use crate::number::{i64_value, parse_i64, parse_unsigned, unsigned_value};
use crate::text::{
    contains_text, contains_text_spec, field, find_from, is_space, lemma_field_count,
    lemma_last_field_empty,
    lemma_fields_end, match_at, match_at_exec, space_char, split_field, starts_with_text, trim,
    trimmed,
};

verus! {

/// A whitespace-separated word of `s` ends with `yes` at `i + 3`.
pub open spec fn yes_word_at(s: Seq<char>, i: int) -> bool {
    match_at(s, "yes"@, i) && (i + 3 == s.len() || is_space(s[i + 3]))
}

/// Some whitespace-separated word of `s` ends with `yes`: how
/// `pactl get-sink-mute` says that the sink is muted.
pub open spec fn sink_muted_spec(s: Seq<char>) -> bool {
    exists|i: int| yes_word_at(s, i)
}

/// Whether `pactl get-sink-mute` output says the sink is muted.
pub fn sink_muted(output: &str) -> (r: bool)
    ensures
        r == sink_muted_spec(output@),
{
    proof {
        reveal_strlit("yes");
    }
    let n = output.unicode_len();
    let mut i: usize = 0;
    while i < n
        invariant
            i <= n,
            n == output@.len(),
            "yes"@.len() == 3,
            forall|k: int| 0 <= k < i ==> !#[trigger] yes_word_at(output@, k),
        decreases n - i,
    {
        if match_at_exec(output, n, "yes", 3, i) {
            if i + 3 == n || space_char(output.get_char(i + 3)) {
                assert(yes_word_at(output@, i as int));
                return true;
            }
        }
        i = i + 1;
    }
    proof {
        assert forall|k: int| !#[trigger] yes_word_at(output@, k) by {
            if k >= n {
                assert(!match_at(output@, "yes"@, k));
            }
        }
    }
    false
}

/// A whitespace-separated word of `s` that ends with `%` ends at `e`.
pub open spec fn percent_word_ends_at(s: Seq<char>, e: int) -> bool {
    0 < e <= s.len() && s[e - 1] == '%' && (e == s.len() || is_space(s[e]))
}

/// End of the first word of `s` that ends with `%`, looking from `e` on.
pub open spec fn first_percent_word_end(s: Seq<char>, e: int) -> Option<int>
    decreases s.len() + 1 - e,
{
    if e < 1 || e > s.len() {
        None
    } else if percent_word_ends_at(s, e) {
        Some(e)
    } else {
        first_percent_word_end(s, e + 1)
    }
}

/// Start of the whitespace-separated word of `s` that ends at `e`.
pub open spec fn word_start(s: Seq<char>, e: int) -> int
    decreases e,
{
    if e > 0 && !is_space(s[e - 1]) {
        word_start(s, e - 1)
    } else {
        e
    }
}

/// `w` without its trailing `%` characters.
pub open spec fn strip_percent(w: Seq<char>) -> Seq<char>
    decreases w.len(),
{
    if w.len() > 0 && w.last() == '%' {
        strip_percent(w.drop_last())
    } else {
        w
    }
}

/// The volume that `pactl get-sink-volume` prints: the first word that ends
/// with `%`, without its `%`, read as an integer.
pub open spec fn sink_volume_spec(s: Seq<char>) -> Option<int> {
    match first_percent_word_end(s, 1) {
        None => None,
        Some(e) => i64_value(strip_percent(s.subrange(word_start(s, e), e))),
    }
}

/// Reads the volume percentage from `pactl get-sink-volume` output.
pub fn sink_volume(output: &str) -> (r: Option<i64>)
    ensures
        match r {
            Some(v) => sink_volume_spec(output@) == Some(v as int),
            None => sink_volume_spec(output@).is_none(),
        },
{
    let n = output.unicode_len();
    if n == 0 {
        return None;
    }
    let mut e: usize = 1;
    loop
        invariant
            1 <= e <= n,
            n == output@.len(),
            first_percent_word_end(output@, 1) == first_percent_word_end(output@, e as int),
        ensures
            1 <= e <= n,
            percent_word_ends_at(output@, e as int),
            first_percent_word_end(output@, 1) == first_percent_word_end(output@, e as int),
        decreases n - e,
    {
        if output.get_char(e - 1) == '%' && (e == n || space_char(output.get_char(e))) {
            break;
        }
        if e == n {
            assert(first_percent_word_end(output@, e + 1).is_none());
            return None;
        }
        e = e + 1;
    }
    let ghost s = output@;
    assert(first_percent_word_end(s, 1) == Some(e as int));
    let mut b: usize = e;
    while b > 0 && !space_char(output.get_char(b - 1))
        invariant
            b <= e,
            e <= n,
            n == output@.len(),
            s == output@,
            word_start(s, e as int) == word_start(s, b as int),
        decreases b,
    {
        b = b - 1;
    }
    let mut t: usize = e;
    while t > b && output.get_char(t - 1) == '%'
        invariant
            b <= t <= e,
            e <= n,
            n == output@.len(),
            s == output@,
            strip_percent(s.subrange(b as int, e as int)) == strip_percent(
                s.subrange(b as int, t as int),
            ),
        decreases t,
    {
        assert(s.subrange(b as int, t as int).drop_last() =~= s.subrange(b as int, t - 1));
        t = t - 1;
    }
    let w = output.substring_char(b, t);
    proof {
        let sub = s.subrange(b as int, t as int);
        if sub.len() > 0 {
            assert(sub.last() == s[t - 1]);
        }
        assert(strip_percent(sub) == sub);
    }
    parse_i64(w)
}

/// Line `n` of `s` (split on newlines) names an active headphones port.
pub open spec fn headphones_line(s: Seq<char>, n: nat) -> bool {
    match field(s, "\n"@, n) {
        Some(l) => contains_text_spec(l, "Active Port"@) && contains_text_spec(l, "headphones"@),
        None => false,
    }
}

/// Some line of `pactl list sinks` output names an active headphones port.
pub open spec fn headphones_active_spec(s: Seq<char>) -> bool {
    exists|n: nat| headphones_line(s, n)
}

/// Whether `pactl list sinks` output shows headphones as the active port.
pub fn headphones_active(output: &str) -> (r: bool)
    ensures
        r == headphones_active_spec(output@),
{
    proof {
        reveal_strlit("\n");
    }
    let len = output.unicode_len();
    let mut n: usize = 0;
    loop
        invariant
            n <= len,
            len == output@.len(),
            "\n"@.len() == 1,
            forall|m: nat| m < n ==> !#[trigger] headphones_line(output@, m),
        decreases len - n,
    {
        match split_field(output, "\n", n) {
            None => {
                proof {
                    assert forall|m: nat| !#[trigger] headphones_line(output@, m) by {
                        if m >= n {
                            lemma_fields_end(output@, "\n"@, n as nat, m);
                        }
                    }
                }
                return false;
            },
            Some(l) => {
                if contains_text(l, "Active Port") && contains_text(l, "headphones") {
                    assert(headphones_line(output@, n as nat));
                    return true;
                }
            },
        }
        proof {
            lemma_field_count(output@, "\n"@, n as nat, 0);
        }
        if n == len {
            proof {
                assert forall|m: nat| !#[trigger] headphones_line(output@, m) by {
                    if m > n && field(output@, "\n"@, m).is_some() {
                        lemma_field_count(output@, "\n"@, m, 0);
                    }
                }
            }
            return false;
        }
        n = n + 1;
    }
}

/// Line `n` of `s` starts with `processor`.
pub open spec fn processor_line(s: Seq<char>, n: nat) -> bool {
    match field(s, "\n"@, n) {
        Some(l) => match_at(l, "processor"@, 0),
        None => false,
    }
}

/// How many of the first `n` lines of `s` start with `processor`.
pub open spec fn processor_lines(s: Seq<char>, n: nat) -> nat
    decreases n,
{
    if n == 0 {
        0
    } else {
        processor_lines(s, (n - 1) as nat) + if processor_line(s, (n - 1) as nat) {
            1nat
        } else {
            0nat
        }
    }
}

proof fn lemma_processor_lines_settle(s: Seq<char>, k: nat, m: nat)
    requires
        k <= m,
        forall|j: nat| k <= j ==> field(s, "\n"@, j).is_none(),
    ensures
        processor_lines(s, m) == processor_lines(s, k),
    decreases m,
{
    if m > k {
        lemma_processor_lines_settle(s, k, (m - 1) as nat);
    }
}

/// Number of processors that `/proc/cpuinfo` lists: its lines that start
/// with `processor` (every line of a text of `n` characters is among its
/// first `n + 1`).
pub fn count_processors(cpuinfo: &str) -> (r: usize)
    ensures
        r == processor_lines(cpuinfo@, cpuinfo@.len() + 1),
{
    proof {
        reveal_strlit("\n");
    }
    let len = cpuinfo.unicode_len();
    let mut n: usize = 0;
    let mut count: usize = 0;
    loop
        invariant
            n <= len,
            count <= n,
            len == cpuinfo@.len(),
            "\n"@.len() == 1,
            count == processor_lines(cpuinfo@, n as nat),
        decreases len - n,
    {
        match split_field(cpuinfo, "\n", n) {
            None => {
                proof {
                    assert forall|j: nat| n <= j implies field(cpuinfo@, "\n"@, j).is_none() by {
                        lemma_fields_end(cpuinfo@, "\n"@, n as nat, j);
                    }
                    lemma_processor_lines_settle(cpuinfo@, n as nat, (len + 1) as nat);
                }
                return count;
            },
            Some(l) => {
                if starts_with_text(l, "processor") {
                    proof {
                        reveal_strlit("processor");
                        lemma_field_count(cpuinfo@, "\n"@, n as nat, 0);
                        if n == len {
                            lemma_last_field_empty(cpuinfo@, "\n"@, n as nat, 0);
                        }
                    }
                    count = count + 1;
                }
            },
        }
        proof {
            lemma_field_count(cpuinfo@, "\n"@, n as nat, 0);
        }
        if n == len {
            proof {
                assert forall|j: nat| n + 1 <= j implies field(cpuinfo@, "\n"@, j).is_none() by {
                    if field(cpuinfo@, "\n"@, j).is_some() {
                        lemma_field_count(cpuinfo@, "\n"@, j, 0);
                    }
                }
                lemma_processor_lines_settle(cpuinfo@, (n + 1) as nat, (len + 1) as nat);
            }
            return count;
        }
        n = n + 1;
    }
}

/// The current and maximum brightness that `brightnessctl g; brightnessctl m`
/// prints: its first two lines, trimmed, each read as a `u32`.
pub open spec fn brightness_spec(s: Seq<char>) -> Option<(u32, u32)> {
    match (field(s, "\n"@, 0), field(s, "\n"@, 1)) {
        (Some(a), Some(b)) => match (
            unsigned_value(trimmed(a), u32::MAX as nat),
            unsigned_value(trimmed(b), u32::MAX as nat),
        ) {
            (Some(x), Some(y)) => Some((x as u32, y as u32)),
            _ => None,
        },
        _ => None,
    }
}

/// Reads the current and maximum brightness.
pub fn brightness_values(output: &str) -> (r: Option<(u32, u32)>)
    ensures
        r == brightness_spec(output@),
{
    proof {
        reveal_strlit("\n");
    }
    let (a, b) = match (split_field(output, "\n", 0), split_field(output, "\n", 1)) {
        (Some(a), Some(b)) => (a, b),
        _ => {
            return None;
        },
    };
    match (parse_unsigned(trim(a), u32::MAX as u64), parse_unsigned(trim(b), u32::MAX as u64)) {
        (Some(x), Some(y)) => Some((x as u32, y as u32)),
        _ => None,
    }
}

/// `l` without one trailing carriage return.
pub open spec fn strip_cr(l: Seq<char>) -> Seq<char> {
    if l.len() > 0 && l.last() == '\r' {
        l.drop_last()
    } else {
        l
    }
}

/// The first line of a non-empty text, as `str::lines` yields it.
pub open spec fn first_line(s: Seq<char>) -> Seq<char> {
    match find_from(s, "\n"@, 0) {
        Some(p) => strip_cr(s.subrange(0, p)),
        None => s,
    }
}

/// The address that `nmcli -g IP4.ADDRESS device show` prints first: its
/// first line up to the first `/`.
pub open spec fn first_address_spec(s: Seq<char>) -> Option<Seq<char>> {
    if s.len() == 0 {
        None
    } else {
        field(first_line(s), "/"@, 0)
    }
}

/// Reads the first address of an interface, without its prefix length.
pub fn first_address(output: &str) -> (r: Option<&str>)
    ensures
        match r {
            Some(a) => first_address_spec(output@) == Some(a@),
            None => first_address_spec(output@).is_none(),
        },
{
    proof {
        reveal_strlit("\n");
        reveal_strlit("/");
    }
    let n = output.unicode_len();
    if n == 0 {
        return None;
    }
    let line = match crate::text::find_from_exec(output, n, "\n", 1, 0) {
        Some(p) => {
            proof {
                crate::text::lemma_find_from_bounds(output@, "\n"@, 0);
            }
            if p > 0 && output.get_char(p - 1) == '\r' {
                assert(output@.subrange(0, p as int).drop_last() =~= output@.subrange(0, p - 1));
                output.substring_char(0, p - 1)
            } else {
                output.substring_char(0, p)
            }
        },
        None => {
            assert(output@.subrange(0, n as int) =~= output@);
            output.substring_char(0, n)
        },
    };
    split_field(line, "/", 0)
}

/// Whether a `pactl subscribe` line reports an event on a sink or on the
/// server, after which the volume is read again.
pub fn volume_event(line: &str) -> (r: bool)
    ensures
        r == (contains_text_spec(line@, "sink"@) || contains_text_spec(line@, "server"@)),
{
    contains_text(line, "sink") || contains_text(line, "server")
}

} // verus!
