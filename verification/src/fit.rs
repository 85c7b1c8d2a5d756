//! The text-fit ratio calculator: average characters per line per pica.
use vstd::prelude::*;

verus! {

use crate::errors::MetricsError;
use crate::ratio::Ratio;

/// A character with the Unicode `White_Space` property, the set trimmed
/// from the ends of the sample text.
pub open spec fn is_unicode_whitespace(c: char) -> bool {
    (0x09 <= c as u32 && c as u32 <= 0x0D) || c as u32 == 0x20 || c as u32 == 0x85 || c as u32
        == 0xA0 || c as u32 == 0x1680 || (0x2000 <= c as u32 && c as u32 <= 0x200A) || c as u32
        == 0x2028 || c as u32 == 0x2029 || c as u32 == 0x202F || c as u32 == 0x205F || c as u32
        == 0x3000
}

pub fn is_whitespace_char(c: char) -> (b: bool)
    ensures
        b == is_unicode_whitespace(c),
{
    let u: u32 = c as u32;
    (0x09 <= u && u <= 0x0D) || u == 0x20 || u == 0x85 || u == 0xA0 || u == 0x1680 || (0x2000 <= u
        && u <= 0x200A) || u == 0x2028 || u == 0x2029 || u == 0x202F || u == 0x205F || u == 0x3000
}

/// The text without its leading whitespace.
pub open spec fn trim_start(s: Seq<char>) -> Seq<char>
    decreases s.len(),
{
    if s.len() > 0 && is_unicode_whitespace(s[0]) {
        trim_start(s.drop_first())
    } else {
        s
    }
}

/// The text without its trailing whitespace.
pub open spec fn trim_end(s: Seq<char>) -> Seq<char>
    decreases s.len(),
{
    if s.len() > 0 && is_unicode_whitespace(s.last()) {
        trim_end(s.drop_last())
    } else {
        s
    }
}

/// The text without leading and trailing whitespace.
pub open spec fn trim(s: Seq<char>) -> Seq<char> {
    trim_end(trim_start(s))
}

proof fn lemma_trim_start_subrange(s: Seq<char>, a: int)
    requires
        0 <= a <= s.len(),
        forall|j: int| 0 <= j < a ==> is_unicode_whitespace(#[trigger] s[j]),
        a < s.len() ==> !is_unicode_whitespace(s[a]),
    ensures
        trim_start(s) == s.subrange(a, s.len() as int),
    decreases a,
{
    if a == 0 {
        assert(s.subrange(0, s.len() as int) =~= s);
    } else {
        let t = s.drop_first();
        assert(is_unicode_whitespace(s[0]));
        assert forall|j: int| 0 <= j < a - 1 implies is_unicode_whitespace(#[trigger] t[j]) by {
            assert(t[j] == s[j + 1]);
        }
        lemma_trim_start_subrange(t, a - 1);
        assert(t.subrange(a - 1, t.len() as int) =~= s.subrange(a, s.len() as int));
    }
}

proof fn lemma_trim_end_subrange(s: Seq<char>, b: int)
    requires
        0 <= b <= s.len(),
        forall|j: int| b <= j < s.len() ==> is_unicode_whitespace(#[trigger] s[j]),
        b > 0 ==> !is_unicode_whitespace(s[b - 1]),
    ensures
        trim_end(s) == s.subrange(0, b),
    decreases s.len() - b,
{
    if b == s.len() {
        if s.len() > 0 && is_unicode_whitespace(s.last()) {
            assert(!is_unicode_whitespace(s[b - 1]));
        }
        assert(s.subrange(0, s.len() as int) =~= s);
    } else {
        let t = s.drop_last();
        assert(is_unicode_whitespace(s.last()));
        assert forall|j: int| b <= j < t.len() implies is_unicode_whitespace(#[trigger] t[j]) by {
            assert(t[j] == s[j]);
        }
        lemma_trim_end_subrange(t, b);
        assert(t.subrange(0, b) =~= s.subrange(0, b));
    }
}

/// A trimmed text never ends in whitespace; in particular it never ends in
/// a line break.
proof fn lemma_trim_end_no_trailing_ws(s: Seq<char>)
    ensures
        trim_end(s).len() > 0 ==> !is_unicode_whitespace(trim_end(s).last()),
    decreases s.len(),
{
    if s.len() > 0 && is_unicode_whitespace(s.last()) {
        lemma_trim_end_no_trailing_ws(s.drop_last());
    }
}

proof fn lemma_trim_start_len(s: Seq<char>)
    ensures
        trim_start(s).len() <= s.len(),
    decreases s.len(),
{
    if s.len() > 0 && is_unicode_whitespace(s[0]) {
        lemma_trim_start_len(s.drop_first());
    }
}

proof fn lemma_trim_end_len(s: Seq<char>)
    ensures
        trim_end(s).len() <= s.len(),
    decreases s.len(),
{
    if s.len() > 0 && is_unicode_whitespace(s.last()) {
        lemma_trim_end_len(s.drop_last());
    }
}

/// Copies the text without its leading and trailing whitespace.
pub fn trim_chars(text: &Vec<char>) -> (r: Vec<char>)
    ensures
        r@ == trim(text@),
{
    let n = text.len();
    let mut a: usize = 0;
    while a < n && is_whitespace_char(text[a])
        invariant
            0 <= a <= n == text@.len(),
            forall|j: int| 0 <= j < a ==> is_unicode_whitespace(#[trigger] text@[j]),
        decreases n - a,
    {
        a = a + 1;
    }
    proof {
        lemma_trim_start_subrange(text@, a as int);
    }
    let ghost started = text@.subrange(a as int, text@.len() as int);
    let mut b: usize = n;
    while b > a && is_whitespace_char(text[b - 1])
        invariant
            a <= b <= n == text@.len(),
            forall|j: int| b <= j < n ==> is_unicode_whitespace(#[trigger] text@[j]),
        decreases b,
    {
        b = b - 1;
    }
    proof {
        assert forall|j: int| (b - a) <= j < started.len() implies is_unicode_whitespace(
            #[trigger] started[j],
        ) by {
            assert(started[j] == text@[a + j]);
        }
        if b > a {
            assert(started[b - a - 1] == text@[b - 1]);
        }
        lemma_trim_end_subrange(started, b - a);
        assert(started.subrange(0, b - a) =~= text@.subrange(a as int, b as int));
    }
    let mut out: Vec<char> = Vec::new();
    let mut i: usize = a;
    while i < b
        invariant
            a <= i <= b <= text@.len(),
            out@ == text@.subrange(a as int, i as int),
        decreases b - i,
    {
        out.push(text[i]);
        proof {
            assert(text@.subrange(a as int, i + 1) =~= text@.subrange(a as int, i as int).push(
                text@[i as int],
            ));
        }
        i = i + 1;
    }
    out
}

/// The position of the first line break at or after `from`, or the text's
/// length when none remains.
pub open spec fn find_newline(s: Seq<char>, from: int) -> int
    recommends
        0 <= from <= s.len(),
    decreases s.len() - from,
{
    if from < 0 || from >= s.len() {
        s.len() as int
    } else if s[from] == '\n' {
        from
    } else {
        find_newline(s, from + 1)
    }
}

proof fn lemma_find_newline_bounds(s: Seq<char>, from: int)
    requires
        0 <= from <= s.len(),
    ensures
        from <= find_newline(s, from) <= s.len(),
        find_newline(s, from) < s.len() ==> s[find_newline(s, from)] == '\n',
        forall|k: int| from <= k < find_newline(s, from) ==> s[k] != '\n',
    decreases s.len() - from,
{
    if from < s.len() && s[from] != '\n' {
        lemma_find_newline_bounds(s, from + 1);
    }
}

proof fn lemma_find_newline_determined(s: Seq<char>, from: int, j: int)
    requires
        0 <= from <= j <= s.len(),
        forall|k: int| from <= k < j ==> s[k] != '\n',
        j < s.len() ==> s[j] == '\n',
    ensures
        find_newline(s, from) == j,
    decreases j - from,
{
    if from < j {
        assert(s[from] != '\n');
        lemma_find_newline_determined(s, from + 1, j);
    }
}

/// A line break may be preceded by a carriage return, which is not part of
/// the line.
pub open spec fn strip_carriage_return(line: Seq<char>) -> Seq<char> {
    if line.len() > 0 && line.last() == '\r' {
        line.drop_last()
    } else {
        line
    }
}

/// The text split into visual lines on line-break boundaries: each segment
/// up to a line break loses a trailing carriage return; the final segment,
/// not terminated by a break, is kept as it stands. An empty text has no
/// lines at all.
pub open spec fn line_seq_from(s: Seq<char>, from: int) -> Seq<Seq<char>>
    recommends
        0 <= from,
    decreases s.len() - from,
    via line_seq_from_decreases
{
    if from < 0 || from >= s.len() {
        Seq::empty()
    } else {
        let nl = find_newline(s, from);
        let head = if nl < s.len() {
            strip_carriage_return(s.subrange(from, nl))
        } else {
            s.subrange(from, nl)
        };
        let rest = if nl >= s.len() {
            Seq::empty()
        } else {
            line_seq_from(s, nl + 1)
        };
        seq![head] + rest
    }
}

#[via_fn]
proof fn line_seq_from_decreases(s: Seq<char>, from: int) {
    if 0 <= from && from < s.len() {
        lemma_find_newline_bounds(s, from);
    }
}

pub open spec fn line_seq(s: Seq<char>) -> Seq<Seq<char>> {
    line_seq_from(s, 0)
}

proof fn lemma_line_seq_from_len(s: Seq<char>, from: int)
    requires
        0 <= from <= s.len(),
    ensures
        line_seq_from(s, from).len() <= s.len() - from + 1,
    decreases s.len() - from,
{
    if from < s.len() {
        lemma_find_newline_bounds(s, from);
        let nl = find_newline(s, from);
        if nl < s.len() {
            lemma_line_seq_from_len(s, nl + 1);
        }
    }
}

/// The combined character count of a sequence of lines.
pub open spec fn total_chars(lines: Seq<Seq<char>>) -> int
    decreases lines.len(),
{
    if lines.len() == 0 {
        0
    } else {
        total_chars(lines.drop_last()) + lines.last().len()
    }
}

/// What the calculator returns for every text: the text is trimmed and
/// split into lines; the final line is dropped unconditionally, since the
/// last line of a typeset paragraph is rarely full width and would bias
/// the average downward (a deliberate, documented heuristic); with fewer
/// than two lines nothing is left to measure. Otherwise the average is the
/// exact ratio of the remaining lines' combined character count to their
/// number.
pub open spec fn spec_avg_chars_per_line(text: Seq<char>) -> Result<Ratio, MetricsError> {
    let lines = line_seq(trim(text));
    if lines.len() < 2 {
        Err(MetricsError::InsufficientContent)
    } else {
        Ok(
            Ratio {
                numer: total_chars(lines.drop_last()) as i128,
                denom: (lines.len() - 1) as i128,
            },
        )
    }
}

/// Computes the average characters per line of one rendered sample page:
/// the page text is trimmed, split into lines, the final line is dropped,
/// and the remaining lines' combined character count is divided by their
/// number. Characters are Unicode scalar values; width normalization of
/// wide scripts is an accepted limitation.
pub fn avg_chars_per_line(text: &Vec<char>) -> (res: Result<Ratio, MetricsError>)
    ensures
        res == spec_avg_chars_per_line(text@),
{
    let trimmed = trim_chars(text);
    let ghost t = trimmed@;
    let n = trimmed.len();
    if n == 0 {
        return Err(MetricsError::InsufficientContent);
    }
    proof {
        lemma_trim_end_no_trailing_ws(trim_start(text@));
        assert(!is_unicode_whitespace(t.last()));
        assert(t[n - 1] != '\n');
    }
    let mut from: usize = 0;
    let mut completed_chars: usize = 0;
    let mut completed_lines: usize = 0;
    let ghost mut done: Seq<Seq<char>> = Seq::empty();
    while from < n
        invariant
            trimmed@ == t,
            t == trim(text@),
            n == t.len(),
            0 < n,
            t[n - 1] != '\n',
            from <= n,
            from == 0 || t[from - 1] == '\n',
            line_seq(t) == done + line_seq_from(t, from as int),
            done.len() == completed_lines,
            total_chars(done) == completed_chars,
            completed_chars <= from,
            completed_lines <= from,
        ensures
            from < n,
            forall|k: int| from <= k < n ==> t[k] != '\n',
        decreases n - from,
    {
        let mut j: usize = from;
        while j < n && trimmed[j] != '\n'
            invariant
                trimmed@ == t,
                n == t.len(),
                from <= j <= n,
                forall|k: int| from <= k < j ==> t[k] != '\n',
            decreases n - j,
        {
            j = j + 1;
        }
        if j == n {
            break ;
        }
        proof {
            lemma_find_newline_determined(t, from as int, j as int);
        }
        let mut line_len: usize = j - from;
        if line_len > 0 && trimmed[j - 1] == '\r' {
            line_len = line_len - 1;
        }
        let ghost seg = t.subrange(from as int, j as int);
        let ghost line = strip_carriage_return(seg);
        proof {
            if seg.len() > 0 && seg.last() == '\r' {
                assert(seg.last() == t[j - 1]);
                assert(line.len() == seg.len() - 1);
            } else {
                if j > from {
                    assert(seg.last() == t[j - 1]);
                }
                assert(line.len() == seg.len());
            }
            assert(line.len() == line_len);
            assert(line_seq_from(t, from as int) == seq![line] + line_seq_from(t, j + 1));
            let pre = done;
            done = done.push(line);
            assert(done.drop_last() =~= pre);
            assert(done.last() == line);
            assert(total_chars(done) == total_chars(pre) + line.len());
            assert(pre + (seq![line] + line_seq_from(t, j + 1)) =~= done + line_seq_from(
                t,
                j + 1,
            ));
        }
        completed_chars = completed_chars + line_len;
        completed_lines = completed_lines + 1;
        from = j + 1;
    }
    proof {
        lemma_find_newline_determined(t, from as int, n as int);
        let seg = t.subrange(from as int, n as int);
        assert(line_seq_from(t, from as int) == seq![seg] + Seq::<Seq<char>>::empty());
        let lines = line_seq(t);
        assert(lines =~= done.push(seg));
        assert(lines.drop_last() =~= done);
        assert(lines.len() == done.len() + 1);
        assert(total_chars(lines.drop_last()) == completed_chars);
    }
    if completed_lines == 0 {
        Err(MetricsError::InsufficientContent)
    } else {
        Ok(Ratio { numer: completed_chars as i128, denom: completed_lines as i128 })
    }
}

proof fn lemma_total_chars_nonneg(lines: Seq<Seq<char>>)
    ensures
        0 <= total_chars(lines),
    decreases lines.len(),
{
    if lines.len() > 0 {
        lemma_total_chars_nonneg(lines.drop_last());
    }
}

proof fn lemma_total_chars_drop_last(lines: Seq<Seq<char>>)
    requires
        lines.len() > 0,
    ensures
        total_chars(lines.drop_last()) <= total_chars(lines),
{
    lemma_total_chars_nonneg(lines.drop_last());
}

proof fn lemma_total_chars_line_seq_bound(s: Seq<char>, from: int)
    requires
        0 <= from <= s.len(),
    ensures
        total_chars(line_seq_from(s, from)) <= s.len() - from,
    decreases s.len() - from,
{
    if from < s.len() {
        lemma_find_newline_bounds(s, from);
        let nl = find_newline(s, from);
        let lines = line_seq_from(s, from);
        if nl >= s.len() {
            let seg = s.subrange(from, nl);
            assert(lines =~= seq![seg]);
            lemma_total_chars_prepend(seg, Seq::<Seq<char>>::empty());
            assert(lines == seq![seg] + Seq::<Seq<char>>::empty());
        } else {
            lemma_total_chars_line_seq_bound(s, nl + 1);
            let head = strip_carriage_return(s.subrange(from, nl));
            let rest = line_seq_from(s, nl + 1);
            assert(head.len() <= nl - from);
            lemma_total_chars_prepend(head, rest);
        }
    }
}

proof fn lemma_total_chars_prepend(head: Seq<char>, rest: Seq<Seq<char>>)
    ensures
        total_chars(seq![head] + rest) == head.len() + total_chars(rest),
    decreases rest.len(),
{
    let all = seq![head] + rest;
    if rest.len() == 0 {
        assert(all.drop_last() =~= Seq::<Seq<char>>::empty());
        assert(all.last() == head);
        assert(rest =~= Seq::<Seq<char>>::empty());
        assert(total_chars(rest) == 0);
    } else {
        assert(all.drop_last() =~= seq![head] + rest.drop_last());
        assert(all.last() == rest.last());
        lemma_total_chars_prepend(head, rest.drop_last());
        assert(total_chars(all.drop_last()) == head.len() + total_chars(rest.drop_last()));
        assert(total_chars(all) == total_chars(all.drop_last()) + all.last().len());
        assert(total_chars(rest) == total_chars(rest.drop_last()) + rest.last().len());
    }
}

/// When the average is defined, its numerator and denominator lie within
/// the text's own length: the counts a real page can produce.
pub proof fn lemma_avg_result_bounds(text: Seq<char>)
    requires
        text.len() <= usize::MAX,
    ensures
        spec_avg_chars_per_line(text) matches Ok(r) ==> 0 <= r.numer && r.numer <= text.len()
            && 0 < r.denom && r.denom <= text.len(),
{
    lemma_trim_start_len(text);
    lemma_trim_end_len(trim_start(text));
    let t = trim(text);
    let lines = line_seq(t);
    if lines.len() >= 2 {
        lemma_line_seq_from_len(t, 0);
        lemma_total_chars_line_seq_bound(t, 0);
        lemma_total_chars_drop_last(lines);
        lemma_total_chars_nonneg(lines.drop_last());
    }
}

/// What the full fit calculator returns for every text and page width: the
/// average characters per line, scaled down by the width in picas. A width
/// of zero is a division by zero, reported and never performed.
pub open spec fn spec_text_fit_ratio(text: Seq<char>, width_picas: int) -> Result<
    Ratio,
    MetricsError,
> {
    match spec_avg_chars_per_line(text) {
        Err(e) => Err(e),
        Ok(avg) => if width_picas == 0 {
            Err(MetricsError::DivisionByZero)
        } else {
            Ok(Ratio { numer: avg.numer, denom: (avg.denom * width_picas) as i128 })
        },
    }
}

/// Computes the characters-per-pica fit of one rendered sample page: the
/// average characters per line divided by the page's printable width in
/// picas.
pub fn text_fit_ratio(text: &Vec<char>, width_picas: i32) -> (res: Result<Ratio, MetricsError>)
    ensures
        res == spec_text_fit_ratio(text@, width_picas as int),
{
    let avg = match avg_chars_per_line(text) {
        Err(e) => {
            return Err(e);
        },
        Ok(a) => a,
    };
    proof {
        assert(text@.len() == vstd::std_specs::vec::spec_vec_len(text));
        lemma_avg_result_bounds(text@);
        assert(0 < avg.denom <= text@.len());
        assert({
            let p = avg.denom * (width_picas as int);
            -0x1_0000_0000_0000_0000_0000_0000 <= p <= 0x1_0000_0000_0000_0000_0000_0000
        }) by (nonlinear_arith)
            requires
                0 < avg.denom <= 0x1_0000_0000_0000_0000,
                -0x8000_0000 <= width_picas as int <= 0x8000_0000,
        ;
    }
    avg.divide(width_picas as i128)
}

/// Recomputing the fit ratio from an identical page text and width yields
/// a bit-identical ratio: the calculator is a pure function of its inputs,
/// with no hidden state or order dependence.
pub proof fn lemma_text_fit_deterministic(a: Seq<char>, b: Seq<char>, width_a: int, width_b: int)
    requires
        a == b,
        width_a == width_b,
    ensures
        spec_text_fit_ratio(a, width_a) == spec_text_fit_ratio(b, width_b),
{
}

} // verus!
