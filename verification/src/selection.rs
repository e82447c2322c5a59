//! Parsing of chapter selections: comma-separated numbers and
//! ascending inclusive ranges ("1, 3, 5-8"), validated token by
//! token, expanded, sorted and deduplicated. Each rejection carries
//! the offending span for a diagnostic display.

use vstd::prelude::*;
use vstd::string::StringExecFns;
use crate::text::all_digits;
use crate::text::dec_value;
use crate::text::is_digit_char;
use crate::text::parse_digits;

verus! {

/// The whitespace the selection trimming strips.
pub open spec fn is_space_char(c: char) -> bool {
    c == ' ' || c == '\t' || c == '\n' || c == '\r'
}

/// The whitespace the selection trimming strips.
fn is_space(c: char) -> (r: bool)
    ensures
        r == is_space_char(c),
{
    c == ' ' || c == '\t' || c == '\n' || c == '\r'
}

/// A selection token may hold only digits and dashes.
pub open spec fn dash_or_digit(c: char) -> bool {
    is_digit_char(c) || c == '-'
}

/// `s` with its leading characters matching `pred` removed.
pub open spec fn spec_trim_front(s: Seq<char>, pred: spec_fn(char) -> bool) -> Seq<char>
    decreases s.len(),
{
    if s.len() > 0 && pred(s[0]) {
        spec_trim_front(s.skip(1), pred)
    } else {
        s
    }
}

/// `s` with its trailing characters matching `pred` removed.
pub open spec fn spec_trim_back(s: Seq<char>, pred: spec_fn(char) -> bool) -> Seq<char>
    decreases s.len(),
{
    if s.len() > 0 && pred(s.last()) {
        spec_trim_back(s.drop_last(), pred)
    } else {
        s
    }
}

/// `s` with matching characters removed from both ends.
pub open spec fn spec_trim(s: Seq<char>, pred: spec_fn(char) -> bool) -> Seq<char> {
    spec_trim_back(spec_trim_front(s, pred), pred)
}

/// Front-trimming drops exactly the leading matching run.
proof fn lemma_trim_front_chars(s: Seq<char>, pred: spec_fn(char) -> bool, a: int)
    requires
        0 <= a <= s.len(),
        forall|j: int| 0 <= j < a ==> pred(#[trigger] s[j]),
        a < s.len() ==> !pred(s[a]),
    ensures
        spec_trim_front(s, pred) == s.skip(a),
    decreases a,
{
    if a == 0 {
        assert(s.skip(0) =~= s);
    } else {
        assert(pred(s[0]));
        lemma_trim_front_chars(s.skip(1), pred, a - 1);
        assert(s.skip(1).skip(a - 1) =~= s.skip(a));
    }
}

/// Back-trimming drops exactly the trailing matching run.
proof fn lemma_trim_back_chars(s: Seq<char>, pred: spec_fn(char) -> bool, b: int)
    requires
        0 <= b <= s.len(),
        forall|j: int| b <= j < s.len() ==> pred(#[trigger] s[j]),
        b > 0 ==> !pred(s[b - 1]),
    ensures
        spec_trim_back(s, pred) == s.take(b),
    decreases s.len() - b,
{
    if b == s.len() {
        if s.len() > 0 && pred(s.last()) {
            assert(false);
        }
        assert(s.take(b) =~= s);
    } else {
        assert(pred(s.last()));
        lemma_trim_back_chars(s.drop_last(), pred, b);
        assert(s.drop_last().take(b) =~= s.take(b));
    }
}

/// Trimming never grows a string.
proof fn lemma_trim_front_len(s: Seq<char>, pred: spec_fn(char) -> bool)
    ensures
        spec_trim_front(s, pred).len() <= s.len(),
    decreases s.len(),
{
    if s.len() > 0 && pred(s[0]) {
        lemma_trim_front_len(s.skip(1), pred);
    }
}

/// Trimming never grows a string.
proof fn lemma_trim_back_len(s: Seq<char>, pred: spec_fn(char) -> bool)
    ensures
        spec_trim_back(s, pred).len() <= s.len(),
    decreases s.len(),
{
    if s.len() > 0 && pred(s.last()) {
        lemma_trim_back_len(s.drop_last(), pred);
    }
}

/// Trimming never grows a string.
pub proof fn lemma_trim_len(s: Seq<char>, pred: spec_fn(char) -> bool)
    ensures
        spec_trim(s, pred).len() <= s.len(),
{
    lemma_trim_front_len(s, pred);
    lemma_trim_back_len(spec_trim_front(s, pred), pred);
}

/// Strips whitespace from both ends.
pub fn trim_spaces(s: &str) -> (r: String)
    ensures
        r@ == spec_trim(s@, |c: char| is_space_char(c)),
{
    let n = s.unicode_len();
    let mut a: usize = 0;
    while a < n && is_space(s.get_char(a))
        invariant
            0 <= a <= n,
            n == s@.len(),
            forall|j: int| 0 <= j < a ==> is_space_char(#[trigger] s@[j]),
        decreases n - a,
    {
        a += 1;
    }
    let mut b: usize = n;
    while b > a && is_space(s.get_char(b - 1))
        invariant
            a <= b <= n,
            n == s@.len(),
            forall|j: int| b <= j < n ==> is_space_char(#[trigger] s@[j]),
        decreases b,
    {
        b -= 1;
    }
    proof {
        let pred = |c: char| is_space_char(c);
        lemma_trim_front_chars(s@, pred, a as int);
        let rest = s@.skip(a as int);
        lemma_trim_back_chars(rest, pred, b - a);
        assert(rest.take(b - a) =~= s@.subrange(a as int, b as int));
    }
    s.substring_char(a, b).to_owned()
}

/// Strips commas from both ends.
pub fn trim_commas(s: &str) -> (r: String)
    ensures
        r@ == spec_trim(s@, |c: char| c == ','),
{
    let n = s.unicode_len();
    let mut a: usize = 0;
    while a < n && s.get_char(a) == ','
        invariant
            0 <= a <= n,
            n == s@.len(),
            forall|j: int| 0 <= j < a ==> (#[trigger] s@[j]) == ',',
        decreases n - a,
    {
        a += 1;
    }
    let mut b: usize = n;
    while b > a && s.get_char(b - 1) == ','
        invariant
            a <= b <= n,
            n == s@.len(),
            forall|j: int| b <= j < n ==> (#[trigger] s@[j]) == ',',
        decreases b,
    {
        b -= 1;
    }
    proof {
        let pred = |c: char| c == ',';
        lemma_trim_front_chars(s@, pred, a as int);
        let rest = s@.skip(a as int);
        lemma_trim_back_chars(rest, pred, b - a);
        assert(rest.take(b - a) =~= s@.subrange(a as int, b as int));
    }
    s.substring_char(a, b).to_owned()
}

/// `k` is the position of the first `sep` in `s`.
pub open spec fn is_first_sep(s: Seq<char>, sep: char, k: int) -> bool {
    0 <= k < s.len() && s[k] == sep && (forall|j: int| 0 <= j < k ==> s[j] != sep)
}

/// A string has at most one first separator.
proof fn lemma_first_sep_unique(s: Seq<char>, sep: char, k1: int, k2: int)
    requires
        is_first_sep(s, sep, k1),
        is_first_sep(s, sep, k2),
    ensures
        k1 == k2,
{
    if k1 < k2 {
        assert(s[k1] != sep);
    } else if k2 < k1 {
        assert(s[k2] != sep);
    }
}

/// The pieces of `s` between occurrences of `sep`, in order. A string
/// without the separator is one piece; every separator contributes a
/// boundary, so leading, trailing and doubled separators yield empty
/// pieces.
pub open spec fn spec_split(s: Seq<char>, sep: char) -> Seq<Seq<char>>
    decreases s.len(),
{
    if exists|k: int| is_first_sep(s, sep, k) {
        let k = choose|k: int| is_first_sep(s, sep, k);
        seq![s.take(k)] + spec_split(s.skip(k + 1), sep)
    } else {
        seq![s]
    }
}

/// Splits `s` at every occurrence of `sep`.
pub fn split_on(s: &str, sep: char) -> (r: Vec<String>)
    ensures
        r@.len() == spec_split(s@, sep).len(),
        forall|i: int| 0 <= i < r@.len() ==> (#[trigger] r@[i])@ == spec_split(s@, sep)[i],
{
    let n = s.unicode_len();
    let mut r: Vec<String> = Vec::new();
    let mut start: usize = 0;
    let mut i: usize = 0;
    proof {
        assert(s@.skip(0) =~= s@);
    }
    while i < n
        invariant
            0 <= start <= i <= n,
            n == s@.len(),
            forall|j: int| start <= j < i ==> s@[j] != sep,
            spec_split(s@, sep).len() == r@.len() + spec_split(s@.skip(start as int), sep).len(),
            forall|t: int| 0 <= t < r@.len() ==> (#[trigger] r@[t])@ == spec_split(s@, sep)[t],
            forall|t: int|
                0 <= t < spec_split(s@.skip(start as int), sep).len() ==> #[trigger] spec_split(
                    s@.skip(start as int),
                    sep,
                )[t] == spec_split(s@, sep)[r@.len() + t],
        decreases n - i,
    {
        if s.get_char(i) == sep {
            let tok = s.substring_char(start, i).to_owned();
            let ghost r_old = r@;
            let ghost start_old = start as int;
            let ghost rest = s@.skip(start as int);
            proof {
                assert(rest[i - start] == s@[i as int]);
                assert forall|j: int| 0 <= j < i - start implies rest[j] != sep by {
                    assert(rest[j] == s@[j + start]);
                }
                assert(is_first_sep(rest, sep, i - start));
                let kc = choose|k: int| is_first_sep(rest, sep, k);
                lemma_first_sep_unique(rest, sep, kc, i - start);
                assert(rest.take(i - start) =~= s@.subrange(start_old, i as int));
                assert(rest.skip(i - start + 1) =~= s@.skip(i + 1));
                assert(spec_split(rest, sep) == seq![s@.subrange(start_old, i as int)]
                    + spec_split(s@.skip(i + 1), sep));
            }
            r.push(tok);
            start = i + 1;
            proof {
                let full = spec_split(s@, sep);
                let suffix = spec_split(s@.skip(start as int), sep);
                assert(spec_split(rest, sep).len() == 1 + suffix.len());
                assert forall|t: int| 0 <= t < r@.len() implies (#[trigger] r@[t])@ == full[t] by {
                    if t == r@.len() - 1 {
                        assert(spec_split(rest, sep)[0] == s@.subrange(start_old, i as int));
                        assert(full[r_old.len() as int] == spec_split(rest, sep)[0]);
                    } else {
                        assert(r@[t] == r_old[t]);
                    }
                }
                assert forall|t: int| 0 <= t < suffix.len() implies #[trigger] suffix[t] == full[
                    r@.len() + t
                ] by {
                    assert(spec_split(rest, sep)[t + 1] == suffix[t]);
                    assert(spec_split(rest, sep)[t + 1] == full[r_old.len() + t + 1]);
                }
            }
        }
        i += 1;
    }
    let tok = s.substring_char(start, n).to_owned();
    let ghost r_old = r@;
    let ghost rest = s@.skip(start as int);
    proof {
        assert forall|k: int| !#[trigger] is_first_sep(rest, sep, k) by {
            if 0 <= k < rest.len() {
                assert(rest[k] == s@[k + start]);
            }
        }
        assert(spec_split(rest, sep) == seq![rest]);
        assert(rest =~= s@.subrange(start as int, n as int));
    }
    r.push(tok);
    proof {
        let full = spec_split(s@, sep);
        assert forall|t: int| 0 <= t < r@.len() implies (#[trigger] r@[t])@ == full[t] by {
            if t == r@.len() - 1 {
                assert(spec_split(rest, sep)[0] == rest);
                assert(full[r_old.len() as int] == spec_split(rest, sep)[0]);
            } else {
                assert(r@[t] == r_old[t]);
            }
        }
    }
    r
}

/// Any string holding the separator has a first occurrence of it.
proof fn lemma_first_sep_exists(s: Seq<char>, sep: char, j: int)
    requires
        0 <= j < s.len(),
        s[j] == sep,
    ensures
        exists|k: int| is_first_sep(s, sep, k),
    decreases j,
{
    if forall|m: int| 0 <= m < j ==> s[m] != sep {
        assert(is_first_sep(s, sep, j));
    } else {
        let m = choose|m: int| 0 <= m < j && s[m] == sep;
        lemma_first_sep_exists(s, sep, m);
    }
}

/// No piece of a split contains the separator.
proof fn lemma_split_no_sep(s: Seq<char>, sep: char)
    ensures
        forall|i: int, j: int|
            0 <= i < spec_split(s, sep).len() && 0 <= j < spec_split(s, sep)[i].len() ==> (
            #[trigger] spec_split(s, sep)[i][j]) != sep,
    decreases s.len(),
{
    if exists|k: int| is_first_sep(s, sep, k) {
        let k = choose|k: int| is_first_sep(s, sep, k);
        lemma_split_no_sep(s.skip(k + 1), sep);
        assert forall|i: int, j: int|
            0 <= i < spec_split(s, sep).len() && 0 <= j < spec_split(s, sep)[i].len() implies (
        #[trigger] spec_split(s, sep)[i][j]) != sep by {
            if i == 0 {
                assert(spec_split(s, sep)[0] == s.take(k));
                assert(s.take(k)[j] == s[j]);
            } else {
                assert(spec_split(s, sep)[i] == spec_split(s.skip(k + 1), sep)[i - 1]);
            }
        }
    } else {
        assert forall|i: int, j: int|
            0 <= i < spec_split(s, sep).len() && 0 <= j < spec_split(s, sep)[i].len() implies (
        #[trigger] spec_split(s, sep)[i][j]) != sep by {
            assert(spec_split(s, sep)[i] == s);
            if s[j] == sep {
                lemma_first_sep_exists(s, sep, j);
            }
        }
    }
}

/// Every character of every piece satisfies what every character of
/// the whole satisfied.
proof fn lemma_split_chars(s: Seq<char>, sep: char, pred: spec_fn(char) -> bool)
    requires
        forall|j: int| 0 <= j < s.len() ==> pred(#[trigger] s[j]),
    ensures
        forall|i: int, j: int|
            0 <= i < spec_split(s, sep).len() && 0 <= j < spec_split(s, sep)[i].len() ==> pred(
                #[trigger] spec_split(s, sep)[i][j],
            ),
    decreases s.len(),
{
    if exists|k: int| is_first_sep(s, sep, k) {
        let k = choose|k: int| is_first_sep(s, sep, k);
        assert forall|j: int| 0 <= j < s.skip(k + 1).len() implies pred(
            #[trigger] s.skip(k + 1)[j],
        ) by {
            assert(s.skip(k + 1)[j] == s[j + k + 1]);
        }
        lemma_split_chars(s.skip(k + 1), sep, pred);
        assert forall|i: int, j: int|
            0 <= i < spec_split(s, sep).len() && 0 <= j < spec_split(s, sep)[i].len() implies pred(
            #[trigger] spec_split(s, sep)[i][j],
        ) by {
            if i == 0 {
                assert(spec_split(s, sep)[0] == s.take(k));
                assert(s.take(k)[j] == s[j]);
            } else {
                assert(spec_split(s, sep)[i] == spec_split(s.skip(k + 1), sep)[i - 1]);
            }
        }
    }
}

/// Whether `s` contains the character `c`.
pub fn contains_char(s: &str, c: char) -> (r: bool)
    ensures
        r <==> exists|i: int| 0 <= i < s@.len() && s@[i] == c,
{
    let n = s.unicode_len();
    let mut i: usize = 0;
    while i < n
        invariant
            0 <= i <= n,
            n == s@.len(),
            forall|j: int| 0 <= j < i ==> s@[j] != c,
        decreases n - i,
    {
        if s.get_char(i) == c {
            return true;
        }
        i += 1;
    }
    false
}

/// The length every token list occupies in its re-joined display
/// form: each token plus one separator.
pub open spec fn spec_span_len(ts: Seq<Seq<char>>) -> int
    decreases ts.len(),
{
    if ts.len() == 0 {
        0
    } else {
        spec_span_len(ts.drop_last()) + ts.last().len() + 1
    }
}

/// Longer prefixes of a token list occupy no less room.
proof fn lemma_span_len_monotonic(ts: Seq<Seq<char>>, i: int, j: int)
    requires
        0 <= i <= j <= ts.len(),
    ensures
        spec_span_len(ts.take(i)) <= spec_span_len(ts.take(j)),
        spec_span_len(ts.take(i)) >= 0,
    decreases j - i, i,
{
    if i < j {
        lemma_span_len_monotonic(ts, i, j - 1);
        assert(ts.take(j).drop_last() =~= ts.take(j - 1));
    } else if i > 0 {
        lemma_span_len_monotonic(ts, i - 1, i - 1);
        assert(ts.take(i).drop_last() =~= ts.take(i - 1));
    }
}

/// A split occupies exactly the split string plus one separator.
proof fn lemma_split_span_len(s: Seq<char>, sep: char)
    ensures
        spec_span_len(spec_split(s, sep)) == s.len() + 1,
    decreases s.len(),
{
    if exists|k: int| is_first_sep(s, sep, k) {
        let k = choose|k: int| is_first_sep(s, sep, k);
        lemma_split_span_len(s.skip(k + 1), sep);
        lemma_span_prepend(s.take(k), spec_split(s.skip(k + 1), sep));
    } else {
        assert(seq![s].drop_last() =~= Seq::<Seq<char>>::empty());
        assert(seq![s].last() == s);
        assert(spec_span_len(seq![s]) == spec_span_len(Seq::<Seq<char>>::empty()) + s.len() + 1);
    }
}

/// Prepending a token adds its length plus one to the span.
proof fn lemma_span_prepend(t: Seq<char>, ts: Seq<Seq<char>>)
    ensures
        spec_span_len(seq![t] + ts) == t.len() + 1 + spec_span_len(ts),
    decreases ts.len(),
{
    if ts.len() == 0 {
        assert(seq![t] + ts =~= seq![t]);
        assert(seq![t].drop_last() =~= Seq::<Seq<char>>::empty());
        assert(seq![t].last() == t);
        assert(spec_span_len(seq![t]) == spec_span_len(Seq::<Seq<char>>::empty()) + t.len() + 1);
    } else {
        lemma_span_prepend(t, ts.drop_last());
        assert((seq![t] + ts).drop_last() =~= seq![t] + ts.drop_last());
        assert((seq![t] + ts).last() == ts.last());
        assert(spec_span_len(seq![t] + ts) == spec_span_len(seq![t] + ts.drop_last())
            + ts.last().len() + 1);
        assert(spec_span_len(ts) == spec_span_len(ts.drop_last()) + ts.last().len() + 1);
    }
}

/// Trimming each token never grows the span.
proof fn lemma_span_trim(ts: Seq<Seq<char>>, us: Seq<Seq<char>>)
    requires
        ts.len() == us.len(),
        forall|i: int| 0 <= i < ts.len() ==> (#[trigger] us[i]).len() <= ts[i].len(),
    ensures
        spec_span_len(us) <= spec_span_len(ts),
    decreases ts.len(),
{
    if ts.len() > 0 {
        assert forall|i: int| 0 <= i < ts.drop_last().len() implies (
        #[trigger] us.drop_last()[i]).len() <= ts.drop_last()[i].len() by {
            assert(us.drop_last()[i] == us[i]);
            assert(ts.drop_last()[i] == ts[i]);
        }
        lemma_span_trim(ts.drop_last(), us.drop_last());
        assert(us.last().len() <= ts.last().len());
    }
}

/// A selection rejection: the message, the offending source line, the
/// span pointed at, and a help line.
#[derive(Debug)]
pub struct ParseSelectionError {
    error: String,
    src: String,
    pos: (usize, usize),
    help: String,
}

impl ParseSelectionError {
    /// The error message.
    pub closed spec fn spec_message(self) -> Seq<char> {
        self.error@
    }

    /// The source line the span points into.
    pub closed spec fn spec_source(self) -> Seq<char> {
        self.src@
    }

    /// The span pointed at: offset and length.
    pub closed spec fn spec_span(self) -> (usize, usize) {
        self.pos
    }

    /// The help line.
    pub closed spec fn spec_help(self) -> Seq<char> {
        self.help@
    }

    /// The error message.
    pub fn message(&self) -> (r: &String)
        ensures
            r@ == self.spec_message(),
    {
        &self.error
    }

    /// The source line the span points into.
    pub fn source_text(&self) -> (r: &String)
        ensures
            r@ == self.spec_source(),
    {
        &self.src
    }

    /// The span pointed at: offset and length.
    pub fn span(&self) -> (r: (usize, usize))
        ensures
            r == self.spec_span(),
    {
        self.pos
    }

    /// The help line.
    pub fn help_text(&self) -> (r: &String)
        ensures
            r@ == self.spec_help(),
    {
        &self.help
    }

    /// Nothing was entered at all.
    pub fn no_input() -> (r: ParseSelectionError)
        ensures
            r.spec_message() == "no input made"@,
            r.spec_help() == "make a selection using the provided syntax or quit"@,
            r.spec_source() == Seq::<char>::empty(),
            r.spec_span() == (0usize, 0usize),
    {
        ParseSelectionError {
            error: "no input made".to_owned(),
            src: String::new(),
            pos: (0, 0),
            help: "make a selection using the provided syntax or quit".to_owned(),
        }
    }

    /// An empty token between two commas.
    pub fn no_selection_comma(src: &str, pos: (usize, usize)) -> (r: ParseSelectionError)
        ensures
            r.spec_message() == "no selection found between comma"@,
            r.spec_help() == "remove this comma"@,
            r.spec_source() == src@,
            r.spec_span() == pos,
    {
        ParseSelectionError {
            error: "no selection found between comma".to_owned(),
            src: src.to_owned(),
            pos,
            help: "remove this comma".to_owned(),
        }
    }

    /// A character that is neither a digit nor a dash.
    pub fn unexpected_token(src: &str, pos: (usize, usize)) -> (r: ParseSelectionError)
        ensures
            r.spec_message() == "unexpected token"@,
            r.spec_help() == "remove this character"@,
            r.spec_source() == src@,
            r.spec_span() == pos,
    {
        ParseSelectionError {
            error: "unexpected token".to_owned(),
            src: src.to_owned(),
            pos,
            help: "remove this character".to_owned(),
        }
    }

    /// Whitespace inside a token.
    pub fn unexpected_whitespace(src: &str, pos: (usize, usize)) -> (r: ParseSelectionError)
        ensures
            r.spec_message() == "unexpected whitespace"@,
            r.spec_help() == (
            "use commas as separators, not spaces. if the issue was\nwith a range, remove the whitespace around the dash"@),
            r.spec_source() == src@,
            r.spec_span() == pos,
    {
        ParseSelectionError {
            error: "unexpected whitespace".to_owned(),
            src: src.to_owned(),
            pos,
            help:
                "use commas as separators, not spaces. if the issue was\nwith a range, remove the whitespace around the dash".to_owned(),
        }
    }

    /// A range with more than two operands.
    pub fn invalid_range_operands(src: &str, pos: (usize, usize)) -> (r: ParseSelectionError)
        ensures
            r.spec_message() == "invalid range operands"@,
            r.spec_help() == "negative numbers aren't supported"@,
            r.spec_source() == src@,
            r.spec_span() == pos,
    {
        ParseSelectionError {
            error: "invalid range operands".to_owned(),
            src: src.to_owned(),
            pos,
            help: "negative numbers aren't supported".to_owned(),
        }
    }

    /// A range missing a number before or after its dash.
    pub fn missing_range_operands(src: &str, pos: (usize, usize)) -> (r: ParseSelectionError)
        ensures
            r.spec_message() == "missing range operands"@,
            r.spec_help() == (
            "make sure there's a number before and after the dash\nnote that negative numbers aren't supported"@),
            r.spec_source() == src@,
            r.spec_span() == pos,
    {
        ParseSelectionError {
            error: "missing range operands".to_owned(),
            src: src.to_owned(),
            pos,
            help:
                "make sure there's a number before and after the dash\nnote that negative numbers aren't supported".to_owned(),
        }
    }

    /// A range whose start exceeds its end.
    pub fn invalid_range_order(src: &str, pos: (usize, usize)) -> (r: ParseSelectionError)
        ensures
            r.spec_message() == "start of range greater than end"@,
            r.spec_help() == "re-order to ascending order"@,
            r.spec_source() == src@,
            r.spec_span() == pos,
    {
        ParseSelectionError {
            error: "start of range greater than end".to_owned(),
            src: src.to_owned(),
            pos,
            help: "re-order to ascending order".to_owned(),
        }
    }

    /// A number too large for the selection's integer type.
    pub fn overflow(src: &str, pos: (usize, usize)) -> (r: ParseSelectionError)
        ensures
            r.spec_message() == "i32 overflow"@,
            r.spec_help() == "enter a smaller number"@,
            r.spec_source() == src@,
            r.spec_span() == pos,
    {
        ParseSelectionError {
            error: "i32 overflow".to_owned(),
            src: src.to_owned(),
            pos,
            help: "enter a smaller number".to_owned(),
        }
    }
}


/// The tokens re-joined with commas, as shown in diagnostics.
pub open spec fn spec_join(ts: Seq<Seq<char>>) -> Seq<char>
    decreases ts.len(),
{
    if ts.len() == 0 {
        Seq::empty()
    } else if ts.len() == 1 {
        ts[0]
    } else {
        spec_join(ts.drop_last()) + ","@ + ts.last()
    }
}

/// The views of a token list.
pub open spec fn token_views(ts: Seq<String>) -> Seq<Seq<char>> {
    ts.map_values(|t: String| t@)
}

/// Joins tokens with commas for the diagnostics display.
pub fn join_commas(ts: &Vec<String>) -> (r: String)
    ensures
        r@ == spec_join(token_views(ts@)),
{
    let n = ts.len();
    if n == 0 {
        return String::new();
    }
    let mut r = ts[0].clone();
    let mut i: usize = 1;
    proof {
        assert(token_views(ts@).take(1) =~= seq![ts@[0]@]);
        assert(r@ == spec_join(token_views(ts@).take(1)));
    }
    while i < n
        invariant
            1 <= i <= n,
            n == ts@.len(),
            r@ == spec_join(token_views(ts@).take(i as int)),
        decreases n - i,
    {
        proof {
            reveal_strlit(",");
            assert(token_views(ts@).take(i + 1).drop_last() =~= token_views(ts@).take(i as int));
            assert(token_views(ts@).take(i + 1).last() == ts@[i as int]@);
        }
        r.append(",");
        r.append(ts[i].as_str());
        i += 1;
    }
    proof {
        assert(token_views(ts@).take(n as int) =~= token_views(ts@));
    }
    r
}

/// A token the validator accepts: non-empty, digits and dashes only.
pub open spec fn spec_valid_token(t: Seq<char>) -> bool {
    t.len() > 0 && (forall|i: int| 0 <= i < t.len() ==> dash_or_digit(#[trigger] t[i]))
}

/// The diagnostic the token validator reports for the first invalid
/// token: the token at `i` is the first invalid one, and the error
/// points at its offence in the display form (an empty token blames
/// its comma; otherwise the first character that is neither a digit
/// nor a dash is blamed, as whitespace or as a stray token).
pub open spec fn spec_token_diag(ts: Seq<Seq<char>>, i: int, e: ParseSelectionError) -> bool {
    &&& 0 <= i < ts.len()
    &&& !spec_valid_token(ts[i])
    &&& (forall|i2: int| 0 <= i2 < i ==> spec_valid_token(#[trigger] ts[i2]))
    &&& if ts[i].len() == 0 {
        &&& e.spec_message() == "no selection found between comma"@
        &&& e.spec_span().0 == spec_span_len(ts.take(i))
        &&& e.spec_span().1 == 0
    } else {
        exists|j: int|
            {
                &&& 0 <= j < ts[i].len()
                &&& !dash_or_digit(#[trigger] ts[i][j])
                &&& (forall|j2: int| 0 <= j2 < j ==> dash_or_digit(#[trigger] ts[i][j2]))
                &&& e.spec_message() == (if is_space_char(ts[i][j]) {
                    "unexpected whitespace"@
                } else {
                    "unexpected token"@
                })
                &&& e.spec_span().0 == spec_span_len(ts.take(i)) + j
                &&& e.spec_span().1 == 0
            }
    }
}

/// Validates the tokens of a selection: every token must be
/// non-empty and hold only digits and dashes. The first offence is
/// reported with its position in the re-joined display form.
pub fn validate_selection_tokens(src: &str, tokens: &Vec<String>) -> (r: Result<
    (),
    ParseSelectionError,
>)
    requires
        spec_span_len(token_views(tokens@)) <= usize::MAX,
    ensures
        r is Ok <==> (forall|i: int|
            0 <= i < tokens@.len() ==> spec_valid_token((#[trigger] tokens@[i])@)),
        r matches Err(e) ==> e.spec_source() == src@ && exists|i: int|
            spec_token_diag(token_views(tokens@), i, e),
{
    let n = tokens.len();
    let mut pos: usize = 0;
    let mut i: usize = 0;
    proof {
        assert(token_views(tokens@).take(0) =~= Seq::<Seq<char>>::empty());
    }
    while i < n
        invariant
            0 <= i <= n,
            n == tokens@.len(),
            spec_span_len(token_views(tokens@)) <= usize::MAX,
            pos == spec_span_len(token_views(tokens@).take(i as int)),
            forall|j: int| 0 <= j < i ==> spec_valid_token((#[trigger] tokens@[j])@),
        decreases n - i,
    {
        let t = &tokens[i];
        let tlen = t.as_str().unicode_len();
        proof {
            let tv = token_views(tokens@);
            assert(tv.take(i + 1).drop_last() =~= tv.take(i as int));
            assert(tv.take(i + 1).last() == tokens@[i as int]@);
            lemma_span_len_monotonic(tv, i + 1, n as int);
            assert(tv.take(n as int) =~= tv);
        }
        if tlen == 0 {
            let e = ParseSelectionError::no_selection_comma(src, (pos, 0));
            proof {
                assert(token_views(tokens@)[i as int] == tokens@[i as int]@);
                assert(spec_token_diag(token_views(tokens@), i as int, e));
            }
            return Err(e);
        }
        let mut ci: usize = 0;
        while ci < tlen
            invariant
                0 <= ci <= tlen,
                0 <= i < n,
                n == tokens@.len(),
                tlen == t@.len(),
                t@ == tokens@[i as int]@,
                pos == spec_span_len(token_views(tokens@).take(i as int)),
                pos + tlen + 1 <= usize::MAX,
                forall|i2: int| 0 <= i2 < i ==> spec_valid_token((#[trigger] tokens@[i2])@),
                forall|k: int| 0 <= k < ci ==> dash_or_digit(#[trigger] t@[k]),
            decreases tlen - ci,
        {
            let c = t.as_str().get_char(ci);
            if is_space(c) {
                let e = ParseSelectionError::unexpected_whitespace(src, (pos + ci, 0));
                proof {
                    assert(!dash_or_digit(c));
                    assert(!spec_valid_token(tokens@[i as int]@));
                    assert(token_views(tokens@)[i as int] == tokens@[i as int]@);
                    assert(spec_token_diag(token_views(tokens@), i as int, e));
                }
                return Err(e);
            }
            let cv = c as u32;
            let digit = cv >= 48 && cv <= 57;
            if !digit && c != '-' {
                let e = ParseSelectionError::unexpected_token(src, (pos + ci, 0));
                proof {
                    assert(!dash_or_digit(c));
                    assert(!is_space_char(c));
                    assert(!spec_valid_token(tokens@[i as int]@));
                    assert(token_views(tokens@)[i as int] == tokens@[i as int]@);
                    assert(spec_token_diag(token_views(tokens@), i as int, e));
                }
                return Err(e);
            }
            ci += 1;
        }
        pos = pos + tlen + 1;
        i += 1;
    }
    Ok(())
}

/// Parses one validated number token; `None` only on overflow.
pub fn parse_selection_number(t: &str) -> (r: Option<i32>)
    requires
        t@.len() > 0,
        all_digits(t@),
    ensures
        r matches Some(x) <==> dec_value(t@) <= i32::MAX,
        r matches Some(x) ==> x == dec_value(t@),
{
    match parse_digits(t) {
        Ok(v) => {
            if v <= i32::MAX as u64 {
                Option::Some(v as i32)
            } else {
                Option::None
            }
        },
        Err(_) => Option::None,
    }
}

/// Validates the number tokens: each must fit the selection's
/// integer type. The positions were recorded when the tokens were
/// grouped.
pub fn validate_selection_numbers(src: &str, numbers: &Vec<(String, usize)>) -> (r: Result<
    (),
    ParseSelectionError,
>)
    requires
        forall|i: int|
            0 <= i < numbers@.len() ==> (#[trigger] numbers@[i]).0@.len() > 0 && all_digits(
                numbers@[i].0@,
            ),
    ensures
        r is Ok <==> (forall|i: int|
            0 <= i < numbers@.len() ==> dec_value((#[trigger] numbers@[i]).0@) <= i32::MAX),
        r matches Err(e) ==> e.spec_source() == src@ && exists|i: int|
            {
                &&& 0 <= i < numbers@.len()
                &&& dec_value((#[trigger] numbers@[i]).0@) > i32::MAX
                &&& (forall|i2: int|
                    0 <= i2 < i ==> dec_value((#[trigger] numbers@[i2]).0@) <= i32::MAX)
                &&& e.spec_message() == "i32 overflow"@
                &&& e.spec_span().0 == numbers@[i].1
                &&& e.spec_span().1 == numbers@[i].0@.len()
            },
{
    let n = numbers.len();
    let mut i: usize = 0;
    while i < n
        invariant
            0 <= i <= n,
            n == numbers@.len(),
            forall|j: int|
                0 <= j < n ==> (#[trigger] numbers@[j]).0@.len() > 0 && all_digits(
                    numbers@[j].0@,
                ),
            forall|j: int| 0 <= j < i ==> dec_value((#[trigger] numbers@[j]).0@) <= i32::MAX,
        decreases n - i,
    {
        let tlen = numbers[i].0.as_str().unicode_len();
        match parse_selection_number(numbers[i].0.as_str()) {
            Option::Some(_) => (),
            Option::None => {
                let e = ParseSelectionError::overflow(src, (numbers[i].1, tlen));
                proof {
                    assert(dec_value(numbers@[i as int].0@) > i32::MAX);
                }
                return Err(e);
            },
        }
        i += 1;
    }
    Ok(())
}

/// The diagnostic a rejected range token deserves, in checking
/// order: empty operands, then the operand count, then overflow,
/// then ordering.
pub open spec fn spec_range_error_message(t: Seq<char>) -> Seq<char> {
    let ps = spec_split(t, '-');
    if exists|q: int| 0 <= q < ps.len() && (#[trigger] ps[q]).len() == 0 {
        "missing range operands"@
    } else if ps.len() != 2 {
        "invalid range operands"@
    } else if dec_value(ps[0]) > i32::MAX || dec_value(ps[1]) > i32::MAX {
        "i32 overflow"@
    } else {
        "start of range greater than end"@
    }
}

/// The span length a range diagnostic carries: a single character is
/// pointed at rather than spanned.
pub open spec fn spec_range_span_len(t: Seq<char>) -> int {
    if t.len() == 1 {
        0
    } else {
        t.len() as int
    }
}

/// A range token the validator accepts: exactly two non-empty
/// operands around one dash, both fitting the selection's integer
/// type, in ascending order.
pub open spec fn spec_valid_range(t: Seq<char>) -> bool {
    let ps = spec_split(t, '-');
    ps.len() == 2 && ps[0].len() > 0 && ps[1].len() > 0 && dec_value(ps[0]) <= i32::MAX
        && dec_value(ps[1]) <= i32::MAX && dec_value(ps[0]) <= dec_value(ps[1])
}

/// Validates the range tokens: two non-empty ascending operands each.
/// The positions were recorded when the tokens were grouped; a
/// single-character token is pointed at rather than spanned.
pub fn validate_selection_ranges(src: &str, ranges: &Vec<(String, usize)>) -> (r: Result<
    (),
    ParseSelectionError,
>)
    requires
        forall|i: int, j: int|
            0 <= i < ranges@.len() && 0 <= j < ranges@[i].0@.len() ==> dash_or_digit(
                #[trigger] ranges@[i].0@[j],
            ),
    ensures
        r is Ok <==> (forall|i: int|
            0 <= i < ranges@.len() ==> spec_valid_range((#[trigger] ranges@[i]).0@)),
        r matches Err(e) ==> e.spec_source() == src@ && exists|i: int|
            {
                &&& 0 <= i < ranges@.len()
                &&& !spec_valid_range((#[trigger] ranges@[i]).0@)
                &&& (forall|i2: int| 0 <= i2 < i ==> spec_valid_range((#[trigger] ranges@[i2]).0@))
                &&& e.spec_message() == spec_range_error_message(ranges@[i].0@)
                &&& e.spec_span().0 == ranges@[i].1
                &&& e.spec_span().1 == spec_range_span_len(ranges@[i].0@)
            },
{
    let n = ranges.len();
    let mut i: usize = 0;
    while i < n
        invariant
            0 <= i <= n,
            n == ranges@.len(),
            forall|a: int, j: int|
                0 <= a < ranges@.len() && 0 <= j < ranges@[a].0@.len() ==> dash_or_digit(
                    #[trigger] ranges@[a].0@[j],
                ),
            forall|j: int| 0 <= j < i ==> spec_valid_range((#[trigger] ranges@[j]).0@),
        decreases n - i,
    {
        let t = &ranges[i].0;
        let start = ranges[i].1;
        let tlen = t.as_str().unicode_len();
        let span_len: usize = if tlen == 1 {
            0
        } else {
            tlen
        };
        let parts = split_on(t.as_str(), '-');
        let mut p: usize = 0;
        while p < parts.len()
            invariant
                0 <= p <= parts@.len(),
                0 <= i < n,
                n == ranges@.len(),
                t@ == ranges@[i as int].0@,
                start == ranges@[i as int].1,
                span_len == spec_range_span_len(t@),
                forall|i2: int| 0 <= i2 < i ==> spec_valid_range((#[trigger] ranges@[i2]).0@),
                parts@.len() == spec_split(t@, '-').len(),
                forall|q: int|
                    0 <= q < parts@.len() ==> (#[trigger] parts@[q])@ == spec_split(t@, '-')[q],
                forall|q: int| 0 <= q < p ==> (#[trigger] spec_split(t@, '-')[q]).len() > 0,
            decreases parts@.len() - p,
        {
            if parts[p].as_str().unicode_len() == 0 {
                let e = ParseSelectionError::missing_range_operands(src, (start, span_len));
                proof {
                    assert(spec_split(t@, '-')[p as int].len() == 0);
                    assert(!spec_valid_range(ranges@[i as int].0@));
                    assert(spec_range_error_message(ranges@[i as int].0@)
                        == "missing range operands"@);
                }
                return Err(e);
            }
            p += 1;
        }
        if parts.len() != 2 {
            let e = ParseSelectionError::invalid_range_operands(src, (start, span_len));
            proof {
                assert(forall|q: int|
                    0 <= q < spec_split(t@, '-').len() ==> (#[trigger] spec_split(t@, '-')[q]).len()
                        > 0);
                assert(!spec_valid_range(ranges@[i as int].0@));
                assert(spec_range_error_message(ranges@[i as int].0@)
                    == "invalid range operands"@);
            }
            return Err(e);
        }
        proof {
            lemma_split_no_sep(t@, '-');
            lemma_split_chars(t@, '-', |c: char| dash_or_digit(c));
            assert forall|k: int| 0 <= k < (parts@[0])@.len() implies is_digit_char(
                #[trigger] (parts@[0])@[k],
            ) by {
                assert((parts@[0])@[k] == spec_split(t@, '-')[0][k]);
            }
            assert forall|k: int| 0 <= k < (parts@[1])@.len() implies is_digit_char(
                #[trigger] (parts@[1])@[k],
            ) by {
                assert((parts@[1])@[k] == spec_split(t@, '-')[1][k]);
            }
        }
        proof {
            assert(forall|q: int|
                0 <= q < spec_split(t@, '-').len() ==> (#[trigger] spec_split(t@, '-')[q]).len()
                    > 0);
        }
        let left = match parse_selection_number(parts[0].as_str()) {
            Option::Some(x) => x,
            Option::None => {
                let e = ParseSelectionError::overflow(src, (start, span_len));
                proof {
                    assert(dec_value(spec_split(t@, '-')[0]) > i32::MAX);
                    assert(!spec_valid_range(ranges@[i as int].0@));
                    assert(spec_range_error_message(ranges@[i as int].0@) == "i32 overflow"@);
                }
                return Err(e);
            },
        };
        let right = match parse_selection_number(parts[1].as_str()) {
            Option::Some(x) => x,
            Option::None => {
                let e = ParseSelectionError::overflow(src, (start, span_len));
                proof {
                    assert(dec_value(spec_split(t@, '-')[1]) > i32::MAX);
                    assert(!spec_valid_range(ranges@[i as int].0@));
                    assert(spec_range_error_message(ranges@[i as int].0@) == "i32 overflow"@);
                }
                return Err(e);
            },
        };
        if left > right {
            let e = ParseSelectionError::invalid_range_order(src, (start, span_len));
            proof {
                assert(left == dec_value(spec_split(t@, '-')[0]));
                assert(right == dec_value(spec_split(t@, '-')[1]));
                assert(!spec_valid_range(ranges@[i as int].0@));
                assert(spec_range_error_message(ranges@[i as int].0@)
                    == "start of range greater than end"@);
            }
            return Err(e);
        }
        i += 1;
    }
    Ok(())
}

/// The numbers from `start` to `end` inclusive; ascending order is
/// required.
pub fn to_range(start: i32, end: i32) -> (r: Result<Vec<i32>, String>)
    requires
        (end as int) - (start as int) < (usize::MAX as int),
    ensures
        r is Err <==> start > end,
        r matches Ok(v) ==> v@.len() == end - start + 1 && (forall|k: int|
            0 <= k < v@.len() ==> v@[k] == start + k),
        r matches Err(m) ==> m@ == "Start can't be greater than end; order must be ascending"@,
{
    if start > end {
        return Err("Start can't be greater than end; order must be ascending".to_owned());
    }
    let diff = end as i64 - start as i64 + 1;
    proof {
        assert(1 <= diff && diff <= usize::MAX as int);
    }
    let count = diff as usize;
    let mut v: Vec<i32> = Vec::new();
    let mut k: usize = 0;
    while k < count
        invariant
            0 <= k <= count,
            count == end - start + 1,
            start <= end,
            v@.len() == k,
            forall|m: int| 0 <= m < k ==> v@[m] == start + m,
        decreases count - k,
    {
        v.push(((start as i64) + (k as i64)) as i32);
        k += 1;
    }
    Ok(v)
}

/// Pushing an element extends exactly what a sequence contains.
proof fn lemma_push_contains(s: Seq<i32>, e: i32, y: i32)
    ensures
        s.push(e).contains(y) <==> (s.contains(y) || y == e),
{
    if s.push(e).contains(y) {
        let j = choose|j: int| 0 <= j < s.push(e).len() && s.push(e)[j] == y;
        if j < s.len() {
            assert(s[j] == y);
        }
    }
    if s.contains(y) {
        let j = choose|j: int| 0 <= j < s.len() && s[j] == y;
        assert(s.push(e)[j] == y);
    }
    if y == e {
        assert(s.push(e)[s.len() as int] == y);
    }
}

/// Inserting an element extends exactly what a sequence contains.
proof fn lemma_insert_contains(s: Seq<i32>, p: int, e: i32, y: i32)
    requires
        0 <= p <= s.len(),
    ensures
        s.insert(p, e).contains(y) <==> (s.contains(y) || y == e),
{
    s.insert_ensures(p, e);
    if s.insert(p, e).contains(y) {
        let j = choose|j: int| 0 <= j < s.insert(p, e).len() && s.insert(p, e)[j] == y;
        if j < p {
            assert(s[j] == y);
        } else if j > p {
            assert(s.insert(p, e)[(j - 1) + 1] == s[j - 1]);
            assert(s[j - 1] == y);
        }
    }
    if s.contains(y) {
        let j = choose|j: int| 0 <= j < s.len() && s[j] == y;
        if j < p {
            assert(s.insert(p, e)[j] == y);
        } else {
            assert(s.insert(p, e)[j + 1] == y);
        }
    }
    if y == e {
        assert(s.insert(p, e)[p] == y);
    }
}

/// Sorts ascending and removes duplicates: the result is strictly
/// increasing and holds exactly the input's values.
pub fn sorted_dedup(v: &Vec<i32>) -> (r: Vec<i32>)
    ensures
        forall|a: int, b: int| 0 <= a < b < r@.len() ==> r@[a] < r@[b],
        forall|x: i32| r@.contains(x) <==> v@.contains(x),
{
    let mut r: Vec<i32> = Vec::new();
    let n = v.len();
    let mut i: usize = 0;
    proof {
        assert(v@.take(0) =~= Seq::<i32>::empty());
    }
    while i < n
        invariant
            0 <= i <= n,
            n == v@.len(),
            forall|a: int, b: int| 0 <= a < b < r@.len() ==> r@[a] < r@[b],
            forall|x: i32| r@.contains(x) <==> v@.take(i as int).contains(x),
        decreases n - i,
    {
        let x = v[i];
        let ghost r_old = r@;
        let mut p: usize = 0;
        while p < r.len() && r[p] < x
            invariant
                0 <= p <= r@.len(),
                r@ == r_old,
                forall|q: int| 0 <= q < p ==> r@[q] < x,
                forall|a: int, b: int| 0 <= a < b < r@.len() ==> r@[a] < r@[b],
            decreases r@.len() - p,
        {
            p += 1;
        }
        let already = p < r.len() && r[p] == x;
        if !already {
            r.insert(p, x);
            proof {
                r_old.insert_ensures(p as int, x);
                assert forall|a: int, b: int| 0 <= a < b < r@.len() implies r@[a] < r@[b] by {
                    if b < p {
                        assert(r@[a] == r_old[a] && r@[b] == r_old[b]);
                    } else if a < p && b == p {
                        assert(r@[a] == r_old[a]);
                    } else if a < p && b > p {
                        assert(r@[a] == r_old[a]);
                        assert(r@[(b - 1) + 1] == r_old[b - 1]);
                        if b - 1 >= p {
                            if p < r_old.len() {
                                assert(r_old[p as int] >= x);
                                if b - 1 == p {
                                    assert(r_old[b - 1] > x || r_old[b - 1] == x);
                                    assert(r_old[b - 1] != x || !already);
                                }
                            }
                        }
                    } else if a == p {
                        assert(r@[(b - 1) + 1] == r_old[b - 1]);
                        assert(b - 1 >= p);
                        assert(r_old[p as int] > x || r_old[p as int] == x);
                    } else {
                        assert(r@[(a - 1) + 1] == r_old[a - 1]);
                        assert(r@[(b - 1) + 1] == r_old[b - 1]);
                    }
                }
            }
        }
        proof {
            assert(v@.take(i + 1).drop_last() =~= v@.take(i as int));
            assert(v@.take(i + 1) =~= v@.take(i as int).push(x));
            assert forall|y: i32| r@.contains(y) <==> v@.take(i + 1).contains(y) by {
                lemma_push_contains(v@.take(i as int), x, y);
                if already {
                    if y == x {
                        assert(r@[p as int] == x);
                        assert(r@.contains(x));
                    }
                } else {
                    lemma_insert_contains(r_old, p as int, x, y);
                }
            }
        }
        i += 1;
    }
    proof {
        assert(v@.take(n as int) =~= v@);
    }
    r
}


/// The display form of a selection input: commas trimmed off the
/// ends, then whitespace.
pub open spec fn spec_selection_trimmed(s: Seq<char>) -> Seq<char> {
    spec_trim(spec_trim(s, |c: char| c == ','), |c: char| is_space_char(c))
}

/// The tokens of a selection input: the trimmed form split on
/// commas, each token trimmed of whitespace.
pub open spec fn spec_selection_tokens(s: Seq<char>) -> Seq<Seq<char>> {
    spec_split(spec_selection_trimmed(s), ',').map_values(
        |t: Seq<char>| spec_trim(t, |c: char| is_space_char(c)),
    )
}

/// Whether a token holds a dash (and is read as a range).
pub open spec fn spec_has_dash(t: Seq<char>) -> bool {
    exists|i: int| 0 <= i < t.len() && t[i] == '-'
}

/// Whether one token of a selection is accepted: well-formed, and a
/// valid range or an in-range number.
pub open spec fn spec_token_ok(t: Seq<char>) -> bool {
    spec_valid_token(t) && (if spec_has_dash(t) {
        spec_valid_range(t)
    } else {
        dec_value(t) <= i32::MAX
    })
}

/// Whether a whole selection input is accepted.
pub open spec fn spec_selection_ok(s: Seq<char>) -> bool {
    spec_selection_trimmed(s).len() > 0 && (forall|i: int|
        0 <= i < spec_selection_tokens(s).len() ==> spec_token_ok(
            #[trigger] spec_selection_tokens(s)[i],
        ))
}

/// Whether one token selects the number `x`.
pub open spec fn spec_token_covers(t: Seq<char>, x: int) -> bool {
    if spec_has_dash(t) {
        dec_value(spec_split(t, '-')[0]) <= x <= dec_value(spec_split(t, '-')[1])
    } else {
        x == dec_value(t)
    }
}

/// Whether a selection input selects the number `x`.
pub open spec fn spec_selection_covers(s: Seq<char>, x: int) -> bool {
    exists|i: int|
        0 <= i < spec_selection_tokens(s).len() && spec_token_covers(
            #[trigger] spec_selection_tokens(s)[i],
            x,
        )
}

/// Groups validated tokens into number tokens and range tokens (those
/// holding a dash), each with its position in the display form.
/// Which tokens hold a dash (and are read as ranges).
fn dash_flags(tokens: &Vec<String>) -> (r: Vec<bool>)
    ensures
        r@.len() == tokens@.len(),
        forall|i: int| 0 <= i < r@.len() ==> r@[i] == spec_has_dash((#[trigger] tokens@[i])@),
{
    let n = tokens.len();
    let mut r: Vec<bool> = Vec::new();
    let mut i: usize = 0;
    while i < n
        invariant
            0 <= i <= n,
            n == tokens@.len(),
            r@.len() == i,
            forall|j: int| 0 <= j < i ==> r@[j] == spec_has_dash((#[trigger] tokens@[j])@),
        decreases n - i,
    {
        r.push(contains_char(tokens[i].as_str(), '-'));
        i += 1;
    }
    r
}

/// The indices whose flag equals `want`, in increasing order,
/// completely.
fn indices_where(flags: &Vec<bool>, want: bool) -> (r: Vec<usize>)
    ensures
        forall|j: int|
            0 <= j < r@.len() ==> 0 <= #[trigger] r@[j] < flags@.len() && flags@[r@[j] as int]
                == want,
        forall|j1: int, j2: int| 0 <= j1 < j2 < r@.len() ==> r@[j1] < r@[j2],
        forall|i: int|
            0 <= i < flags@.len() && (#[trigger] flags@[i]) == want ==> exists|j: int|
                0 <= j < r@.len() && r@[j] == i,
{
    let n = flags.len();
    let mut r: Vec<usize> = Vec::new();
    let mut i: usize = 0;
    while i < n
        invariant
            0 <= i <= n,
            n == flags@.len(),
            forall|j: int|
                0 <= j < r@.len() ==> 0 <= #[trigger] r@[j] < i && flags@[r@[j] as int] == want,
            forall|j1: int, j2: int| 0 <= j1 < j2 < r@.len() ==> r@[j1] < r@[j2],
            forall|k: int|
                0 <= k < i && (#[trigger] flags@[k]) == want ==> exists|j: int|
                    0 <= j < r@.len() && r@[j] == k,
        decreases n - i,
    {
        if flags[i] == want {
            let ghost r_old = r@;
            r.push(i);
            proof {
                assert forall|k: int|
                    0 <= k < i + 1 && (#[trigger] flags@[k]) == want implies exists|j: int|
                    0 <= j < r@.len() && r@[j] == k by {
                    if k == i {
                        assert(r@[r@.len() - 1] == k);
                    } else {
                        let j = choose|j: int| 0 <= j < r_old.len() && r_old[j] == k;
                        assert(r@[j] == k);
                    }
                }
            }
        }
        i += 1;
    }
    r
}

/// Each token's position in the re-joined display form.
fn token_positions(tokens: &Vec<String>) -> (r: Vec<usize>)
    requires
        spec_span_len(token_views(tokens@)) <= usize::MAX,
    ensures
        r@.len() == tokens@.len(),
        forall|i: int|
            0 <= i < r@.len() ==> #[trigger] r@[i] == spec_span_len(
                token_views(tokens@).take(i),
            ),
{
    let n = tokens.len();
    let mut r: Vec<usize> = Vec::new();
    let mut pos: usize = 0;
    let mut i: usize = 0;
    proof {
        assert(token_views(tokens@).take(0) =~= Seq::<Seq<char>>::empty());
    }
    while i < n
        invariant
            0 <= i <= n,
            n == tokens@.len(),
            r@.len() == i,
            spec_span_len(token_views(tokens@)) <= usize::MAX,
            pos == spec_span_len(token_views(tokens@).take(i as int)),
            forall|j: int|
                0 <= j < i ==> #[trigger] r@[j] == spec_span_len(token_views(tokens@).take(j)),
        decreases n - i,
    {
        let tlen = tokens[i].as_str().unicode_len();
        proof {
            let tv = token_views(tokens@);
            assert(tv.take(i + 1).drop_last() =~= tv.take(i as int));
            assert(tv.take(i + 1).last() == tokens@[i as int]@);
            lemma_span_len_monotonic(tv, i + 1, n as int);
            assert(tv.take(n as int) =~= tv);
        }
        r.push(pos);
        pos = pos + tlen + 1;
        i += 1;
    }
    r
}

/// The chosen tokens, each paired with its position.
fn select_pairs(tokens: &Vec<String>, positions: &Vec<usize>, idxs: &Vec<usize>) -> (r: Vec<
    (String, usize),
>)
    requires
        positions@.len() == tokens@.len(),
        forall|j: int| 0 <= j < idxs@.len() ==> 0 <= #[trigger] idxs@[j] < tokens@.len(),
    ensures
        r@.len() == idxs@.len(),
        forall|j: int|
            0 <= j < r@.len() ==> (#[trigger] r@[j]).0@ == tokens@[idxs@[j] as int]@ && r@[j].1
                == positions@[idxs@[j] as int],
{
    let n = idxs.len();
    let mut r: Vec<(String, usize)> = Vec::new();
    let mut j: usize = 0;
    while j < n
        invariant
            0 <= j <= n,
            n == idxs@.len(),
            positions@.len() == tokens@.len(),
            forall|q: int| 0 <= q < idxs@.len() ==> 0 <= #[trigger] idxs@[q] < tokens@.len(),
            r@.len() == j,
            forall|q: int|
                0 <= q < j ==> (#[trigger] r@[q]).0@ == tokens@[idxs@[q] as int]@ && r@[q].1
                    == positions@[idxs@[q] as int],
        decreases n - j,
    {
        let tk = idxs[j];
        r.push((tokens[tk].clone(), positions[tk]));
        j += 1;
    }
    r
}

/// Appends every value from `left` to `right` inclusive.
fn push_range_values(selected: &mut Vec<i32>, left: i32, right: i32)
    requires
        left <= right,
        (right as int) - (left as int) < (usize::MAX as int),
    ensures
        forall|y: i32|
            final(selected)@.contains(y) <==> old(selected)@.contains(y) || (left <= y <= right),
{
    let expanded = match to_range(left, right) {
        Ok(v) => v,
        Err(_) => {
            proof {
                assert(false);
            }
            return ;
        },
    };
    let en = expanded.len();
    let mut m: usize = 0;
    let ghost sel_before = selected@;
    while m < en
        invariant
            0 <= m <= en,
            en == expanded@.len(),
            en == right - left + 1,
            forall|q: int| 0 <= q < en ==> expanded@[q] == left + q,
            forall|y: i32|
                selected@.contains(y) <==> sel_before.contains(y) || (left <= y < left + m),
        decreases en - m,
    {
        let ghost sel_old = selected@;
        let ghost m0 = m as int;
        let x = expanded[m];
        selected.push(x);
        proof {
            assert(x == left + m0);
            assert forall|y: i32| selected@.contains(y) <==> (sel_before.contains(y) || (left <= y
                < left + m0 + 1)) by {
                lemma_push_contains(sel_old, x, y);
                assert(sel_old.contains(y) <==> (sel_before.contains(y) || (left <= y < left
                    + m0)));
            }
        }
        m += 1;
        proof {
            assert forall|y: i32| selected@.contains(y) <==> (sel_before.contains(y) || (left <= y
                < left + m)) by {
                assert(selected@.contains(y) <==> (sel_before.contains(y) || (left <= y < left + m0
                    + 1)));
            }
        }
    }
}

/// Collects every selected number: each number token's value, and
/// every value of each range token, in encounter order.
#[verifier::rlimit(50)]
fn collect_selected(numbers: &Vec<(String, usize)>, ranges: &Vec<(String, usize)>) -> (r: Vec<
    i32,
>)
    requires
        forall|q: int|
            0 <= q < numbers@.len() ==> (#[trigger] numbers@[q]).0@.len() > 0 && all_digits(
                numbers@[q].0@,
            ) && dec_value(numbers@[q].0@) <= i32::MAX,
        forall|q: int| 0 <= q < ranges@.len() ==> spec_valid_range((#[trigger] ranges@[q]).0@),
        forall|q: int, c: int|
            0 <= q < ranges@.len() && 0 <= c < ranges@[q].0@.len() ==> dash_or_digit(
                #[trigger] ranges@[q].0@[c],
            ),
    ensures
        forall|x: i32|
            r@.contains(x) <==> (exists|q: int|
                0 <= q < numbers@.len() && x == dec_value((#[trigger] numbers@[q]).0@)) || (exists|
                q: int,
            |
                0 <= q < ranges@.len() && dec_value(spec_split((#[trigger] ranges@[q]).0@, '-')[0])
                    <= x <= dec_value(spec_split(ranges@[q].0@, '-')[1])),
{
    let mut selected: Vec<i32> = Vec::new();
    let nn = numbers.len();
    let mut a: usize = 0;
    while a < nn
        invariant
            0 <= a <= nn,
            nn == numbers@.len(),
            forall|q: int|
                0 <= q < numbers@.len() ==> (#[trigger] numbers@[q]).0@.len() > 0 && all_digits(
                    numbers@[q].0@,
                ) && dec_value(numbers@[q].0@) <= i32::MAX,
            forall|x: i32|
                selected@.contains(x) <==> exists|q: int|
                    0 <= q < a && x == dec_value((#[trigger] numbers@[q]).0@),
        decreases nn - a,
    {
        let ghost sel_old = selected@;
        let x = match parse_selection_number(numbers[a].0.as_str()) {
            Option::Some(x) => x,
            Option::None => {
                proof {
                    assert(false);
                }
                return selected;
            },
        };
        selected.push(x);
        proof {
            assert forall|y: i32| selected@.contains(y) <==> (exists|q: int|
                0 <= q < a + 1 && y == dec_value((#[trigger] numbers@[q]).0@)) by {
                lemma_push_contains(sel_old, x, y);
                if y == x {
                    assert(y == dec_value(numbers@[a as int].0@));
                }
            }
        }
        a += 1;
    }
    let nr = ranges.len();
    let mut b: usize = 0;
    while b < nr
        invariant
            0 <= b <= nr,
            nr == ranges@.len(),
            nn == numbers@.len(),
            forall|q: int| 0 <= q < ranges@.len() ==> spec_valid_range((#[trigger] ranges@[q]).0@),
            forall|q: int, c: int|
                0 <= q < ranges@.len() && 0 <= c < ranges@[q].0@.len() ==> dash_or_digit(
                    #[trigger] ranges@[q].0@[c],
                ),
            forall|x: i32|
                selected@.contains(x) <==> (exists|q: int|
                    0 <= q < nn && x == dec_value((#[trigger] numbers@[q]).0@)) || (exists|q: int|
                    0 <= q < b && dec_value(spec_split((#[trigger] ranges@[q]).0@, '-')[0]) <= x
                        <= dec_value(spec_split(ranges@[q].0@, '-')[1])),
        decreases nr - b,
    {
        let t = &ranges[b].0;
        let parts = split_on(t.as_str(), '-');
        proof {
            lemma_split_no_sep(t@, '-');
            lemma_split_chars(t@, '-', |c: char| dash_or_digit(c));
            assert forall|c: int| 0 <= c < (parts@[0])@.len() implies is_digit_char(
                #[trigger] (parts@[0])@[c],
            ) by {
                assert((parts@[0])@[c] == spec_split(t@, '-')[0][c]);
            }
            assert forall|c: int| 0 <= c < (parts@[1])@.len() implies is_digit_char(
                #[trigger] (parts@[1])@[c],
            ) by {
                assert((parts@[1])@[c] == spec_split(t@, '-')[1][c]);
            }
        }
        let left = match parse_selection_number(parts[0].as_str()) {
            Option::Some(x) => x,
            Option::None => {
                proof {
                    assert(false);
                }
                return selected;
            },
        };
        let right = match parse_selection_number(parts[1].as_str()) {
            Option::Some(x) => x,
            Option::None => {
                proof {
                    assert(false);
                }
                return selected;
            },
        };
        let ghost sel_before = selected@;
        push_range_values(&mut selected, left, right);
        proof {
            let lv = dec_value(spec_split(ranges@[b as int].0@, '-')[0]);
            let rv = dec_value(spec_split(ranges@[b as int].0@, '-')[1]);
            assert(left == lv && right == rv);
            assert forall|x: i32| selected@.contains(x) <==> ((exists|q: int|
                0 <= q < nn && x == dec_value((#[trigger] numbers@[q]).0@)) || (exists|q: int|
                0 <= q < b + 1 && dec_value(spec_split((#[trigger] ranges@[q]).0@, '-')[0]) <= x
                    <= dec_value(spec_split(ranges@[q].0@, '-')[1]))) by {
                if selected@.contains(x) && !sel_before.contains(x) {
                    assert(0 <= b < b + 1 && dec_value(spec_split(ranges@[b as int].0@, '-')[0])
                        <= x <= dec_value(spec_split(ranges@[b as int].0@, '-')[1]));
                }
                if !selected@.contains(x) {
                    if exists|q: int|
                        0 <= q < b + 1 && dec_value(spec_split((#[trigger] ranges@[q]).0@, '-')[0])
                            <= x <= dec_value(spec_split(ranges@[q].0@, '-')[1]) {
                        let q = choose|q: int|
                            0 <= q < b + 1 && dec_value(
                                spec_split((#[trigger] ranges@[q]).0@, '-')[0],
                            ) <= x <= dec_value(spec_split(ranges@[q].0@, '-')[1]);
                        if q == b {
                            assert(lv <= x <= rv);
                            assert(selected@.contains(x));
                        }
                    }
                }
            }
        }
        b += 1;
    }
    selected
}

/// The diagnostic `parse_selection` reports for a rejected input,
/// stage by stage: the no-input error for an input empty after
/// trimming; the first invalid token's diagnostic; else the first
/// over-sized number token's overflow; else the first invalid range
/// token's diagnostic. The source line shown is always the re-joined
/// token list.
pub open spec fn spec_selection_error(input: Seq<char>, e: ParseSelectionError) -> bool {
    let ts = spec_selection_tokens(input);
    if spec_selection_trimmed(input).len() == 0 {
        &&& e.spec_message() == "no input made"@
        &&& e.spec_source() == Seq::<char>::empty()
        &&& e.spec_span().0 == 0
        &&& e.spec_span().1 == 0
    } else if exists|i: int| 0 <= i < ts.len() && !spec_valid_token(#[trigger] ts[i]) {
        &&& e.spec_source() == spec_join(ts)
        &&& exists|i: int| spec_token_diag(ts, i, e)
    } else if exists|tk: int|
        0 <= tk < ts.len() && !spec_has_dash(#[trigger] ts[tk]) && dec_value(ts[tk]) > i32::MAX {
        &&& e.spec_source() == spec_join(ts)
        &&& exists|tk: int|
            {
                &&& 0 <= tk < ts.len()
                &&& !spec_has_dash(#[trigger] ts[tk])
                &&& dec_value(ts[tk]) > i32::MAX
                &&& (forall|tk2: int|
                    0 <= tk2 < tk && !spec_has_dash(#[trigger] ts[tk2]) ==> dec_value(ts[tk2])
                        <= i32::MAX)
                &&& e.spec_message() == "i32 overflow"@
                &&& e.spec_span().0 == spec_span_len(ts.take(tk))
                &&& e.spec_span().1 == ts[tk].len()
            }
    } else {
        &&& e.spec_source() == spec_join(ts)
        &&& exists|tk: int|
            {
                &&& 0 <= tk < ts.len()
                &&& spec_has_dash(#[trigger] ts[tk])
                &&& !spec_valid_range(ts[tk])
                &&& (forall|tk2: int|
                    0 <= tk2 < tk && spec_has_dash(#[trigger] ts[tk2]) ==> spec_valid_range(
                        ts[tk2],
                    ))
                &&& e.spec_message() == spec_range_error_message(ts[tk])
                &&& e.spec_span().0 == spec_span_len(ts.take(tk))
                &&& e.spec_span().1 == spec_range_span_len(ts[tk])
            }
    }
}

/// Parses a selection: comma-separated chapter numbers and ascending
/// inclusive ranges, e.g. `1, 3, 5-8`. The accepted inputs are
/// exactly those whose tokens are all valid; the result lists
/// exactly the selected numbers, in ascending order, without
/// duplicates.
#[verifier::rlimit(100)]
pub fn parse_selection(selection_input: &str) -> (r: Result<Vec<i32>, ParseSelectionError>)
    requires
        selection_input@.len() < usize::MAX / 2,
    ensures
        r is Ok <==> spec_selection_ok(selection_input@),
        r matches Ok(v) ==> {
            &&& forall|a: int, b: int| 0 <= a < b < v@.len() ==> v@[a] < v@[b]
            &&& forall|x: i32|
                v@.contains(x) <==> spec_selection_covers(selection_input@, x as int)
        },
        r matches Err(e) ==> spec_selection_error(selection_input@, e),
{
    let ghost input = selection_input@;
    let t0 = trim_commas(selection_input);
    let trimmed = trim_spaces(t0.as_str());
    proof {
        assert(trimmed@ == spec_selection_trimmed(input));
    }
    if trimmed.as_str().unicode_len() == 0 {
        let e = ParseSelectionError::no_input();
        proof {
            assert(spec_selection_error(input, e));
        }
        return Err(e);
    }
    let raw = split_on(trimmed.as_str(), ',');
    let rn = raw.len();
    let mut tokens: Vec<String> = Vec::new();
    let mut j: usize = 0;
    while j < rn
        invariant
            0 <= j <= rn,
            rn == raw@.len(),
            raw@.len() == spec_split(trimmed@, ',').len(),
            trimmed@ == spec_selection_trimmed(input),
            forall|q: int|
                0 <= q < raw@.len() ==> (#[trigger] raw@[q])@ == spec_split(trimmed@, ',')[q],
            tokens@.len() == j,
            forall|q: int|
                0 <= q < j ==> (#[trigger] tokens@[q])@ == spec_selection_tokens(input)[q],
        decreases rn - j,
    {
        let t = trim_spaces(raw[j].as_str());
        proof {
            assert(spec_selection_tokens(input)[j as int] == spec_trim(
                spec_split(trimmed@, ',')[j as int],
                |c: char| is_space_char(c),
            ));
        }
        tokens.push(t);
        j += 1;
    }
    proof {
        assert(tokens@.len() == spec_selection_tokens(input).len());
        assert(token_views(tokens@) =~~= spec_selection_tokens(input));
    }
    let selection = join_commas(&tokens);
    proof {
        lemma_split_span_len(trimmed@, ',');
        let raw_views = spec_split(trimmed@, ',');
        let tok_views = token_views(tokens@);
        assert forall|q: int| 0 <= q < raw_views.len() implies (#[trigger] tok_views[q]).len()
            <= raw_views[q].len() by {
            lemma_trim_len(raw_views[q], |c: char| is_space_char(c));
        }
        lemma_span_trim(raw_views, tok_views);
        lemma_trim_len(input, |c: char| c == ',');
        lemma_trim_len(spec_trim(input, |c: char| c == ','), |c: char| is_space_char(c));
        assert(spec_span_len(tok_views) <= usize::MAX);
    }
    match validate_selection_tokens(selection.as_str(), &tokens) {
        Ok(()) => (),
        Err(e) => {
            proof {
                let ts = spec_selection_tokens(input);
                let i = choose|i: int| spec_token_diag(token_views(tokens@), i, e);
                assert(spec_token_diag(ts, i, e));
                assert(!spec_valid_token(ts[i]));
                assert(spec_selection_error(input, e));
            }
            return Err(e);
        },
    }
    let flags = dash_flags(&tokens);
    let positions = token_positions(&tokens);
    let ridx = indices_where(&flags, true);
    let nidx = indices_where(&flags, false);
    let numbers = select_pairs(&tokens, &positions, &nidx);
    let ranges = select_pairs(&tokens, &positions, &ridx);
    proof {
        assert forall|a: int| 0 <= a < numbers@.len() implies (#[trigger] numbers@[a]).0@.len() > 0
            && all_digits(numbers@[a].0@) by {
            let tk = nidx@[a] as int;
            assert(flags@[tk] == false);
            assert(spec_valid_token(tokens@[tk]@));
            assert forall|c: int| 0 <= c < numbers@[a].0@.len() implies is_digit_char(
                #[trigger] numbers@[a].0@[c],
            ) by {
                assert(dash_or_digit(tokens@[tk]@[c]));
                assert(tokens@[tk]@[c] != '-');
            }
        }
        assert forall|a: int, c: int|
            0 <= a < ranges@.len() && 0 <= c < ranges@[a].0@.len() implies dash_or_digit(
            #[trigger] ranges@[a].0@[c],
        ) by {
            let tk = ridx@[a] as int;
            assert(spec_valid_token(tokens@[tk]@));
        }
    }
    match validate_selection_numbers(selection.as_str(), &numbers) {
        Ok(()) => (),
        Err(e) => {
            proof {
                let ts = spec_selection_tokens(input);
                let a = choose|i: int|
                    {
                        &&& 0 <= i < numbers@.len()
                        &&& dec_value((#[trigger] numbers@[i]).0@) > i32::MAX
                        &&& (forall|i2: int|
                            0 <= i2 < i ==> dec_value((#[trigger] numbers@[i2]).0@) <= i32::MAX)
                        &&& e.spec_message() == "i32 overflow"@
                        &&& e.spec_span().0 == numbers@[i].1
                        &&& e.spec_span().1 == numbers@[i].0@.len()
                    };
                let tk = nidx@[a] as int;
                assert(numbers@[a as int].0@ == tokens@[tk]@);
                assert(numbers@[a as int].1 == positions@[tk]);
                assert(positions@[tk] == spec_span_len(token_views(tokens@).take(tk)));
                assert(flags@[tk] == false);
                assert(!spec_has_dash(ts[tk]));
                assert(dec_value(ts[tk]) > i32::MAX);
                assert(!spec_token_ok(ts[tk]));
                assert forall|tk2: int|
                    0 <= tk2 < tk && !spec_has_dash(#[trigger] ts[tk2]) implies dec_value(
                    ts[tk2],
                ) <= i32::MAX by {
                    assert(flags@[tk2] == false);
                    let a2 = choose|j: int| 0 <= j < nidx@.len() && nidx@[j] == tk2;
                    if a2 > a {
                        assert(nidx@[a as int] < nidx@[a2]);
                        assert(false);
                    } else if a2 == a {
                        assert(false);
                    }
                    assert(dec_value(numbers@[a2].0@) <= i32::MAX);
                    assert(numbers@[a2].0@ == tokens@[tk2]@);
                }
                assert(spec_selection_error(input, e));
            }
            return Err(e);
        },
    }
    match validate_selection_ranges(selection.as_str(), &ranges) {
        Ok(()) => (),
        Err(e) => {
            proof {
                let ts = spec_selection_tokens(input);
                assert forall|tk2: int|
                    0 <= tk2 < ts.len() && !spec_has_dash(#[trigger] ts[tk2]) implies dec_value(
                    ts[tk2],
                ) <= i32::MAX by {
                    assert(flags@[tk2] == false);
                    let a2 = choose|j: int| 0 <= j < nidx@.len() && nidx@[j] == tk2;
                    assert(dec_value(numbers@[a2].0@) <= i32::MAX);
                    assert(numbers@[a2].0@ == tokens@[tk2]@);
                }
                let a = choose|i: int|
                    {
                        &&& 0 <= i < ranges@.len()
                        &&& !spec_valid_range((#[trigger] ranges@[i]).0@)
                        &&& (forall|i2: int|
                            0 <= i2 < i ==> spec_valid_range((#[trigger] ranges@[i2]).0@))
                        &&& e.spec_message() == spec_range_error_message(ranges@[i].0@)
                        &&& e.spec_span().0 == ranges@[i].1
                        &&& e.spec_span().1 == spec_range_span_len(ranges@[i].0@)
                    };
                let tk = ridx@[a] as int;
                assert(ranges@[a as int].0@ == tokens@[tk]@);
                assert(ranges@[a as int].1 == positions@[tk]);
                assert(positions@[tk] == spec_span_len(token_views(tokens@).take(tk)));
                assert(flags@[tk] == true);
                assert(spec_has_dash(ts[tk]));
                assert(!spec_valid_range(ts[tk]));
                assert(!spec_token_ok(ts[tk]));
                assert forall|tk2: int|
                    0 <= tk2 < tk && spec_has_dash(#[trigger] ts[tk2]) implies spec_valid_range(
                    ts[tk2],
                ) by {
                    assert(flags@[tk2] == true);
                    let a2 = choose|j: int| 0 <= j < ridx@.len() && ridx@[j] == tk2;
                    if a2 > a {
                        assert(ridx@[a as int] < ridx@[a2]);
                        assert(false);
                    } else if a2 == a {
                        assert(false);
                    }
                    assert(spec_valid_range(ranges@[a2].0@));
                    assert(ranges@[a2].0@ == tokens@[tk2]@);
                }
                assert(spec_selection_error(input, e));
            }
            return Err(e);
        },
    }
    let selected = collect_selected(&numbers, &ranges);
    let out = sorted_dedup(&selected);
    proof {
        assert forall|tk: int|
            0 <= tk < spec_selection_tokens(input).len() implies spec_token_ok(
            #[trigger] spec_selection_tokens(input)[tk],
        ) by {
            assert(tokens@[tk]@ == spec_selection_tokens(input)[tk]);
            if spec_has_dash(tokens@[tk]@) {
                assert(flags@[tk] == true);
                let j = choose|j: int| 0 <= j < ridx@.len() && ridx@[j] == tk;
                assert(ranges@[j].0@ == tokens@[tk]@);
            } else {
                assert(flags@[tk] == false);
                let j = choose|j: int| 0 <= j < nidx@.len() && nidx@[j] == tk;
                assert(numbers@[j].0@ == tokens@[tk]@);
            }
        }
        assert(spec_selection_ok(input));
        assert forall|x: i32| out@.contains(x) <==> spec_selection_covers(input, x as int) by {
            if out@.contains(x) {
                if exists|q: int|
                    0 <= q < numbers@.len() && x == dec_value((#[trigger] numbers@[q]).0@) {
                    let q = choose|q: int|
                        0 <= q < numbers@.len() && x == dec_value((#[trigger] numbers@[q]).0@);
                    let tk = nidx@[q] as int;
                    assert(numbers@[q].0@ == tokens@[tk]@);
                    assert(flags@[tk] == false);
                    assert(spec_token_covers(spec_selection_tokens(input)[tk], x as int));
                } else {
                    let q = choose|q: int|
                        0 <= q < ranges@.len() && dec_value(
                            spec_split((#[trigger] ranges@[q]).0@, '-')[0],
                        ) <= x <= dec_value(spec_split(ranges@[q].0@, '-')[1]);
                    let tk = ridx@[q] as int;
                    assert(ranges@[q].0@ == tokens@[tk]@);
                    assert(flags@[tk] == true);
                    assert(spec_token_covers(spec_selection_tokens(input)[tk], x as int));
                }
            }
            if spec_selection_covers(input, x as int) {
                let tk = choose|tk: int|
                    0 <= tk < spec_selection_tokens(input).len() && spec_token_covers(
                        #[trigger] spec_selection_tokens(input)[tk],
                        x as int,
                    );
                assert(tokens@[tk]@ == spec_selection_tokens(input)[tk]);
                if spec_has_dash(tokens@[tk]@) {
                    assert(flags@[tk] == true);
                    let j = choose|j: int| 0 <= j < ridx@.len() && ridx@[j] == tk;
                    assert(ranges@[j].0@ == tokens@[tk]@);
                    assert(selected@.contains(x));
                } else {
                    assert(flags@[tk] == false);
                    let j = choose|j: int| 0 <= j < nidx@.len() && nidx@[j] == tk;
                    assert(numbers@[j].0@ == tokens@[tk]@);
                    assert(selected@.contains(x));
                }
            }
        }
    }
    Ok(out)
}

} // verus!
