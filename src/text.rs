//! Lexical layer of listings: decimal integers, ASCII whitespace,
//! tokens and line comments.
use vstd::prelude::*;

verus! {

/// `c` is one of the ten decimal digits.
pub open spec fn is_digit(c: char) -> bool {
    '0' <= c <= '9'
}

/// The numeric value of a decimal digit.
pub open spec fn digit_value(c: char) -> int {
    c as int - '0' as int
}

/// The digit that stands for `d`, for `0 <= d < 10`.
pub open spec fn digit_char(d: int) -> char {
    ('0' as int + d) as char
}

/// `ds` is a non-empty run of decimal digits.
pub open spec fn is_digit_run(ds: Seq<char>) -> bool {
    ds.len() > 0 && forall|i: int| 0 <= i < ds.len() ==> is_digit(#[trigger] ds[i])
}

/// The value of a run of digits, most significant first.
pub open spec fn digits_value(ds: Seq<char>) -> int
    decreases ds.len(),
{
    if ds.len() == 0 {
        0
    } else {
        digits_value(ds.drop_last()) * 10 + digit_value(ds.last())
    }
}

/// The shortest run of digits that spells `n`.
pub open spec fn digits_of(n: nat) -> Seq<char>
    decreases n,
{
    if n < 10 {
        seq![digit_char(n as int)]
    } else {
        digits_of(n / 10).push(digit_char((n % 10) as int))
    }
}

/// The canonical decimal text of `v`: a minus sign for negative values,
/// then the digits without leading zeros.
pub open spec fn decimal_text(v: int) -> Seq<char> {
    if v < 0 {
        seq!['-'] + digits_of((-v) as nat)
    } else {
        digits_of(v as nat)
    }
}

/// The `i32` that `s` spells in base ten: an optional `+` or `-`, then one
/// or more digits, with a value in range. `None` for anything else.
pub open spec fn decimal_value(s: Seq<char>) -> Option<i32> {
    let signed = s.len() > 0 && (s[0] == '-' || s[0] == '+');
    let ds = if signed { s.drop_first() } else { s };
    let magnitude = digits_value(ds);
    let v = if signed && s[0] == '-' { -magnitude } else { magnitude };
    if is_digit_run(ds) && i32::MIN <= v <= i32::MAX {
        Some(v as i32)
    } else {
        None
    }
}

/// Relies on `i32::from_str` (`str::parse`): an optional sign followed by
/// decimal digits, with overflow reported as an error.
#[verifier::external_body]
pub(crate) fn parse_decimal(s: &str) -> (r: Option<i32>)
    ensures
        r == decimal_value(s@),
{
    s.parse::<i32>().ok()
}

/// Relies on `i32`'s `ToString` (its `Display`): the decimal text of the value.
#[verifier::external_body]
pub(crate) fn decimal_string(v: i32) -> (r: String)
    ensures
        r@ == decimal_text(v as int),
{
    v.to_string()
}

/// The digits of `n` are a run of digits worth `n`.
pub proof fn lemma_digits_of(n: nat)
    ensures
        is_digit_run(digits_of(n)),
        digits_value(digits_of(n)) == n,
    decreases n,
{
    let ds = digits_of(n);
    let d = (n % 10) as int;
    assert(digit_value(digit_char(d)) == d);
    if n < 10 {
        assert(ds.drop_last() =~= Seq::<char>::empty());
        assert(digits_value(ds.drop_last()) == 0);
        assert(ds.last() == digit_char(d));
    } else {
        lemma_digits_of(n / 10);
        assert(n == (n / 10) * 10 + d);
        assert(ds.last() == digit_char(d));
        assert(ds.drop_last() =~= digits_of(n / 10));
        assert forall|i: int| 0 <= i < ds.len() implies is_digit(#[trigger] ds[i]) by {
            if i < ds.len() - 1 {
                assert(ds[i] == digits_of(n / 10)[i]);
            }
        }
    }
}

/// Reading back the canonical text of an `i32` gives the same value.
pub proof fn lemma_decimal_round_trip(v: i32)
    ensures
        decimal_value(decimal_text(v as int)) == Some(v),
{
    let s = decimal_text(v as int);
    if v < 0 {
        let m = (-v) as nat;
        lemma_digits_of(m);
        assert(s.drop_first() =~= digits_of(m));
    } else {
        lemma_digits_of(v as nat);
        assert(is_digit(s[0]));
    }
}

/// ASCII whitespace: space, tab, line feed, form feed and carriage return.
pub open spec fn is_space(c: char) -> bool {
    c == ' ' || c == '\t' || c == '\n' || c == '\x0C' || c == '\r'
}

/// Length of the run of non-space characters that `s` starts with.
pub open spec fn word_len(s: Seq<char>) -> nat
    decreases s.len(),
{
    if s.len() == 0 || is_space(s[0]) {
        0
    } else {
        1 + word_len(s.drop_first())
    }
}

/// The tokens of `s`: its maximal runs of non-space characters, in order.
pub open spec fn tokens(s: Seq<char>) -> Seq<Seq<char>>
    decreases s.len(),
    via tokens_decreases
{
    if s.len() == 0 {
        Seq::empty()
    } else if is_space(s[0]) {
        tokens(s.drop_first())
    } else {
        seq![s.take(word_len(s) as int)] + tokens(s.skip(word_len(s) as int))
    }
}

#[via_fn]
proof fn tokens_decreases(s: Seq<char>) {
    lemma_word_len_bound(s);
}

/// A word is never longer than the text it starts.
pub proof fn lemma_word_len_bound(s: Seq<char>)
    ensures
        word_len(s) <= s.len(),
        s.len() > 0 && !is_space(s[0]) ==> word_len(s) >= 1,
    decreases s.len(),
{
    if s.len() > 0 && !is_space(s[0]) {
        lemma_word_len_bound(s.drop_first());
    }
}

/// What is left of `s` once its line comment is cut off. The comment starts
/// at the first `//` that no line feed follows and runs to the end.
pub open spec fn strip_comment(s: Seq<char>) -> Seq<char>
    decreases s.len(),
{
    if s.len() < 2 {
        s
    } else if s[0] == '/' && s[1] == '/' && !s.contains('\n') {
        Seq::empty()
    } else {
        seq![s[0]] + strip_comment(s.drop_first())
    }
}

/// Relies on `regex::Regex::new` with the pattern `//.*$` and on
/// `Regex::replace_all` with an empty replacement. Without flags `.` matches
/// anything but a line feed and `$` only the end of the haystack, and the
/// leftmost match wins: the cut begins at the first `//` that no line feed
/// follows. The pattern is valid, so `unwrap` cannot fail.
#[verifier::external_body]
pub(crate) fn remove_comments(input: &str) -> (r: String)
    ensures
        r@ == strip_comment(input@),
{
    let comment_regex = regex::Regex::new(r"//.*$").unwrap();
    comment_regex.replace_all(input, "").to_string()
}

/// The characters of `s`, one per element.
pub fn chars_of(s: &str) -> (r: Vec<char>)
    ensures
        r@ == s@,
{
    let mut out: Vec<char> = Vec::new();
    for c in it: s.chars()
        invariant
            out@ == it.seq().take(it.index() as int),
            it.seq() == s@,
    {
        out.push(c);
    }
    out
}

/// Executable form of `is_space`.
pub fn is_space_char(c: char) -> (r: bool)
    ensures
        r == is_space(c),
{
    c == ' ' || c == '\t' || c == '\n' || c == '\x0C' || c == '\r'
}

proof fn lemma_tokens_at_space(s: Seq<char>, i: int)
    requires
        0 <= i < s.len(),
        is_space(s[i]),
    ensures
        tokens(s.skip(i)) == tokens(s.skip(i + 1)),
{
    let t = s.skip(i);
    assert(t.drop_first() =~= s.skip(i + 1));
}

proof fn lemma_word_len_step(s: Seq<char>, i: int)
    requires
        0 <= i < s.len(),
        !is_space(s[i]),
    ensures
        word_len(s.skip(i)) == 1 + word_len(s.skip(i + 1)),
{
    assert(s.skip(i).drop_first() =~= s.skip(i + 1));
}

proof fn lemma_word_len_end(s: Seq<char>, i: int)
    requires
        0 <= i <= s.len(),
        i == s.len() || is_space(s[i]),
    ensures
        word_len(s.skip(i)) == 0,
{
}

proof fn lemma_tokens_at_word(s: Seq<char>, start: int, end: int)
    requires
        0 <= start < end <= s.len(),
        !is_space(s[start]),
        word_len(s.skip(start)) == end - start,
    ensures
        tokens(s.skip(start)) == seq![s.subrange(start, end)] + tokens(s.skip(end)),
{
    let t = s.skip(start);
    assert(t.take(end - start) =~= s.subrange(start, end));
    assert(t.skip(end - start) =~= s.skip(end));
}

/// Splits `s` into its tokens.
pub fn split_tokens(s: &str) -> (r: Vec<&str>)
    ensures
        r@.map_values(|t: &str| t@) == tokens(s@),
{
    let cs = chars_of(s);
    let n = cs.len();
    let mut out: Vec<&str> = Vec::new();
    let mut i: usize = 0;
    assert(s@.skip(0) =~= s@);
    assert(out@.map_values(|t: &str| t@) =~= Seq::<Seq<char>>::empty());
    while i < n
        invariant
            cs@ == s@,
            n == cs.len(),
            i <= n,
            out@.map_values(|t: &str| t@) + tokens(s@.skip(i as int)) == tokens(s@),
        decreases n - i,
    {
        if is_space_char(cs[i]) {
            proof {
                lemma_tokens_at_space(s@, i as int);
            }
            i = i + 1;
        } else {
            let start = i;
            while i < n && !is_space_char(cs[i])
                invariant
                    cs@ == s@,
                    n == cs.len(),
                    start <= i <= n,
                    word_len(s@.skip(start as int)) == (i - start) + word_len(s@.skip(i as int)),
                decreases n - i,
            {
                proof {
                    lemma_word_len_step(s@, i as int);
                }
                i = i + 1;
            }
            proof {
                lemma_word_len_end(s@, i as int);
                lemma_word_len_step(s@, start as int);
                lemma_tokens_at_word(s@, start as int, i as int);
            }
            let ghost before = out@.map_values(|t: &str| t@);
            let word = s.substring_char(start, i);
            out.push(word);
            assert(out@.map_values(|t: &str| t@) =~= before.push(s@.subrange(start as int, i as int)));
            assert(out@.map_values(|t: &str| t@) + tokens(s@.skip(i as int)) =~= before + tokens(s@.skip(start as int)));
        }
    }
    assert(s@.skip(n as int) =~= Seq::<char>::empty());
    assert(out@.map_values(|t: &str| t@) + tokens(s@.skip(n as int)) =~= out@.map_values(|t: &str| t@));
    out
}

/// What `str::to_uppercase` makes of a text.
pub uninterp spec fn upper_of(s: Seq<char>) -> Seq<char>;

/// Every character of `s` is an ASCII capital letter.
pub open spec fn is_capitals(s: Seq<char>) -> bool {
    forall|i: int| 0 <= i < s.len() ==> 'A' <= #[trigger] s[i] <= 'Z'
}

/// Relies on `str::to_uppercase`: the result depends on the characters
/// alone, and a character that has no upper-case mapping, as a capital
/// letter has none, is kept as it is.
#[verifier::external_body]
pub(crate) fn uppercase(s: &str) -> (r: String)
    ensures
        r@ == upper_of(s@),
        is_capitals(s@) ==> r@ == s@,
{
    s.to_uppercase()
}

/// `s` without its leading ASCII whitespace.
pub open spec fn trim_start(s: Seq<char>) -> Seq<char>
    decreases s.len(),
{
    if s.len() > 0 && is_space(s[0]) {
        trim_start(s.drop_first())
    } else {
        s
    }
}

/// `s` without its trailing ASCII whitespace.
pub open spec fn trim_end(s: Seq<char>) -> Seq<char>
    decreases s.len(),
{
    if s.len() > 0 && is_space(s.last()) {
        trim_end(s.drop_last())
    } else {
        s
    }
}

/// `s` without ASCII whitespace at either end.
pub open spec fn trim(s: Seq<char>) -> Seq<char> {
    trim_end(trim_start(s))
}

/// Cuts the ASCII whitespace off both ends of `s`.
pub fn trim_spaces(s: &str) -> (r: &str)
    ensures
        r@ == trim(s@),
{
    let cs = chars_of(s);
    let n = cs.len();
    let mut i: usize = 0;
    assert(s@.skip(0) =~= s@);
    while i < n && is_space_char(cs[i])
        invariant
            cs@ == s@,
            n == cs.len(),
            i <= n,
            trim_start(s@) == trim_start(s@.skip(i as int)),
        decreases n - i,
    {
        assert(s@.skip(i as int).drop_first() =~= s@.skip(i + 1));
        i = i + 1;
    }
    assert(trim_start(s@.skip(i as int)) == s@.skip(i as int));
    assert(s@.skip(i as int) =~= s@.subrange(i as int, n as int));
    let mut j: usize = n;
    while j > i && is_space_char(cs[j - 1])
        invariant
            cs@ == s@,
            n == cs.len(),
            i <= j <= n,
            trim(s@) == trim_end(s@.subrange(i as int, j as int)),
        decreases j,
    {
        assert(s@.subrange(i as int, j as int).drop_last() =~= s@.subrange(i as int, j - 1));
        j = j - 1;
    }
    s.substring_char(i, j)
}

/// Whether `a` and `b` hold the same characters.
pub fn str_equals(a: &str, b: &str) -> (r: bool)
    ensures
        r == (a@ == b@),
{
    let ca = chars_of(a);
    let cb = chars_of(b);
    if ca.len() != cb.len() {
        return false;
    }
    let mut i: usize = 0;
    while i < ca.len()
        invariant
            ca@ == a@,
            cb@ == b@,
            ca.len() == cb.len(),
            i <= ca.len(),
            forall|k: int| 0 <= k < i ==> ca@[k] == cb@[k],
        decreases ca.len() - i,
    {
        if ca[i] != cb[i] {
            return false;
        }
        i = i + 1;
    }
    assert(ca@ =~= cb@);
    true
}

/// Text that no comment marker can start and that no space splits.
pub open spec fn is_plain_word(s: Seq<char>) -> bool {
    s.len() > 0 && forall|i: int| 0 <= i < s.len() ==> !is_space(#[trigger] s[i]) && s[i] != '/'
}

/// The canonical text of an integer is one plain word.
pub proof fn lemma_decimal_text_plain(v: int)
    ensures
        is_plain_word(decimal_text(v)),
{
    let s = decimal_text(v);
    if v < 0 {
        lemma_digits_of((-v) as nat);
        assert forall|i: int| 0 <= i < s.len() implies !is_space(#[trigger] s[i]) && s[i] != '/' by {
            if i > 0 {
                assert(s[i] == digits_of((-v) as nat)[i - 1]);
            }
        }
    } else {
        lemma_digits_of(v as nat);
    }
}

/// A word of capitals is one plain word.
pub proof fn lemma_capitals_plain(s: Seq<char>)
    requires
        is_capitals(s),
        s.len() > 0,
    ensures
        is_plain_word(s),
{
    assert forall|i: int| 0 <= i < s.len() implies !is_space(#[trigger] s[i]) && s[i] != '/' by {
        assert('A' <= s[i] <= 'Z');
    }
}

/// Text without a slash holds no comment.
pub proof fn lemma_strip_without_slash(s: Seq<char>)
    requires
        forall|i: int| 0 <= i < s.len() ==> #[trigger] s[i] != '/',
    ensures
        strip_comment(s) == s,
    decreases s.len(),
{
    if s.len() >= 2 {
        assert(s[0] != '/');
        let t = s.drop_first();
        assert forall|i: int| 0 <= i < t.len() implies #[trigger] t[i] != '/' by {
            assert(t[i] == s[i + 1]);
        }
        lemma_strip_without_slash(t);
        assert(seq![s[0]] + t =~= s);
    }
}

/// A plain word followed by nothing or by a space is one whole token.
pub proof fn lemma_tokens_after_word(w: Seq<char>, rest: Seq<char>)
    requires
        is_plain_word(w),
        rest.len() == 0 || is_space(rest[0]),
    ensures
        tokens(w + rest) == seq![w] + tokens(rest),
{
    lemma_word_len_of_word(w, rest);
    let s = w + rest;
    assert(s.take(w.len() as int) =~= w);
    assert(s.skip(w.len() as int) =~= rest);
    assert(s[0] == w[0]);
}

proof fn lemma_word_len_of_word(w: Seq<char>, rest: Seq<char>)
    requires
        forall|i: int| 0 <= i < w.len() ==> !is_space(#[trigger] w[i]),
        rest.len() == 0 || is_space(rest[0]),
    ensures
        word_len(w + rest) == w.len(),
    decreases w.len(),
{
    let s = w + rest;
    if w.len() == 0 {
        assert(s =~= rest);
    } else {
        let t = w.drop_first();
        assert forall|i: int| 0 <= i < t.len() implies !is_space(#[trigger] t[i]) by {
            assert(t[i] == w[i + 1]);
        }
        lemma_word_len_of_word(t, rest);
        assert(s.drop_first() =~= t + rest);
        assert(s[0] == w[0]);
    }
}

/// A leading space separates and is not part of any token.
pub proof fn lemma_tokens_after_space(rest: Seq<char>)
    ensures
        tokens(seq![' '] + rest) == tokens(rest),
{
    assert((seq![' '] + rest).drop_first() =~= rest);
}

} // verus!
