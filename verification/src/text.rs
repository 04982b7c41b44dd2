//! Character level helpers shared by the buffer and the command parsers,
//! together with the trusted boundary to `std` string construction and the
//! `regex` crate.
use vstd::prelude::*;

verus! {

// ---------------------------------------------------------------------------
// Conversions between `str` and character vectors
// ---------------------------------------------------------------------------

/// The characters of `s`, in order.
pub fn chars_of(s: &str) -> (v: Vec<char>)
    ensures
        v@ == s@,
{
    let mut v: Vec<char> = Vec::new();
    for c in it: s.chars()
        invariant
            v@ == it.history(),
    {
        v.push(c);
    }
    v
}

} // verus!

verus! {

/// Builds a `String` holding exactly the given characters.
///
/// Trusted: calls `FromIterator<&char>` for `String` (`Iterator::collect`),
/// whose documented behaviour is to append every yielded character in order.
#[verifier::external_body]
pub(crate) fn string_from_chars(chars: &[char]) -> (s: String)
    ensures
        s@ == chars@,
{
    chars.iter().collect()
}

/// The number of bytes `c` takes in UTF-8.
pub open spec fn utf8_width(c: char) -> nat {
    if (c as u32) < 0x80 {
        1
    } else if (c as u32) < 0x800 {
        2
    } else if (c as u32) < 0x10000 {
        3
    } else {
        4
    }
}

/// The number of bytes `s` takes in UTF-8.
pub open spec fn utf8_len(s: Seq<char>) -> nat
    decreases s.len(),
{
    if s.len() == 0 {
        0
    } else {
        utf8_len(s.drop_last()) + utf8_width(s.last())
    }
}

/// The byte offset in a `str` holding `s` just after its first `n`
/// characters (the byte length of that prefix, which a `usize` holds for
/// every string in memory; it is capped at `usize::MAX`).
pub open spec fn byte_position(s: Seq<char>, n: int) -> usize {
    let b = utf8_len(s.take(n));
    if b <= usize::MAX { b as usize } else { usize::MAX }
}

/// The byte offset in `s` after its first `n` characters.
pub fn byte_offset(s: &str, n: usize) -> (b: usize)
    requires
        n <= s@.len(),
    ensures
        b == byte_position(s@, n as int),
{
    let mut b: usize = 0;
    let mut i: usize = 0;
    let ghost mut exact: nat = 0;
    assert(s@.take(0) =~= Seq::<char>::empty());
    while i < n
        invariant
            i <= n <= s@.len(),
            exact == utf8_len(s@.take(i as int)),
            b == (if exact <= usize::MAX { exact as usize } else { usize::MAX }),
        decreases n - i,
    {
        let c = s.get_char(i);
        let w: usize = if (c as u32) < 0x80 {
            1
        } else if (c as u32) < 0x800 {
            2
        } else if (c as u32) < 0x10000 {
            3
        } else {
            4
        };
        assert(s@.take(i + 1).drop_last() =~= s@.take(i as int));
        assert(s@.take(i + 1).last() == c);
        proof {
            exact = exact + utf8_width(c);
        }
        b = b.saturating_add(w);
        i = i + 1;
    }
    b
}

/// Whether `c` is an ASCII decimal digit.
pub open spec fn is_digit(c: char) -> bool {
    '0' <= c && c <= '9'
}

/// The value of an ASCII digit.
pub open spec fn digit_value(c: char) -> nat {
    (c as nat - '0' as nat) as nat
}

/// The number denoted by a sequence of decimal digits (most significant first).
pub open spec fn decimal_value(s: Seq<char>) -> nat
    decreases s.len(),
{
    if s.len() == 0 {
        0
    } else {
        decimal_value(s.drop_last()) * 10 + digit_value(s.last())
    }
}

/// Whether every character of `s` is a decimal digit.
pub open spec fn all_digits(s: Seq<char>) -> bool {
    forall|i: int| 0 <= i < s.len() ==> is_digit(#[trigger] s[i])
}

/// What `str::parse::<usize>` gives on `s`: the number when `s` is a
/// non-empty run of decimal digits (an optional leading `+` allowed) whose
/// value fits in a `usize`, and `None` otherwise.
pub open spec fn parse_usize_spec(s: Seq<char>) -> Option<usize> {
    let digits = if s.len() > 0 && s[0] == '+' { s.drop_first() } else { s };
    if digits.len() > 0 && all_digits(digits) && decimal_value(digits) <= usize::MAX {
        Some(decimal_value(digits) as usize)
    } else {
        None
    }
}

proof fn lemma_decimal_prefix(s: Seq<char>, i: int)
    requires
        0 <= i < s.len(),
    ensures
        decimal_value(s.subrange(0, i + 1)) == decimal_value(s.subrange(0, i)) * 10 + digit_value(s[i]),
{
    assert(s.subrange(0, i + 1).drop_last() =~= s.subrange(0, i));
}

proof fn lemma_decimal_monotone(s: Seq<char>, i: int)
    requires
        0 <= i <= s.len(),
        all_digits(s),
    ensures
        decimal_value(s.subrange(0, i)) <= decimal_value(s),
    decreases s.len() - i,
{
    if i < s.len() {
        lemma_decimal_prefix(s, i);
        lemma_decimal_monotone(s, i + 1);
    } else {
        assert(s.subrange(0, i) =~= s);
    }
}

/// Parses `s[start..end]` the way `str::parse::<usize>` does.
pub fn parse_usize(s: &Vec<char>, start: usize, end: usize) -> (r: Option<usize>)
    requires
        start <= end <= s@.len(),
    ensures
        r == parse_usize_spec(s@.subrange(start as int, end as int)),
{
    let ghost whole = s@.subrange(start as int, end as int);
    let mut i = start;
    if i < end && s[i] == '+' {
        i = i + 1;
    }
    let ghost digits = s@.subrange(i as int, end as int);
    assert(digits =~= (if whole.len() > 0 && whole[0] == '+' { whole.drop_first() } else { whole }));
    if i == end {
        return None;
    }
    let mut acc: usize = 0;
    let mut j = i;
    while j < end
        invariant
            start <= i <= j <= end <= s@.len(),
            i < end,
            whole == s@.subrange(start as int, end as int),
            digits == s@.subrange(i as int, end as int),
            digits == (if whole.len() > 0 && whole[0] == '+' { whole.drop_first() } else { whole }),
            all_digits(s@.subrange(i as int, j as int)),
            acc == decimal_value(s@.subrange(i as int, j as int)),
        decreases end - j,
    {
        let c = s[j];
        proof {
            lemma_decimal_prefix(digits, (j - i) as int);
            assert(digits.subrange(0, (j - i) as int) =~= s@.subrange(i as int, j as int));
            assert(digits.subrange(0, (j - i + 1) as int) =~= s@.subrange(i as int, j + 1));
        }
        if !('0' <= c && c <= '9') {
            assert(!all_digits(digits)) by {
                assert(digits[(j - i) as int] == c);
            }
            return None;
        }
        let d = (c as u32 - '0' as u32) as usize;
        if acc > (usize::MAX - d) / 10 {
            proof {
                assert(all_digits(s@.subrange(i as int, j + 1)));
                assert(decimal_value(s@.subrange(i as int, j + 1)) > usize::MAX) by (nonlinear_arith)
                    requires
                        decimal_value(s@.subrange(i as int, j + 1)) == acc * 10 + d,
                        acc > (usize::MAX - d) / 10,
                        d <= 9,
                ;
                if all_digits(digits) {
                    assert(digits.subrange(0, (j - i + 1) as int) =~= s@.subrange(i as int, j + 1));
                    lemma_decimal_monotone(digits, (j - i + 1) as int);
                }
            }
            return None;
        }
        assert(acc * 10 + d <= usize::MAX) by (nonlinear_arith)
            requires
                acc <= (usize::MAX - d) / 10,
                d <= 9,
        ;
        acc = acc * 10 + d;
        j = j + 1;
    }
    assert(s@.subrange(i as int, j as int) =~= digits);
    Some(acc)
}

} // verus!

verus! {

// ---------------------------------------------------------------------------
// Splitting text into lines, the way `str::lines` does
// ---------------------------------------------------------------------------

/// Index of the first `'\n'` in `s`, or `s.len()` when there is none.
pub open spec fn first_newline(s: Seq<char>) -> nat
    decreases s.len(),
{
    if s.len() == 0 {
        0
    } else if s[0] == '\n' {
        0
    } else {
        1 + first_newline(s.drop_first())
    }
}

/// Removes one trailing `'\r'`, if any.
pub open spec fn strip_cr(s: Seq<char>) -> Seq<char> {
    if s.len() > 0 && s.last() == '\r' {
        s.drop_last()
    } else {
        s
    }
}

/// The lines of `s` as `str::lines` yields them: pieces separated by `'\n'`
/// (a `'\r'` right before that `'\n'` is dropped too), the final line ending
/// being optional.
pub open spec fn lines_of(s: Seq<char>) -> Seq<Seq<char>>
    decreases s.len(),
{
    if s.len() == 0 {
        Seq::empty()
    } else {
        let k = first_newline(s) as int;
        if k >= s.len() {
            seq![s]
        } else {
            seq![strip_cr(s.subrange(0, k))] + lines_of(s.subrange(k + 1, s.len() as int))
        }
    }
}

pub proof fn lemma_first_newline_bound(s: Seq<char>)
    ensures
        first_newline(s) <= s.len(),
        first_newline(s) < s.len() ==> s[first_newline(s) as int] == '\n',
        forall|i: int| 0 <= i < first_newline(s) ==> s[i] != '\n',
    decreases s.len(),
{
    if s.len() > 0 && s[0] != '\n' {
        lemma_first_newline_bound(s.drop_first());
        assert forall|i: int| 0 <= i < first_newline(s) implies s[i] != '\n' by {
            if i > 0 {
                assert(s[i] == s.drop_first()[i - 1]);
            }
        }
    }
}

pub proof fn lemma_first_newline_is(s: Seq<char>, k: int)
    requires
        0 <= k <= s.len(),
        forall|i: int| 0 <= i < k ==> s[i] != '\n',
        k < s.len() ==> s[k] == '\n',
    ensures
        first_newline(s) == k,
    decreases k,
{
    if k > 0 {
        assert forall|i: int| 0 <= i < k - 1 implies s.drop_first()[i] != '\n' by {
            assert(s.drop_first()[i] == s[i + 1]);
        }
        lemma_first_newline_is(s.drop_first(), k - 1);
    }
}

/// No line produced by [`lines_of`] holds a newline.
pub proof fn lemma_lines_of_no_newline(s: Seq<char>)
    ensures
        forall|i: int, j: int|
            0 <= i < lines_of(s).len() && 0 <= j < lines_of(s)[i].len() ==> #[trigger] lines_of(
                s,
            )[i][j] != '\n',
    decreases s.len(),
{
    if s.len() > 0 {
        let k = first_newline(s) as int;
        lemma_first_newline_bound(s);
        if k < s.len() {
            let rest = s.subrange(k + 1, s.len() as int);
            lemma_lines_of_no_newline(rest);
            let head = strip_cr(s.subrange(0, k));
            assert forall|i: int, j: int|
                0 <= i < lines_of(s).len() && 0 <= j < lines_of(s)[i].len() implies #[trigger] lines_of(
                s,
            )[i][j] != '\n' by {
                if i == 0 {
                    assert(lines_of(s)[0] == head);
                    assert(head[j] == s[j]);
                } else {
                    assert(lines_of(s)[i] == lines_of(rest)[i - 1]);
                }
            }
        }
    }
}

/// Copies `s[start..end]` into a new vector.
pub fn copy_range(s: &Vec<char>, start: usize, end: usize) -> (r: Vec<char>)
    requires
        start <= end <= s@.len(),
    ensures
        r@ == s@.subrange(start as int, end as int),
{
    let mut r: Vec<char> = Vec::new();
    let mut i = start;
    while i < end
        invariant
            start <= i <= end <= s@.len(),
            r@ == s@.subrange(start as int, i as int),
        decreases end - i,
    {
        r.push(s[i]);
        i = i + 1;
        assert(r@ =~= s@.subrange(start as int, i as int));
    }
    r
}

/// The characters of `s`, split into lines with the semantics of [`lines_of`].
pub fn split_lines(s: &Vec<char>) -> (r: Vec<Vec<char>>)
    ensures
        r@.len() == lines_of(s@).len(),
        forall|i: int| 0 <= i < r@.len() ==> #[trigger] r@[i]@ == lines_of(s@)[i],
{
    let mut r: Vec<Vec<char>> = Vec::new();
    let mut p: usize = 0;
    let ghost done: Seq<Seq<char>> = Seq::empty();
    assert(s@.subrange(0, s@.len() as int) =~= s@);
    assert(done + lines_of(s@) =~= lines_of(s@));
    while p < s.len()
        invariant
            p <= s@.len(),
            done.len() == r@.len(),
            forall|i: int| 0 <= i < r@.len() ==> #[trigger] r@[i]@ == done[i],
            done + lines_of(s@.subrange(p as int, s@.len() as int)) == lines_of(s@),
        decreases s@.len() - p,
    {
        let ghost rest = s@.subrange(p as int, s@.len() as int);
        let mut k = p;
        while k < s.len() && s[k] != '\n'
            invariant
                p <= k <= s@.len(),
                forall|i: int| p <= i < k ==> s@[i] != '\n',
            decreases s@.len() - k,
        {
            k = k + 1;
        }
        proof {
            assert forall|i: int| 0 <= i < k - p implies rest[i] != '\n' by {
                assert(rest[i] == s@[p + i]);
            }
            lemma_first_newline_is(rest, (k - p) as int);
        }
        let mut piece = copy_range(s, p, k);
        if k < s.len() {
            if piece.len() > 0 && piece[piece.len() - 1] == '\r' {
                piece.pop();
            }
            proof {
                assert(rest.subrange(0, (k - p) as int) =~= s@.subrange(p as int, k as int));
                assert(rest.subrange((k - p + 1) as int, rest.len() as int)
                    =~= s@.subrange(k + 1, s@.len() as int));
                assert(lines_of(rest) == seq![strip_cr(rest.subrange(0, (k - p) as int))]
                    + lines_of(rest.subrange((k - p + 1) as int, rest.len() as int)));
            }
            let ghost old_done = done;
            r.push(piece);
            proof {
                done = done.push(strip_cr(s@.subrange(p as int, k as int)));
                assert(done + lines_of(s@.subrange(k + 1, s@.len() as int))
                    =~= old_done + lines_of(rest));
            }
            p = k + 1;
        } else {
            proof {
                assert(rest =~= s@.subrange(p as int, k as int));
                assert(lines_of(rest) == seq![rest]);
            }
            let ghost old_done = done;
            r.push(piece);
            proof {
                done = done.push(rest);
                assert(s@.subrange(k as int, s@.len() as int) =~= Seq::<char>::empty());
                assert(done + lines_of(s@.subrange(k as int, s@.len() as int)) =~= old_done
                    + lines_of(rest));
            }
            p = k;
        }
    }
    proof {
        assert(s@.subrange(p as int, s@.len() as int) =~= Seq::<char>::empty());
        assert(done =~= lines_of(s@));
    }
    r
}

} // verus!

verus! {

// ---------------------------------------------------------------------------
// Decimal rendering of numbers
// ---------------------------------------------------------------------------

/// The decimal digits of `n`, without leading zeros (`"0"` for zero).
pub open spec fn decimal_chars(n: nat) -> Seq<char>
    decreases n,
{
    if n < 10 {
        seq![digit_char(n)]
    } else {
        decimal_chars(n / 10).push(digit_char(n % 10))
    }
}

/// The ASCII digit for a value below ten.
pub open spec fn digit_char(d: nat) -> char {
    if d == 0 { '0' } else if d == 1 { '1' } else if d == 2 { '2' } else if d == 3 { '3' }
    else if d == 4 { '4' } else if d == 5 { '5' } else if d == 6 { '6' } else if d == 7 { '7' }
    else if d == 8 { '8' } else { '9' }
}

fn exec_digit_char(d: usize) -> (c: char)
    requires
        d < 10,
    ensures
        c == digit_char(d as nat),
{
    if d == 0 { '0' } else if d == 1 { '1' } else if d == 2 { '2' } else if d == 3 { '3' }
    else if d == 4 { '4' } else if d == 5 { '5' } else if d == 6 { '6' } else if d == 7 { '7' }
    else if d == 8 { '8' } else { '9' }
}

/// Renders `n` in decimal.
pub fn decimal_of(n: usize) -> (r: Vec<char>)
    ensures
        r@ == decimal_chars(n as nat),
    decreases n,
{
    if n < 10 {
        let mut r = Vec::new();
        r.push(exec_digit_char(n));
        r
    } else {
        let mut r = decimal_of(n / 10);
        r.push(exec_digit_char(n % 10));
        r
    }
}

/// Appends the characters of `s` to `v`.
pub fn push_str(v: &mut Vec<char>, s: &str)
    ensures
        final(v)@ == old(v)@ + s@,
{
    let chars = chars_of(s);
    let mut i: usize = 0;
    while i < chars.len()
        invariant
            i <= chars@.len(),
            chars@ == s@,
            v@ == old(v)@ + chars@.subrange(0, i as int),
        decreases chars@.len() - i,
    {
        v.push(chars[i]);
        i = i + 1;
        assert(v@ =~= old(v)@ + chars@.subrange(0, i as int));
    }
    assert(chars@.subrange(0, i as int) =~= chars@);
}

/// Appends all of `w` to `v`.
pub fn push_chars(v: &mut Vec<char>, w: &Vec<char>)
    ensures
        final(v)@ == old(v)@ + w@,
{
    let mut i: usize = 0;
    while i < w.len()
        invariant
            i <= w@.len(),
            v@ == old(v)@ + w@.subrange(0, i as int),
        decreases w@.len() - i,
    {
        v.push(w[i]);
        i = i + 1;
        assert(v@ =~= old(v)@ + w@.subrange(0, i as int));
    }
    assert(w@.subrange(0, i as int) =~= w@);
}

// ---------------------------------------------------------------------------
// The `regex` crate
// ---------------------------------------------------------------------------

#[verifier::external_type_specification]
#[verifier::external_body]
pub struct ExRegex(regex::Regex);

#[verifier::external_type_specification]
#[verifier::external_body]
pub struct ExRegexError(regex::Error);

/// Whether `regex::RegexBuilder`, with multi-line mode on, accepts `pattern`.
pub uninterp spec fn regex_valid(pattern: Seq<char>) -> bool;

/// Whether the multi-line regex `pattern` matches somewhere in `text`.
pub uninterp spec fn regex_is_match(pattern: Seq<char>, text: Seq<char>) -> bool;

/// `text` with the leftmost match of the multi-line regex `pattern`
/// replaced by the expansion of `replacement`.
pub uninterp spec fn regex_replace_first(pattern: Seq<char>, text: Seq<char>, replacement: Seq<char>) -> Seq<char>;

/// `text` with every non-overlapping match of the multi-line regex `pattern`
/// replaced by the expansion of `replacement`.
pub uninterp spec fn regex_replace_all(pattern: Seq<char>, text: Seq<char>, replacement: Seq<char>) -> Seq<char>;

/// A compiled multi-line regular expression together with its source text.
pub struct Pattern {
    source: String,
    regex: regex::Regex,
}

impl View for Pattern {
    type V = Seq<char>;

    closed spec fn view(&self) -> Seq<char> {
        self.source@
    }
}

/// Compiles `pattern` with `regex::RegexBuilder::new(pattern).multi_line(true).build()`.
///
/// Trusted: the builder succeeds exactly on the patterns named valid by
/// [`regex_valid`], and the compiled regex is kept together with its source.
#[verifier::external_body]
pub(crate) fn compile_pattern(pattern: &str) -> (r: Result<Pattern, regex::Error>)
    ensures
        r is Ok <==> regex_valid(pattern@),
        r matches Ok(p) ==> p@ == pattern@,
{
    match regex::RegexBuilder::new(pattern).multi_line(true).build() {
        Ok(regex) => Ok(Pattern { source: pattern.to_string(), regex }),
        Err(e) => Err(e),
    }
}

/// Calls `regex::Regex::is_match`.
///
/// Trusted: the answer is [`regex_is_match`] of the pattern and the text.
#[verifier::external_body]
pub(crate) fn pattern_is_match(p: &Pattern, text: &str) -> (b: bool)
    ensures
        b == regex_is_match(p@, text@),
{
    p.regex.is_match(text)
}

/// Calls `regex::Regex::replace` (leftmost match only).
///
/// Trusted: the result is [`regex_replace_first`]; as the crate documents,
/// a text without a match is handed back unchanged.
#[verifier::external_body]
pub(crate) fn pattern_replace_first(p: &Pattern, text: &str, replacement: &str) -> (r: String)
    ensures
        r@ == regex_replace_first(p@, text@, replacement@),
        !regex_is_match(p@, text@) ==> r@ == text@,
{
    p.regex.replace(text, replacement).to_string()
}

/// Calls `regex::Regex::replace_all`.
///
/// Trusted: the result is [`regex_replace_all`]; as the crate documents,
/// a text without a match is handed back unchanged.
#[verifier::external_body]
pub(crate) fn pattern_replace_all(p: &Pattern, text: &str, replacement: &str) -> (r: String)
    ensures
        r@ == regex_replace_all(p@, text@, replacement@),
        !regex_is_match(p@, text@) ==> r@ == text@,
{
    p.regex.replace_all(text, replacement).to_string()
}

} // verus!
