//! Text: what the server prints (numbers) and what it takes apart (lines, words, fields).
use vstd::prelude::*;
use vstd::arithmetic::div_mod::*;
use vstd::arithmetic::power::*;
use vstd::string::*;
use vstd::utf8::*;

verus! {

/// `String::push` appends one character to the end of the string.
pub assume_specification[ String::push ](s: &mut String, c: char)
    ensures
        final(s)@ == old(s)@.push(c),
;

// ---------------------------------------------------------------------------
// Numbers
// ---------------------------------------------------------------------------

/// The character of a digit, `0` to `9` and then `a` to `f`.
pub open spec fn digit_char(d: nat) -> char
    recommends
        d < 16,
{
    if d < 10 {
        (48 + d) as char
    } else {
        (87 + d) as char
    }
}

/// `n` in the given base, most significant digit first, without leading zeros.
pub open spec fn numeral(n: nat, base: nat) -> Seq<char>
    decreases n,
{
    if base < 2 || n < base {
        seq![digit_char(n)]
    } else {
        proof {
            assert(n / base < n) by (nonlinear_arith)
                requires
                    2 <= base <= n,
            ;
        }
        numeral(n / base, base).push(digit_char(n % base))
    }
}

/// `n` in decimal.
pub open spec fn decimal(n: nat) -> Seq<char> {
    numeral(n, 10)
}

/// `i` in decimal, with a minus sign in front of a negative number.
pub open spec fn signed_decimal(i: int) -> Seq<char> {
    if i < 0 {
        seq!['-'] + decimal((-i) as nat)
    } else {
        decimal(i as nat)
    }
}

fn digit(d: u8) -> (c: char)
    requires
        d < 16,
    ensures
        c == digit_char(d as nat),
{
    if d < 10 {
        (48 + d) as char
    } else {
        (87 + d) as char
    }
}

/// Appends `n` in the given base.
pub fn push_numeral(out: &mut String, n: u64, base: u64)
    requires
        2 <= base <= 16,
    ensures
        final(out)@ == old(out)@ + numeral(n as nat, base as nat),
    decreases n,
{
    if n < base {
        out.push(digit(n as u8));
    } else {
        assert(n / base < n) by (nonlinear_arith)
            requires
                2 <= base <= n,
        ;
        push_numeral(out, n / base, base);
        out.push(digit((n % base) as u8));
    }
}

/// Appends `n` in decimal.
pub fn push_decimal(out: &mut String, n: u64)
    ensures
        final(out)@ == old(out)@ + decimal(n as nat),
{
    push_numeral(out, n, 10);
}

/// Appends `i` in decimal.
pub fn push_signed(out: &mut String, i: i32)
    ensures
        final(out)@ == old(out)@ + signed_decimal(i as int),
{
    if i < 0 {
        out.push('-');
        push_decimal(out, (-(i as i64)) as u64);
    } else {
        push_decimal(out, i as u64);
    }
}


// ---------------------------------------------------------------------------
// Strings and their characters
// ---------------------------------------------------------------------------

/// Whether two strings hold the same text.
pub fn same_text(a: &str, b: &str) -> (same: bool)
    ensures
        same == (a@ == b@),
{
    broadcast use encode_utf8_decode_utf8;

    let x = a.as_bytes();
    let y = b.as_bytes();
    if x.len() != y.len() {
        return false;
    }
    let mut i: usize = 0;
    while i < x.len()
        invariant
            i <= x@.len(),
            x@.len() == y@.len(),
            x@ == encode_utf8(a@),
            y@ == encode_utf8(b@),
            forall|k: int| 0 <= k < i ==> x@[k] == y@[k],
        decreases x@.len() - i,
    {
        if x[i] != y[i] {
            return false;
        }
        i += 1;
    }
    proof {
        assert(x@ =~= y@);
        assert(decode_utf8(x@) == a@);
        assert(decode_utf8(y@) == b@);
    }
    true
}

/// The characters of a string.
pub fn chars_of(s: &str) -> (chars: Vec<char>)
    ensures
        chars@ == s@,
{
    let mut chars: Vec<char> = Vec::new();
    for c in it: s.chars()
        invariant
            it.seq() == s@,
            chars@ == s@.take(it.index()),
    {
        chars.push(c);
    }
    proof {
        assert(s@.take(s@.len() as int) =~= s@);
    }
    chars
}

/// The string made of the characters `chars[from..to]`.
pub fn string_of(chars: &Vec<char>, from: usize, to: usize) -> (s: String)
    requires
        from <= to <= chars@.len(),
    ensures
        s@ == chars@.subrange(from as int, to as int),
{
    let mut s: String = String::new();
    let mut i: usize = from;
    while i < to
        invariant
            from <= i <= to <= chars@.len(),
            s@ == chars@.subrange(from as int, i as int),
        decreases to - i,
    {
        s.push(chars[i]);
        i += 1;
        proof {
            assert(s@ =~= chars@.subrange(from as int, i as int));
        }
    }
    s
}

// ---------------------------------------------------------------------------
// Taking text apart
// ---------------------------------------------------------------------------

/// How many characters at the start of `s` satisfy `p` before the first that does not.
pub open spec fn span(s: Seq<char>, p: spec_fn(char) -> bool) -> nat
    decreases s.len(),
{
    if s.len() == 0 || !p(s[0]) {
        0
    } else {
        1 + span(s.drop_first(), p)
    }
}

/// `span` stays within the text, covers only characters that satisfy `p`, and stops at the
/// end or at a character that does not.
pub proof fn lemma_span(s: Seq<char>, p: spec_fn(char) -> bool)
    ensures
        span(s, p) <= s.len(),
        forall|i: int| 0 <= i < span(s, p) ==> p(#[trigger] s[i]),
        span(s, p) < s.len() ==> !p(s[span(s, p) as int]),
    decreases s.len(),
{
    if s.len() > 0 && p(s[0]) {
        let t = s.drop_first();
        lemma_span(t, p);
        assert forall|i: int| 0 <= i < span(s, p) implies p(#[trigger] s[i]) by {
            if i > 0 {
                assert(s[i] == t[i - 1]);
            }
        }
    }
}

/// A position that only characters satisfying `p` precede, and that is the end or holds one
/// that does not, is the span.
pub proof fn lemma_span_is(s: Seq<char>, p: spec_fn(char) -> bool, n: int)
    requires
        0 <= n <= s.len(),
        forall|i: int| 0 <= i < n ==> p(#[trigger] s[i]),
        n < s.len() ==> !p(s[n]),
    ensures
        span(s, p) == n,
    decreases s.len(),
{
    lemma_span(s, p);
    if span(s, p) < n {
        assert(p(s[span(s, p) as int]));
    }
    if n < span(s, p) {
        assert(p(s[n]));
    }
}

/// The characters of Unicode's property `White_Space`.
pub open spec fn is_white_space(c: char) -> bool {
    ||| '\t' <= c <= '\r'
    ||| c == ' '
    ||| c == '\u{85}'
    ||| c == '\u{a0}'
    ||| c == '\u{1680}'
    ||| '\u{2000}' <= c <= '\u{200a}'
    ||| c == '\u{2028}'
    ||| c == '\u{2029}'
    ||| c == '\u{202f}'
    ||| c == '\u{205f}'
    ||| c == '\u{3000}'
}

pub open spec fn white() -> spec_fn(char) -> bool {
    |c: char| is_white_space(c)
}

pub open spec fn not_white() -> spec_fn(char) -> bool {
    |c: char| !is_white_space(c)
}

/// Every character but `d`.
pub open spec fn other_than(d: char) -> spec_fn(char) -> bool {
    |c: char| c != d
}

/// A line without the carriage return at its end, if it has one.
pub open spec fn without_return(line: Seq<char>) -> Seq<char> {
    if line.len() > 0 && line.last() == '\r' {
        line.drop_last()
    } else {
        line
    }
}

/// The lines of `s`. A line ends with a line feed, before which one carriage return is
/// dropped. What follows the last line feed is a line if it is not empty, and is taken as
/// it is.
pub open spec fn lines(s: Seq<char>) -> Seq<Seq<char>>
    decreases s.len(),
{
    let end = span(s, other_than('\n')) as int;
    if s.len() == 0 {
        seq![]
    } else if end == s.len() {
        seq![s]
    } else {
        proof {
            lemma_span(s, other_than('\n'));
        }
        seq![without_return(s.take(end))] + lines(s.skip(end + 1))
    }
}

/// The words of `s`: its longest runs of characters that are not white space.
pub open spec fn words(s: Seq<char>) -> Seq<Seq<char>>
    decreases s.len(),
{
    let rest = s.skip(span(s, white()) as int);
    let end = span(rest, not_white()) as int;
    if rest.len() == 0 {
        seq![]
    } else {
        proof {
            lemma_span(s, white());
            lemma_span(rest, not_white());
        }
        seq![rest.take(end)] + words(rest.skip(end))
    }
}


/// `s` without the white space at its end.
pub open spec fn trim_end(s: Seq<char>) -> Seq<char>
    decreases s.len(),
{
    if s.len() > 0 && is_white_space(s.last()) {
        trim_end(s.drop_last())
    } else {
        s
    }
}

/// `s` without the white space at its two ends.
pub open spec fn trim(s: Seq<char>) -> Seq<char> {
    trim_end(s.skip(span(s, white()) as int))
}

/// The capital letters `A` to `Z` as small letters; every other character as it is.
pub open spec fn ascii_lower(c: char) -> char {
    if 'A' <= c <= 'Z' {
        ((c as u8) + 32) as char
    } else {
        c
    }
}

/// Equal but for the case of the letters `A` to `Z`.
pub open spec fn same_but_for_case(a: Seq<char>, b: Seq<char>) -> bool {
    &&& a.len() == b.len()
    &&& forall|i: int| 0 <= i < a.len() ==> ascii_lower(#[trigger] a[i]) == ascii_lower(b[i])
}

pub open spec fn is_digit(c: char) -> bool {
    '0' <= c <= '9'
}

pub open spec fn all_digits(s: Seq<char>) -> bool {
    forall|i: int| 0 <= i < s.len() ==> is_digit(#[trigger] s[i])
}

pub open spec fn without_plus(s: Seq<char>) -> Seq<char> {
    if s.len() > 0 && s[0] == '+' {
        s.drop_first()
    } else {
        s
    }
}

/// The number that decimal digits stand for.
pub open spec fn digits_value(s: Seq<char>) -> nat
    decreases s.len(),
{
    if s.len() == 0 {
        0
    } else {
        10 * digits_value(s.drop_last()) + ((s.last() as u32) - 48) as nat
    }
}

/// A number in decimal, with or without a plus sign, that fits in a `usize`.
pub open spec fn parse_usize(s: Seq<char>) -> Option<usize> {
    let digits = without_plus(s);
    if digits.len() == 0 || !all_digits(digits) || digits_value(digits) > usize::MAX {
        None
    } else {
        Some(digits_value(digits) as usize)
    }
}

/// Whether a character is white space.
pub fn is_white(c: char) -> (r: bool)
    ensures
        r == is_white_space(c),
{
    ('\t' <= c && c <= '\r') || c == ' ' || c == '\u{85}' || c == '\u{a0}' || c == '\u{1680}' || (
    '\u{2000}' <= c && c <= '\u{200a}') || c == '\u{2028}' || c == '\u{2029}' || c == '\u{202f}'
        || c == '\u{205f}' || c == '\u{3000}'
}

/// The end of the run of white space that starts at `from`.
pub fn skip_white(s: &Vec<char>, from: usize, to: usize) -> (end: usize)
    requires
        from <= to <= s@.len(),
    ensures
        from <= end <= to,
        end - from == span(s@.subrange(from as int, to as int), white()),
{
    let mut i: usize = from;
    let ghost t = s@.subrange(from as int, to as int);
    while i < to && is_white(s[i])
        invariant
            from <= i <= to <= s@.len(),
            t == s@.subrange(from as int, to as int),
            forall|k: int| 0 <= k < i - from ==> is_white_space(#[trigger] t[k]),
        decreases to - i,
    {
        proof {
            assert(t[i - from] == s@[i as int]);
        }
        i += 1;
    }
    proof {
        if i < to {
            assert(t[i - from] == s@[i as int]);
        }
        lemma_span_is(t, white(), i - from);
    }
    i
}

/// The end of the word that starts at `from`.
pub fn skip_word(s: &Vec<char>, from: usize, to: usize) -> (end: usize)
    requires
        from <= to <= s@.len(),
    ensures
        from <= end <= to,
        end - from == span(s@.subrange(from as int, to as int), not_white()),
{
    let mut i: usize = from;
    let ghost t = s@.subrange(from as int, to as int);
    while i < to && !is_white(s[i])
        invariant
            from <= i <= to <= s@.len(),
            t == s@.subrange(from as int, to as int),
            forall|k: int| 0 <= k < i - from ==> !is_white_space(#[trigger] t[k]),
        decreases to - i,
    {
        proof {
            assert(t[i - from] == s@[i as int]);
        }
        i += 1;
    }
    proof {
        if i < to {
            assert(t[i - from] == s@[i as int]);
        }
        lemma_span_is(t, not_white(), i - from);
    }
    i
}

/// The first position of `d` in `s[from..to]`, or `to`.
pub fn find_char(s: &Vec<char>, from: usize, to: usize, d: char) -> (at: usize)
    requires
        from <= to <= s@.len(),
    ensures
        from <= at <= to,
        at - from == span(s@.subrange(from as int, to as int), other_than(d)),
        at < to ==> s@[at as int] == d,
{
    let mut i: usize = from;
    let ghost t = s@.subrange(from as int, to as int);
    while i < to && s[i] != d
        invariant
            from <= i <= to <= s@.len(),
            t == s@.subrange(from as int, to as int),
            forall|k: int| 0 <= k < i - from ==> (#[trigger] t[k]) != d,
        decreases to - i,
    {
        proof {
            assert(t[i - from] == s@[i as int]);
        }
        i += 1;
    }
    proof {
        if i < to {
            assert(t[i - from] == s@[i as int]);
        }
        lemma_span_is(t, other_than(d), i - from);
    }
    i
}

/// The line of `s` that starts at `from`: where it ends and where the next one starts.
pub fn next_line(s: &Vec<char>, from: usize) -> (r: (usize, usize))
    requires
        from < s@.len(),
    ensures
        from <= r.0 <= r.1 <= s@.len(),
        from < r.1,
        lines(s@.skip(from as int)) == seq![s@.subrange(from as int, r.0 as int)] + lines(
            s@.skip(r.1 as int),
        ),
{
    let n: usize = s.len();
    let at: usize = find_char(s, from, n, '\n');
    let ghost t = s@.skip(from as int);
    proof {
        assert(t =~= s@.subrange(from as int, n as int));
    }
    if at == n {
        proof {
            assert(s@.skip(n as int) =~= seq![]);
            assert(lines(t) =~= seq![t] + lines(s@.skip(n as int)));
        }
        (n, n)
    } else {
        let ghost line = t.take(at - from);
        proof {
            assert(line =~= s@.subrange(from as int, at as int));
            assert(t.skip(at - from + 1) =~= s@.skip(at + 1));
        }
        if at > from && s[at - 1] == '\r' {
            proof {
                assert(line.last() == s@[at - 1]);
                assert(line.drop_last() =~= s@.subrange(from as int, at - 1));
            }
            (at - 1, at + 1)
        } else {
            proof {
                if line.len() > 0 {
                    assert(line.last() == s@[at - 1]);
                }
            }
            (at, at + 1)
        }
    }
}

/// The first word of `s[from..to]`: where it starts and where it ends.
pub fn next_word(s: &Vec<char>, from: usize, to: usize) -> (r: Option<(usize, usize)>)
    requires
        from <= to <= s@.len(),
    ensures
        match r {
            None => words(s@.subrange(from as int, to as int)).len() == 0,
            Some((a, b)) => from <= a < b <= to && words(s@.subrange(from as int, to as int))
                == seq![s@.subrange(a as int, b as int)] + words(
                s@.subrange(b as int, to as int),
            ),
        },
{
    let a: usize = skip_white(s, from, to);
    let ghost t = s@.subrange(from as int, to as int);
    let ghost rest = t.skip(a - from);
    proof {
        assert(rest =~= s@.subrange(a as int, to as int));
    }
    if a == to {
        return None;
    }
    let b: usize = skip_word(s, a, to);
    proof {
        lemma_span(t, white());
        lemma_span(rest, not_white());
        assert(t[a - from] == rest[0]);
        assert(rest.take(b - a) =~= s@.subrange(a as int, b as int));
        assert(rest.skip(b - a) =~= s@.subrange(b as int, to as int));
    }
    Some((a, b))
}

/// Where `s[from..to]` ends once the white space at its end is left out.
pub fn trimmed_end(s: &Vec<char>, from: usize, to: usize) -> (end: usize)
    requires
        from <= to <= s@.len(),
    ensures
        from <= end <= to,
        s@.subrange(from as int, end as int) == trim_end(s@.subrange(from as int, to as int)),
{
    let mut i: usize = to;
    while i > from && is_white(s[i - 1])
        invariant
            from <= i <= to <= s@.len(),
            trim_end(s@.subrange(from as int, i as int)) == trim_end(
                s@.subrange(from as int, to as int),
            ),
        decreases i,
    {
        proof {
            let t = s@.subrange(from as int, i as int);
            assert(t.last() == s@[i - 1]);
            assert(t.drop_last() =~= s@.subrange(from as int, i - 1));
        }
        i -= 1;
    }
    proof {
        let t = s@.subrange(from as int, i as int);
        if i > from {
            assert(t.last() == s@[i - 1]);
        }
    }
    i
}

fn lower(c: char) -> (l: char)
    ensures
        l == ascii_lower(c),
{
    if 'A' <= c && c <= 'Z' {
        (c as u8 + 32) as char
    } else {
        c
    }
}

/// Whether `s[from..to]` is `name` but for the case of its letters.
pub fn is_named(s: &Vec<char>, from: usize, to: usize, name: &str) -> (r: bool)
    requires
        from <= to <= s@.len(),
    ensures
        r == same_but_for_case(s@.subrange(from as int, to as int), name@),
{
    let chars = chars_of(name);
    let ghost t = s@.subrange(from as int, to as int);
    if chars.len() != to - from {
        return false;
    }
    let mut i: usize = 0;
    while i < chars.len()
        invariant
            i <= chars@.len(),
            from <= to <= s@.len(),
            chars@.len() == to - from,
            chars@ == name@,
            t == s@.subrange(from as int, to as int),
            forall|k: int| 0 <= k < i ==> ascii_lower(#[trigger] t[k]) == ascii_lower(name@[k]),
        decreases chars@.len() - i,
    {
        proof {
            assert(t[i as int] == s@[from + i]);
        }
        if lower(s[from + i]) != lower(chars[i]) {
            return false;
        }
        i += 1;
    }
    true
}

/// Reads `s[from..to]` as a number.
pub fn read_usize(s: &Vec<char>, from: usize, to: usize) -> (n: Option<usize>)
    requires
        from <= to <= s@.len(),
    ensures
        n == parse_usize(s@.subrange(from as int, to as int)),
{
    let ghost t = s@.subrange(from as int, to as int);
    let mut i: usize = from;
    if from < to && s[from] == '+' {
        i = from + 1;
    }
    let ghost digits = without_plus(t);
    let start: usize = i;
    proof {
        assert(digits =~= s@.subrange(start as int, to as int));
    }
    if i == to {
        return None;
    }
    let mut n: usize = 0;
    while i < to
        invariant
            from <= start <= i <= to <= s@.len(),
            digits == s@.subrange(start as int, to as int),
            t == s@.subrange(from as int, to as int),
            digits == without_plus(t),
            forall|k: int| 0 <= k < i - start ==> is_digit(#[trigger] digits[k]),
            n == digits_value(digits.take(i - start)),
        decreases to - i,
    {
        let c = s[i];
        proof {
            assert(digits[i - start] == c);
            assert(digits.take(i - start + 1).drop_last() =~= digits.take(i - start));
        }
        if c < '0' || '9' < c {
            assert(!is_digit(digits[i - start]));
            return None;
        }
        let d: usize = (c as u32 - 48) as usize;
        if n > usize::MAX / 10 || n * 10 > usize::MAX - d {
            proof {
                lemma_digits_value_grows(digits, i - start + 1);
            }
            return None;
        }
        n = n * 10 + d;
        i += 1;
    }
    proof {
        assert(digits.take(to - start) =~= digits);
    }
    Some(n)
}

/// A line that ends with CR LF is the first line; what follows gives the others.
pub proof fn lemma_lines_first(line: Seq<char>, rest: Seq<char>)
    requires
        !line.contains('\n'),
    ensures
        lines(line + seq!['\r', '\n'] + rest) == seq![line] + lines(rest),
{
    let s = line + seq!['\r', '\n'] + rest;
    let end: int = line.len() as int + 1;
    assert forall|i: int| 0 <= i < end implies other_than('\n')(#[trigger] s[i]) by {
        if i < line.len() {
            assert(s[i] == line[i]);
            assert(line.contains(line[i]));
        }
    }
    lemma_span_is(s, other_than('\n'), end);
    assert(s.take(end) =~= line.push('\r'));
    assert(line.push('\r').drop_last() =~= line);
    assert(s.skip(end + 1) =~= rest);
}

/// Text without a line feed is one line.
pub proof fn lemma_lines_last(line: Seq<char>)
    requires
        !line.contains('\n'),
        line.len() > 0,
    ensures
        lines(line) == seq![line],
{
    assert forall|i: int| 0 <= i < line.len() implies other_than('\n')(#[trigger] line[i]) by {
        assert(line.contains(line[i]));
    }
    lemma_span_is(line, other_than('\n'), line.len() as int);
}

/// A run of characters that are not white space is the first word where white space, or
/// the end, follows it.
pub proof fn lemma_words_first(word: Seq<char>, rest: Seq<char>)
    requires
        word.len() > 0,
        forall|i: int| 0 <= i < word.len() ==> !is_white_space(#[trigger] word[i]),
        rest.len() > 0 ==> is_white_space(rest[0]),
    ensures
        words(word + rest) == seq![word] + words(rest),
{
    let s = word + rest;
    assert(s[0] == word[0]);
    lemma_span_is(s, white(), 0);
    assert(s.skip(0) =~= s);
    assert forall|i: int| 0 <= i < word.len() implies not_white()(#[trigger] s[i]) by {
        assert(s[i] == word[i]);
    }
    lemma_span_is(s, not_white(), word.len() as int);
    assert(s.take(word.len() as int) =~= word);
    assert(s.skip(word.len() as int) =~= rest);
}

/// White space in front does not count.
pub proof fn lemma_words_skip(c: char, rest: Seq<char>)
    requires
        is_white_space(c),
    ensures
        words(seq![c] + rest) == words(rest),
{
    let s = seq![c] + rest;
    assert(s.drop_first() =~= rest);
    assert(span(s, white()) == 1 + span(rest, white()));
    lemma_span(rest, white());
    assert(s.skip(span(s, white()) as int) =~= rest.skip(span(rest, white()) as int));
}

/// Text that neither starts nor ends with white space stays as it is, also with one space
/// in front of it.
pub proof fn lemma_trim(s: Seq<char>)
    requires
        s.len() > 0,
        !is_white_space(s[0]),
        !is_white_space(s.last()),
    ensures
        trim(seq![' '] + s) == s,
{
    let t = seq![' '] + s;
    assert forall|i: int| 0 <= i < 1 implies white()(#[trigger] t[i]) by {}
    assert(t[1] == s[0]);
    lemma_span_is(t, white(), 1);
    assert(t.skip(1) =~= s);
}

/// More digits never make a smaller number.
proof fn lemma_digits_value_grows(s: Seq<char>, n: int)
    requires
        0 <= n <= s.len(),
    ensures
        digits_value(s.take(n)) <= digits_value(s),
    decreases s.len() - n,
{
    if n == s.len() {
        assert(s.take(n) =~= s);
    } else {
        lemma_digits_value_grows(s, n + 1);
        assert(s.take(n + 1).drop_last() =~= s.take(n));
    }
}

/// Reading a number that was written in decimal gives the number.
pub proof fn decimal_reads_back(n: usize)
    ensures
        parse_usize(decimal(n as nat)) == Some(n),
{
    lemma_decimal(n as nat);
    let d = decimal(n as nat);
    assert(is_digit(d[0]));
}

/// A number in decimal has at least one digit, has only digits, and stands for itself.
pub proof fn lemma_decimal(n: nat)
    ensures
        decimal(n).len() > 0,
        all_digits(decimal(n)),
        digits_value(decimal(n)) == n,
    decreases n,
{
    assert(digit_char(n % 10) as u32 == 48 + n % 10);
    if n < 10 {
        assert(decimal(n).drop_last() =~= seq![]);
        assert(digits_value(decimal(n).drop_last()) == 0);
    } else {
        lemma_decimal(n / 10);
        assert(decimal(n).drop_last() =~= decimal(n / 10));
    }
}

/// A number below 10 to the power of `k` has at most `k` digits.
pub proof fn lemma_decimal_short(n: nat, k: nat)
    requires
        k > 0,
        n < pow(10, k),
    ensures
        decimal(n).len() <= k,
    decreases k,
{
    reveal(pow);
    if n >= 10 {
        let j = (k - 1) as nat;
        assert(pow(10, k) == 10 * pow(10, j));
        assert(pow(10, 0) == 1);
        assert(j > 0) by {
            if j == 0 {
                assert(pow(10, k) == 10);
            }
        }
        lemma_decimal_short(n / 10, j);
    }
}

/// A number that something other than a digit follows is the only one that starts a text.
pub proof fn lemma_same_number(a: nat, after_a: Seq<char>, b: nat, after_b: Seq<char>)
    requires
        decimal(a) + after_a == decimal(b) + after_b,
        after_a.len() > 0 && !is_digit(after_a[0]),
        after_b.len() > 0 && !is_digit(after_b[0]),
    ensures
        a == b,
{
    let (x, y) = (decimal(a), decimal(b));
    let s = x + after_a;
    let t = y + after_b;
    lemma_decimal(a);
    lemma_decimal(b);
    if x.len() < y.len() {
        assert(s[x.len() as int] == after_a[0]);
        assert(t[x.len() as int] == y[x.len() as int]);
        assert(is_digit(y[x.len() as int]));
    }
    if y.len() < x.len() {
        assert(t[y.len() as int] == after_b[0]);
        assert(s[y.len() as int] == x[y.len() as int]);
        assert(is_digit(x[y.len() as int]));
    }
    assert(x =~= s.take(x.len() as int));
    assert(y =~= t.take(y.len() as int));
}

// ---------------------------------------------------------------------------
// Laws
// ---------------------------------------------------------------------------

/// Each character of a number stands for its digit: with the last place counted as 0, place
/// `k` holds the digit of `base` to the power of `k`, `0` to `9` and then `a` to `f`.
pub proof fn numeral_has_its_digits(n: nat, base: nat, i: int)
    requires
        2 <= base <= 16,
        0 <= i < numeral(n, base).len(),
    ensures
        ({
            let place = (numeral(n, base).len() - 1 - i) as nat;
            let d = (n as int / pow(base as int, place)) % base as int;
            numeral(n, base)[i] as u32 == (if d < 10 {
                48 + d
            } else {
                87 + d
            })
        }),
    decreases n,
{
    reveal(pow);
    let b = base as int;
    let len = numeral(n, base).len();
    assert(pow(b, 0) == 1);
    if n < base {
        assert(n as int / 1 == n);
        lemma_small_mod(n, base);
    } else {
        assert(n / base < n) by (nonlinear_arith)
            requires
                2 <= base <= n,
        ;
        let m = n / base;
        if i == len - 1 {
            assert(n as int / 1 == n);
            lemma_mod_bound(n as int, b);
        } else {
            numeral_has_its_digits(m, base, i);
            let k = (len - 2 - i) as nat;
            assert(pow(b, k + 1) == b * pow(b, k));
            lemma_pow_positive(b, k);
            lemma_div_denominator(n as int, b, pow(b, k));
            lemma_mod_bound(m as int / pow(b, k), b);
        }
    }
}

/// A number has as many characters as it needs: 0 has one, and no other number starts with a
/// zero.
pub proof fn numeral_is_short(n: nat, base: nat)
    requires
        2 <= base <= 16,
    ensures
        numeral(n, base).len() >= 1,
        n < pow(base as int, numeral(n, base).len()),
        numeral(n, base).len() > 1 ==> n >= pow(
            base as int,
            (numeral(n, base).len() - 1) as nat,
        ),
    decreases n,
{
    reveal(pow);
    let b = base as int;
    let len = numeral(n, base).len();
    assert(pow(b, 0) == 1);
    if n >= base {
        assert(n / base < n) by (nonlinear_arith)
            requires
                2 <= base <= n,
        ;
        let m = (n / base) as int;
        numeral_is_short(m as nat, base);
        let k = (len - 1) as nat;
        let (hi, lo) = (pow(b, k), pow(b, (k - 1) as nat));
        assert(pow(b, len) == b * hi);
        assert(hi == b * lo);
        assert(n < b * hi) by (nonlinear_arith)
            requires
                m == n as int / b,
                b >= 2,
                m < hi,
        ;
        if k > 1 {
            assert(n >= b * lo) by (nonlinear_arith)
                requires
                    m == n as int / b,
                    b >= 2,
                    m >= lo,
            ;
        } else {
            assert(lo == 1);
        }
    } else {
        assert(pow(b, 1) == b * pow(b, 0));
    }
}

/// A negative number is a minus sign and its opposite; any other number has no sign.
pub proof fn signs_are_written(i: int)
    ensures
        i >= 0 ==> signed_decimal(i) == numeral(i as nat, 10),
        i < 0 ==> signed_decimal(i)[0] == '-' && signed_decimal(i).skip(1) == numeral(
            (0 - i) as nat,
            10,
        ),
{
    if i < 0 {
        assert(signed_decimal(i).skip(1) =~= numeral((0 - i) as nat, 10));
    }
}

/// Digits put side by side: each one more digit at the end makes ten of what is before it.
pub proof fn digits_add_up(a: Seq<char>, b: Seq<char>, c: char)
    requires
        '0' <= c <= '9',
    ensures
        digits_value(a + b) == digits_value(a) * pow(10, b.len()) + digits_value(b),
        digits_value(seq![c]) == c as u32 - 48,
    decreases b.len(),
{
    reveal(pow);
    assert(seq![c].drop_last() =~= seq![]);
    assert(digits_value(seq![c].drop_last()) == 0);
    assert(pow(10, 0) == 1);
    if b.len() == 0 {
        assert(a + b =~= a);
    } else {
        let b1 = b.drop_last();
        digits_add_up(a, b1, c);
        assert((a + b).drop_last() =~= a + b1);
        assert(pow(10, b.len()) == 10 * pow(10, b1.len()));
        let (x, p, y) = (digits_value(a) as int, pow(10, b1.len()), digits_value(b1) as int);
        assert(10 * (x * p + y) == x * (10 * p) + 10 * y) by (nonlinear_arith);
    }
}

/// A number is read exactly where there are digits and nothing else, but for one plus sign in
/// front, and what they stand for fits; then it is what they stand for.
pub proof fn numbers_are_read(s: Seq<char>, digits: Seq<char>)
    requires
        s == digits || s == seq!['+'] + digits,
        digits.len() > 0,
        digits[0] != '+',
    ensures
        parse_usize(s) is Some <==> digits_value(digits) <= usize::MAX && forall|i: int|
            0 <= i < digits.len() ==> '0' <= #[trigger] digits[i] <= '9',
        parse_usize(s) matches Some(n) ==> n == digits_value(digits),
{
    if s == seq!['+'] + digits {
        assert(s[0] == '+');
        assert(s.drop_first() =~= digits);
    }
    assert forall|i: int| 0 <= i < digits.len() implies (is_digit(#[trigger] digits[i]) <==> '0'
        <= digits[i] <= '9') by {}
}

/// Nothing, a lone plus sign and a second plus sign are no numbers.
pub proof fn signs_are_no_numbers(rest: Seq<char>)
    ensures
        parse_usize(seq![]) is None,
        parse_usize(seq!['+']) is None,
        parse_usize(seq!['+', '+'] + rest) is None,
{
    assert(seq!['+'].drop_first() =~= seq![]);
    let s = seq!['+', '+'] + rest;
    assert(!is_digit(s.drop_first()[0]));
}

/// White space by its number in Unicode.
pub proof fn white_space_by_number(c: char)
    ensures
        is_white_space(c) <==> {
            let n = c as u32;
            ||| 9 <= n <= 13
            ||| n == 0x20
            ||| n == 0x85
            ||| n == 0xa0
            ||| n == 0x1680
            ||| 0x2000 <= n <= 0x200a
            ||| n == 0x2028
            ||| n == 0x2029
            ||| n == 0x202f
            ||| n == 0x205f
            ||| n == 0x3000
        },
{
}

/// Words are runs of characters that are not white space, between white space: the first word
/// follows the white space in front of it and ends where white space or the text ends, and
/// what follows it holds the others. Text that is all white space has none.
pub proof fn words_are_runs(s: Seq<char>)
    ensures
        words(s).len() == 0 <==> forall|i: int|
            0 <= i < s.len() ==> is_white_space(#[trigger] s[i]),
        words(s).len() > 0 ==> exists|from: int, to: int|
            {
                &&& 0 <= from < to <= s.len()
                &&& words(s)[0] == #[trigger] s.subrange(from, to)
                &&& words(s).drop_first() == words(s.skip(to))
                &&& forall|i: int| 0 <= i < from ==> is_white_space(#[trigger] s[i])
                &&& forall|i: int| from <= i < to ==> !is_white_space(#[trigger] s[i])
                &&& to < s.len() ==> is_white_space(s[to])
            },
{
    let from = span(s, white()) as int;
    lemma_span(s, white());
    let rest = s.skip(from);
    lemma_span(rest, not_white());
    let end = span(rest, not_white()) as int;
    if rest.len() == 0 {
        assert forall|i: int| 0 <= i < s.len() implies is_white_space(#[trigger] s[i]) by {
            assert(white()(s[i]));
        }
    } else {
        assert(!white()(s[from]));
        assert(rest[0] == s[from]);
        assert(not_white()(rest[0]));
        let to = from + end;
        assert(rest.take(end) =~= s.subrange(from, to));
        assert(rest.skip(end) =~= s.skip(to));
        assert(words(s).drop_first() =~= words(s.skip(to)));
        assert forall|i: int| 0 <= i < from implies is_white_space(#[trigger] s[i]) by {
            assert(white()(s[i]));
        }
        assert forall|i: int| from <= i < to implies !is_white_space(#[trigger] s[i]) by {
            assert(not_white()(rest[i - from]));
        }
        if to < s.len() {
            assert(!not_white()(rest[end]));
        }
        assert(words(s)[0] == s.subrange(from, to));
    }
}

/// A line that ends with a line feed alone is taken as it is, if it does not end with a
/// carriage return; no text has no lines.
pub proof fn lines_end_with_a_line_feed(line: Seq<char>, rest: Seq<char>)
    requires
        !line.contains('\n'),
        line.len() > 0 ==> line.last() != '\r',
    ensures
        lines(line + seq!['\n'] + rest) == seq![line] + lines(rest),
        lines(seq![]) == Seq::<Seq<char>>::empty(),
{
    let s = line + seq!['\n'] + rest;
    let end = line.len() as int;
    assert forall|i: int| 0 <= i < end implies other_than('\n')(#[trigger] s[i]) by {
        assert(s[i] == line[i]);
        assert(line.contains(line[i]));
    }
    lemma_span_is(s, other_than('\n'), end);
    assert(s.take(end) =~= line);
    assert(s.skip(end + 1) =~= rest);
}

/// All white space at the two ends is left out, and nothing else.
pub proof fn trimming_keeps_the_middle(left: Seq<char>, s: Seq<char>, right: Seq<char>)
    requires
        forall|i: int| 0 <= i < left.len() ==> is_white_space(#[trigger] left[i]),
        forall|i: int| 0 <= i < right.len() ==> is_white_space(#[trigger] right[i]),
        s.len() > 0 ==> !is_white_space(s[0]) && !is_white_space(s.last()),
    ensures
        trim(left + s + right) == s,
{
    let t = left + s + right;
    if s.len() == 0 {
        assert forall|i: int| 0 <= i < t.len() implies white()(#[trigger] t[i]) by {
            if i < left.len() {
                assert(t[i] == left[i]);
            } else {
                assert(t[i] == right[i - left.len()]);
            }
        }
        lemma_span_is(t, white(), t.len() as int);
        assert(t.skip(t.len() as int) =~= s);
    } else {
        assert forall|i: int| 0 <= i < left.len() implies white()(#[trigger] t[i]) by {
            assert(t[i] == left[i]);
        }
        assert(t[left.len() as int] == s[0]);
        lemma_span_is(t, white(), left.len() as int);
        assert(t.skip(left.len() as int) =~= s + right);
        lemma_trim_end(s, right);
    }
}

proof fn lemma_trim_end(s: Seq<char>, right: Seq<char>)
    requires
        s.len() > 0,
        !is_white_space(s.last()),
        forall|i: int| 0 <= i < right.len() ==> is_white_space(#[trigger] right[i]),
    ensures
        trim_end(s + right) == s,
    decreases right.len(),
{
    if right.len() == 0 {
        assert(s + right =~= s);
    } else {
        let less = right.drop_last();
        assert forall|i: int| 0 <= i < less.len() implies is_white_space(#[trigger] less[i]) by {
            assert(less[i] == right[i]);
        }
        assert((s + right).last() == right[right.len() - 1]);
        assert((s + right).drop_last() =~= s + less);
        lemma_trim_end(s, less);
    }
}

/// Two texts are the same but for case exactly where they are as long and differ in nothing
/// but a capital letter, `A` to `Z`, on one side and its small letter on the other.
pub proof fn case_is_all_that_may_differ(a: Seq<char>, b: Seq<char>)
    ensures
        same_but_for_case(a, b) <==> a.len() == b.len() && forall|i: int|
            #![trigger a[i]]
            0 <= i < a.len() ==> {
                ||| a[i] == b[i]
                ||| 'A' <= a[i] <= 'Z' && b[i] as u32 == a[i] as u32 + 32
                ||| 'A' <= b[i] <= 'Z' && a[i] as u32 == b[i] as u32 + 32
            },
{
    assert forall|c: char, d: char|
        #![trigger ascii_lower(c), ascii_lower(d)]
        ascii_lower(c) == ascii_lower(d) <==> {
            ||| c == d
            ||| 'A' <= c <= 'Z' && d as u32 == c as u32 + 32
            ||| 'A' <= d <= 'Z' && c as u32 == d as u32 + 32
        } by {
        if 'A' <= c <= 'Z' {
            assert(ascii_lower(c) as u32 == c as u32 + 32);
        }
        if 'A' <= d <= 'Z' {
            assert(ascii_lower(d) as u32 == d as u32 + 32);
        }
    }
    if same_but_for_case(a, b) {
        assert forall|i: int| #![trigger a[i]] 0 <= i < a.len() implies {
            ||| a[i] == b[i]
            ||| 'A' <= a[i] <= 'Z' && b[i] as u32 == a[i] as u32 + 32
            ||| 'A' <= b[i] <= 'Z' && a[i] as u32 == b[i] as u32 + 32
        } by {
            assert(ascii_lower(a[i]) == ascii_lower(b[i]));
        }
    }
}

// ---------------------------------------------------------------------------
// Text as bytes
// ---------------------------------------------------------------------------

/// Text after text is encoded as bytes after bytes.
pub proof fn lemma_encode_concat(a: Seq<char>, b: Seq<char>)
    ensures
        encode_utf8(a + b) == encode_utf8(a) + encode_utf8(b),
    decreases a.len(),
{
    if a.len() == 0 {
        assert(a + b =~= b);
        assert(encode_utf8(a) + encode_utf8(b) =~= encode_utf8(b));
    } else {
        assert((a + b).drop_first() =~= a.drop_first() + b);
        lemma_encode_concat(a.drop_first(), b);
        assert(encode_utf8(a + b) =~= encode_utf8(a) + encode_utf8(b));
    }
}

/// Where an ASCII character does not occur in a text, its byte does not occur in the bytes.
pub proof fn lemma_encode_without(s: Seq<char>, c: char)
    requires
        (c as u32) < 0x80,
        !s.contains(c),
    ensures
        !encode_utf8(s).contains(c as u8),
        s.len() > 0 ==> encode_utf8(s).len() > 0,
    decreases s.len(),
{
    if s.len() > 0 {
        let first: char = s[0];
        let x = first as u32;
        let y = c as u32;
        char_is_scalar(first);
        assert(s.contains(first));
        assert(x != y) by {
            char_u32_cast(first, x);
            char_u32_cast(c, y);
        }
        assert(x < 0x80 ==> (x & 0x7f) as u8 != y as u8) by (bit_vector)
            requires
                x != y,
                y < 0x80,
        ;
        assert({
            &&& 0xC0u8 | ((x >> 6) & 0x1F) as u8 >= 0x80
            &&& 0xE0u8 | ((x >> 12) & 0x0F) as u8 >= 0x80
            &&& 0xF0u8 | ((x >> 18) & 0x7) as u8 >= 0x80
            &&& 0x80u8 | (x & 0x3F) as u8 >= 0x80
            &&& 0x80u8 | ((x >> 6) & 0x3F) as u8 >= 0x80
            &&& 0x80u8 | ((x >> 12) & 0x3F) as u8 >= 0x80
        }) by (bit_vector);
        let head = encode_scalar(x);
        assert(!head.contains(c as u8));
        let rest = s.drop_first();
        assert forall|i: int| 0 <= i < rest.len() implies rest[i] != c by {
            assert(s.contains(s[i + 1]));
        }
        lemma_encode_without(rest, c);
        assert forall|i: int| 0 <= i < encode_utf8(s).len() implies encode_utf8(s)[i]
            != c as u8 by {
            if i < head.len() {
                assert(head.contains(head[i]));
            } else {
                assert(encode_utf8(rest).contains(encode_utf8(rest)[i - head.len()]));
            }
        }
    }
}

/// What writing numbers and comparing texts do.
pub proof fn numbers_are_appended(a: &str, b: &str, same: bool)
    requires
        call_ensures(same_text, (a, b), same),
    ensures
        same <==> a@ == b@,
        forall|out: &mut String, n: u64, base: u64| #[trigger]
            call_ensures(push_numeral, (out, n, base), ()) ==> final(out)@ == out@ + numeral(
                n as nat,
                base as nat,
            ),
        forall|out: &mut String, n: u64| #[trigger]
            call_ensures(push_decimal, (out, n), ()) ==> final(out)@ == out@ + numeral(
                n as nat,
                10,
            ),
        forall|out: &mut String, i: i32| #[trigger]
            call_ensures(push_signed, (out, i), ()) ==> final(out)@ == out@ + (if i < 0 {
                seq!['-'] + numeral((0 - i) as nat, 10)
            } else {
                numeral(i as nat, 10)
            }),
{
}

} // verus!
