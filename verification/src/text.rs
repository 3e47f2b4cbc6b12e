//! Characters, strings and decimal numbers.
//!
//! Everything here works on the characters of a text: the classes of
//! characters that the configuration language tells apart, the decimal
//! notation of integers in both directions, and a few helpers that build
//! strings one character at a time.

use vstd::prelude::*;

verus! {

/// A decimal digit.
pub open spec fn is_digit(c: char) -> bool {
    '0' <= c && c <= '9'
}

/// The number that a decimal digit stands for.
pub open spec fn digit_value(c: char) -> nat
    recommends
        is_digit(c),
{
    (c as int - '0' as int) as nat
}

/// The decimal digit that stands for a number below ten.
pub open spec fn digit_char(d: nat) -> char
    recommends
        d < 10,
{
    if d == 0 {
        '0'
    } else if d == 1 {
        '1'
    } else if d == 2 {
        '2'
    } else if d == 3 {
        '3'
    } else if d == 4 {
        '4'
    } else if d == 5 {
        '5'
    } else if d == 6 {
        '6'
    } else if d == 7 {
        '7'
    } else if d == 8 {
        '8'
    } else {
        '9'
    }
}

/// Every character of `s` is a decimal digit.
pub open spec fn all_digits(s: Seq<char>) -> bool {
    forall|i: int| 0 <= i < s.len() ==> is_digit(#[trigger] s[i])
}

/// The digits of a natural number, most significant first, without leading
/// zeros (zero is the single digit `0`).
pub open spec fn decimal_digits(n: nat) -> Seq<char>
    decreases n,
{
    if n < 10 {
        seq![digit_char(n)]
    } else {
        decimal_digits(n / 10).push(digit_char(n % 10))
    }
}

/// The plain decimal notation of an integer: its digits, after a `-` where
/// it is negative.
pub open spec fn decimal_text(n: int) -> Seq<char> {
    if n < 0 {
        seq!['-'] + decimal_digits((-n) as nat)
    } else {
        decimal_digits(n as nat)
    }
}

/// The number that a run of digits denotes; leading zeros count for nothing.
pub open spec fn digits_number(s: Seq<char>) -> nat
    recommends
        all_digits(s),
    decreases s.len(),
{
    if s.len() == 0 {
        0
    } else {
        digits_number(s.drop_last()) * 10 + digit_value(s.last())
    }
}

/// A sign character, `+` or `-`.
pub open spec fn is_sign(c: char) -> bool {
    c == '+' || c == '-'
}

/// What is left of a numeral once its sign, if it has one, is taken off.
pub open spec fn unsigned_part(s: Seq<char>) -> Seq<char> {
    if s.len() > 0 && is_sign(s[0]) {
        s.skip(1)
    } else {
        s
    }
}

/// The numeral begins with a minus sign.
pub open spec fn is_negative(s: Seq<char>) -> bool {
    s.len() > 0 && s[0] == '-'
}

/// An integer numeral: an optional sign and then one digit or more.
pub open spec fn is_int_literal(s: Seq<char>) -> bool {
    unsigned_part(s).len() > 0 && all_digits(unsigned_part(s))
}

/// The integer that an integer numeral denotes.
pub open spec fn int_literal_value(s: Seq<char>) -> int
    recommends
        is_int_literal(s),
{
    if is_negative(s) {
        -(digits_number(unsigned_part(s)) as int)
    } else {
        digits_number(unsigned_part(s)) as int
    }
}

/// The value of `s` read as a signed 64-bit integer: `Some` exactly when `s`
/// is an integer numeral whose value the type can hold.
pub open spec fn parse_i64(s: Seq<char>) -> Option<i64> {
    if is_int_literal(s) && i64::MIN <= int_literal_value(s) <= i64::MAX {
        Some(int_literal_value(s) as i64)
    } else {
        None
    }
}

/// A decimal fraction: an optional sign, one digit or more, a point, and one
/// digit or more.
pub open spec fn is_float_literal(s: Seq<char>) -> bool {
    let body = unsigned_part(s);
    exists|point: int|
        0 < point < body.len() - 1 && #[trigger] body[point] == '.' && all_digits(
            body.take(point),
        ) && all_digits(body.skip(point + 1))
}

/// The number of characters at the front of `s` that `keep` accepts, up to
/// the first one that it does not.
pub open spec fn run_length(s: Seq<char>, keep: spec_fn(char) -> bool) -> nat
    decreases s.len(),
{
    if s.len() > 0 && keep(s[0]) {
        1 + run_length(s.skip(1), keep)
    } else {
        0
    }
}

/// A run is never longer than the text that it is part of.
pub proof fn lemma_run_length_bound(s: Seq<char>, keep: spec_fn(char) -> bool)
    ensures
        run_length(s, keep) <= s.len(),
    decreases s.len(),
{
    if s.len() > 0 && keep(s[0]) {
        lemma_run_length_bound(s.skip(1), keep);
    }
}

/// A run of `n` characters is one whose characters `keep` all accepts and
/// behind which the text ends or goes on with a character that `keep` does
/// not accept.
pub proof fn lemma_run_length_is(s: Seq<char>, keep: spec_fn(char) -> bool, n: int)
    requires
        0 <= n <= s.len(),
        forall|i: int| 0 <= i < n ==> keep(#[trigger] s[i]),
        n == s.len() || !keep(s[n]),
    ensures
        run_length(s, keep) == n,
    decreases n,
{
    if n > 0 {
        assert forall|i: int| 0 <= i < n - 1 implies keep(#[trigger] s.skip(1)[i]) by {
            assert(s.skip(1)[i] == s[i + 1]);
        }
        lemma_run_length_is(s.skip(1), keep, n - 1);
    }
}

/// Appends one character to a string, by `String::push` of the standard
/// library. Trusted: afterwards the string holds what it held before,
/// followed by `c`.
#[verifier::external_body]
pub(crate) fn push_char(s: &mut String, c: char)
    ensures
        final(s)@ == old(s)@.push(c),
{
    s.push(c);
}

/// A text as `{:?}` shows it: between double quotes, with the characters
/// that cannot stand there as they are written as escapes.
pub uninterp spec fn quoted_text(content: Seq<char>) -> Seq<char>;

/// A text as `{:?}` shows it, by `format!`, which asks `Debug` of `str`.
/// Trusted: the result is the named function of the text.
#[verifier::external_body]
pub(crate) fn quote_text(content: &str) -> (text: String)
    ensures
        text@ == quoted_text(content@),
{
    format!("{:?}", content)
}

/// The characters of a text, in order.
pub fn chars_of(s: &str) -> (v: Vec<char>)
    ensures
        v@ == s@,
{
    let mut v: Vec<char> = Vec::new();
    for c in it: s.chars()
        invariant
            it.seq() == s@,
            v@ == s@.take(it.index() as int),
    {
        v.push(c);
    }
    assert(s@.take(s@.len() as int) == s@);
    v
}

/// The text made of the given characters, in order.
pub fn string_of(chars: &Vec<char>) -> (s: String)
    ensures
        s@ == chars@,
{
    let mut s = String::new();
    let mut i: usize = 0;
    while i < chars.len()
        invariant
            i <= chars@.len(),
            s@ == chars@.take(i as int),
        decreases chars@.len() - i,
    {
        push_char(&mut s, chars[i]);
        i += 1;
        assert(chars@.take(i as int) == chars@.take(i as int - 1).push(chars@[i as int - 1]));
    }
    assert(chars@.take(chars@.len() as int) == chars@);
    s
}

/// The text that holds the one character `c`.
pub fn char_text(c: char) -> (s: String)
    ensures
        s@ == seq![c],
{
    let mut s = String::new();
    push_char(&mut s, c);
    assert(s@ == seq![c]);
    s
}

/// Tells whether a character is a decimal digit.
pub fn digit_test(c: char) -> (r: bool)
    ensures
        r == is_digit(c),
{
    '0' <= c && c <= '9'
}

fn digit_for(d: u64) -> (c: char)
    requires
        d < 10,
    ensures
        c == digit_char(d as nat),
        is_digit(c),
        digit_value(c) == d,
{
    if d == 0 {
        '0'
    } else if d == 1 {
        '1'
    } else if d == 2 {
        '2'
    } else if d == 3 {
        '3'
    } else if d == 4 {
        '4'
    } else if d == 5 {
        '5'
    } else if d == 6 {
        '6'
    } else if d == 7 {
        '7'
    } else if d == 8 {
        '8'
    } else {
        '9'
    }
}

proof fn lemma_reverse_push(rev: Seq<char>, c: char)
    ensures
        rev.push(c).reverse() == seq![c] + rev.reverse(),
{
    assert(rev.push(c).reverse() =~= seq![c] + rev.reverse());
}

/// The decimal notation of an unsigned number.
pub fn u64_text(n: u64) -> (s: String)
    ensures
        s@ == decimal_text(n as int),
{
    let mut rev: Vec<char> = Vec::new();
    let mut m: u64 = n;
    while m >= 10
        invariant
            decimal_digits(n as nat) == decimal_digits(m as nat) + rev@.reverse(),
        decreases m,
    {
        let d: char = digit_for(m % 10);
        proof {
            lemma_reverse_push(rev@, d);
            assert(decimal_digits(m as nat) == decimal_digits((m / 10) as nat).push(d));
            assert(decimal_digits((m / 10) as nat).push(d) + rev@.reverse() =~= decimal_digits(
                (m / 10) as nat,
            ) + (seq![d] + rev@.reverse()));
        }
        rev.push(d);
        m = m / 10;
    }
    let d: char = digit_for(m);
    proof {
        lemma_reverse_push(rev@, d);
        assert(decimal_digits(m as nat) == seq![d]);
    }
    rev.push(d);
    assert(decimal_digits(n as nat) == rev@.reverse());
    let mut s = String::new();
    let mut i: usize = rev.len();
    while i > 0
        invariant
            i <= rev@.len(),
            s@ == rev@.reverse().take(rev@.len() - i),
        decreases i,
    {
        i -= 1;
        push_char(&mut s, rev[i]);
        assert(rev@.reverse().take(rev@.len() - i) == rev@.reverse().take(rev@.len() - i - 1).push(
            rev@[i as int],
        ));
    }
    assert(rev@.reverse().take(rev@.len() as int) == rev@.reverse());
    s
}

/// The decimal notation of a count or an index.
pub fn usize_text(n: usize) -> (s: String)
    ensures
        s@ == decimal_text(n as int),
{
    u64_text(n as u64)
}

/// The decimal notation of a signed number.
pub fn i64_text(n: i64) -> (s: String)
    ensures
        s@ == decimal_text(n as int),
{
    if n >= 0 {
        u64_text(n as u64)
    } else {
        let magnitude: u64 = ((-(n + 1)) as u64) + 1;
        let digits = u64_text(magnitude);
        let mut s = String::new();
        push_char(&mut s, '-');
        s.append(digits.as_str());
        assert(s@ == seq!['-'] + decimal_digits((-n) as nat));
        s
    }
}

proof fn lemma_digits_number_step(s: Seq<char>, k: int)
    requires
        0 <= k < s.len(),
    ensures
        digits_number(s.take(k + 1)) == digits_number(s.take(k)) * 10 + digit_value(s[k]),
{
    assert(s.take(k + 1).drop_last() == s.take(k));
    assert(s.take(k + 1).last() == s[k]);
}

proof fn lemma_digits_number_grows(s: Seq<char>, k: int)
    requires
        0 <= k <= s.len(),
    ensures
        digits_number(s.take(k)) <= digits_number(s),
    decreases s.len() - k,
{
    if k == s.len() {
        assert(s.take(k) == s);
    } else {
        lemma_digits_number_step(s, k);
        lemma_digits_number_grows(s, k + 1);
    }
}

/// The digits of a number are digits, there is one of them at least, and
/// they denote the number.
pub proof fn lemma_digits_denote(n: nat)
    ensures
        decimal_digits(n).len() > 0,
        all_digits(decimal_digits(n)),
        digits_number(decimal_digits(n)) == n,
    decreases n,
{
    if n >= 10 {
        lemma_digits_denote(n / 10);
        let front = decimal_digits(n / 10);
        let all = decimal_digits(n);
        assert(all.drop_last() == front);
        assert(all.last() == digit_char(n % 10));
        assert forall|i: int| 0 <= i < all.len() implies is_digit(#[trigger] all[i]) by {
            if i < front.len() {
                assert(all[i] == front[i]);
            }
        }
    } else {
        let all = decimal_digits(n);
        assert(all.drop_last() == Seq::<char>::empty());
        assert(digits_number(all.drop_last()) == 0);
    }
}

/// Writing a number of 64 bits in decimal notation and reading it again
/// gives the number back.
pub proof fn lemma_read_what_was_written(n: i64)
    ensures
        parse_i64(decimal_text(n as int)) == Some(n),
{
    let text = decimal_text(n as int);
    if n < 0 {
        let digits = decimal_digits((-n) as nat);
        lemma_digits_denote((-n) as nat);
        assert(text[0] == '-');
        assert(unsigned_part(text) == digits);
    } else {
        lemma_digits_denote(n as nat);
        assert(unsigned_part(text) == text);
    }
}

/// Reads a signed 64-bit integer from its decimal notation.
pub fn parse_int(chars: &Vec<char>) -> (r: Option<i64>)
    ensures
        r == parse_i64(chars@),
{
    let n: usize = chars.len();
    if n == 0 {
        return None;
    }
    let negative: bool = chars[0] == '-';
    let start: usize = if chars[0] == '+' || chars[0] == '-' {
        1
    } else {
        0
    };
    if start == n {
        return None;
    }
    let ghost body = unsigned_part(chars@);
    assert(body == chars@.skip(start as int));
    let limit: u64 = if negative {
        9223372036854775808
    } else {
        9223372036854775807
    };
    let mut acc: u64 = 0;
    let mut i: usize = start;
    while i < n
        invariant
            start <= i <= n,
            n == chars@.len(),
            body == chars@.skip(start as int),
            body == unsigned_part(chars@),
            negative == is_negative(chars@),
            all_digits(body.take(i - start)),
            acc == digits_number(body.take(i - start)),
            acc <= limit,
            limit == if negative { 9223372036854775808u64 } else { 9223372036854775807u64 },
        decreases n - i,
    {
        let c: char = chars[i];
        if !(digit_test(c)) {
            assert(!is_digit(body[i - start]));
            return None;
        }
        let d: u64 = (c as u32 - '0' as u32) as u64;
        proof {
            lemma_digits_number_step(body, i - start);
        }
        if acc > (limit - d) / 10 {
            proof {
                if is_int_literal(chars@) {
                    lemma_digits_number_grows(body, i - start + 1);
                }
            }
            return None;
        }
        acc = acc * 10 + d;
        i += 1;
        assert forall|j: int| 0 <= j < body.take(i - start).len() implies is_digit(
            #[trigger] body.take(i - start)[j],
        ) by {
            if j < i - start - 1 {
                assert(body.take(i - start - 1)[j] == body[j]);
            }
        }
    }
    assert(body.take(i - start) == body);
    if negative {
        if acc == 9223372036854775808 {
            Some(i64::MIN)
        } else {
            Some(-(acc as i64))
        }
    } else {
        Some(acc as i64)
    }
}

/// Tells whether a text is a decimal fraction: an optional sign, digits, a
/// point, digits.
pub fn float_literal_test(chars: &Vec<char>) -> (r: bool)
    ensures
        r == is_float_literal(chars@),
{
    let n: usize = chars.len();
    let start: usize = if n > 0 && (chars[0] == '+' || chars[0] == '-') {
        1
    } else {
        0
    };
    let ghost body = unsigned_part(chars@);
    assert(body == chars@.skip(start as int));
    let mut i: usize = start;
    while i < n && digit_test(chars[i])
        invariant
            start <= i <= n,
            n == chars@.len(),
            body == chars@.skip(start as int),
            all_digits(body.take(i - start)),
        decreases n - i,
    {
        i += 1;
        assert forall|j: int| 0 <= j < body.take(i - start).len() implies is_digit(
            #[trigger] body.take(i - start)[j],
        ) by {
            if j < i - start - 1 {
                assert(body.take(i - start - 1)[j] == body[j]);
            }
        }
    }
    let point: usize = i;
    // Any point that the definition accepts is the first character that is
    // no digit, which is where the scan stopped.
    assert forall|q: int|
        0 < q < body.len() - 1 && #[trigger] body[q] == '.' && all_digits(body.take(q))
            && all_digits(body.skip(q + 1)) implies q == point - start by {
        if q < point - start {
            assert(body.take(point - start)[q] == body[q]);
        } else if q > point - start {
            assert(body.take(q)[point - start] == body[point - start]);
        }
    }
    if point == start || point >= n - 1 || chars[point] != '.' {
        return false;
    }
    let mut k: usize = point + 1;
    while k < n
        invariant
            point < k <= n,
            start <= point,
            n == chars@.len(),
            body == chars@.skip(start as int),
            body == unsigned_part(chars@),
            all_digits(body.skip(point - start + 1).take(k - point - 1)),
            forall|q: int|
                0 < q < body.len() - 1 && #[trigger] body[q] == '.' && all_digits(body.take(q))
                    && all_digits(body.skip(q + 1)) ==> q == point - start,
        decreases n - k,
    {
        if !(digit_test(chars[k])) {
            assert(body.skip(point - start + 1)[k - point - 1] == chars@[k as int]);
            return false;
        }
        k += 1;
        assert forall|j: int|
            0 <= j < body.skip(point - start + 1).take(k - point - 1).len() implies is_digit(
            #[trigger] body.skip(point - start + 1).take(k - point - 1)[j],
        ) by {
            if j < k - point - 2 {
                assert(body.skip(point - start + 1).take(k - point - 2)[j] == body.skip(
                    point - start + 1,
                )[j]);
            }
        }
    }
    assert(body.skip(point - start + 1).take(k - point - 1) == body.skip(point - start + 1));
    assert(body[point - start] == '.');
    true
}

/// The lines of a text. A line ends at a line feed, or at the end of the
/// text; the line feed is no part of the line, and neither is a carriage
/// return right before it. The end of the text ends a line only where
/// something stands on it: a text that ends with its last line feed has no
/// empty line behind it.
pub open spec fn lines_of(s: Seq<char>) -> Seq<Seq<char>>
    decreases s.len(),
{
    if s.len() == 0 {
        Seq::empty()
    } else {
        let n = run_length(s, |c: char| c != '\n') as int;
        if n == s.len() {
            seq![s]
        } else {
            proof {
                lemma_run_length_bound(s, |c: char| c != '\n');
            }
            seq![line_content(s.take(n))] + lines_of(s.skip(n + 1))
        }
    }
}

/// A line that a line feed ended, without the carriage return at its end
/// where it has one.
pub open spec fn line_content(line: Seq<char>) -> Seq<char> {
    if line.len() > 0 && line.last() == '\r' {
        line.drop_last()
    } else {
        line
    }
}

/// The texts of the given strings.
pub open spec fn texts_of(strings: Seq<String>) -> Seq<Seq<char>> {
    strings.map_values(|string: String| string@)
}

/// The text made of the characters from `start` up to `end`.
pub fn string_of_range(chars: &Vec<char>, start: usize, end: usize) -> (s: String)
    requires
        start <= end <= chars@.len(),
    ensures
        s@ == chars@.subrange(start as int, end as int),
{
    let mut s = String::new();
    let mut i: usize = start;
    while i < end
        invariant
            start <= i <= end <= chars@.len(),
            s@ == chars@.subrange(start as int, i as int),
        decreases end - i,
    {
        push_char(&mut s, chars[i]);
        i += 1;
        assert(chars@.subrange(start as int, i as int) == chars@.subrange(
            start as int,
            i as int - 1,
        ).push(chars@[i as int - 1]));
    }
    s
}

/// Splits a text into its lines.
pub fn split_lines(text: &str) -> (lines: Vec<String>)
    ensures
        texts_of(lines@) == lines_of(text@),
{
    let chars = chars_of(text);
    let n: usize = chars.len();
    let mut lines: Vec<String> = Vec::new();
    let mut start: usize = 0;
    assert(chars@.skip(0) == chars@);
    assert(texts_of(lines@) == Seq::<Seq<char>>::empty());
    assert(Seq::<Seq<char>>::empty() + lines_of(chars@) == lines_of(chars@));
    while start < n
        invariant
            start <= n,
            n == chars@.len(),
            texts_of(lines@) + lines_of(chars@.skip(start as int)) == lines_of(chars@),
        decreases n - start,
    {
        let ghost rest = chars@.skip(start as int);
        let ghost had = texts_of(lines@);
        let mut end: usize = start;
        while end < n && chars[end] != '\n'
            invariant
                start <= end <= n,
                n == chars@.len(),
                rest == chars@.skip(start as int),
                forall|i: int| 0 <= i < end - start ==> #[trigger] rest[i] != '\n',
            decreases n - end,
        {
            end += 1;
        }
        proof {
            lemma_run_length_is(rest, |c: char| c != '\n', end - start);
            assert(rest.take(end - start) == chars@.subrange(start as int, end as int));
        }
        if end == n {
            let line = string_of_range(&chars, start, end);
            let ghost view = line@;
            lines.push(line);
            proof {
                assert(rest.take(rest.len() as int) == rest);
                assert(texts_of(lines@) == had.push(view));
                assert(had.push(view) == had + seq![view]);
                assert(chars@.skip(n as int).len() == 0);
                assert(texts_of(lines@) + lines_of(chars@.skip(n as int)) == had + seq![view]);
            }
            start = n;
        } else {
            let stop: usize = if end > start && chars[end - 1] == '\r' {
                end - 1
            } else {
                end
            };
            let line = string_of_range(&chars, start, stop);
            let ghost view = line@;
            lines.push(line);
            proof {
                let whole = rest.take(end - start);
                assert(whole.len() > 0 ==> whole.last() == chars@[end - 1]);
                assert(view == line_content(whole)) by {
                    if end > start && chars@[end - 1] == '\r' {
                        assert(whole.drop_last() == chars@.subrange(start as int, stop as int));
                    }
                }
                assert(rest.skip(end - start + 1) == chars@.skip(end as int + 1));
                assert(texts_of(lines@) == had.push(view));
                assert(had.push(view) + lines_of(chars@.skip(end as int + 1)) == had + (seq![view]
                    + lines_of(chars@.skip(end as int + 1))));
            }
            start = end + 1;
        }
    }
    assert(chars@.skip(n as int).len() == 0);
    assert(texts_of(lines@) + Seq::<Seq<char>>::empty() == texts_of(lines@));
    lines
}

} // verus!
