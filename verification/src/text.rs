//! Character-level text helpers: every string is seen as a sequence of
//! characters, never as bytes.

use vstd::prelude::*;
use vstd::string::*;

verus! {

/// `String::push`: appends one character at the end.
pub assume_specification[ String::push ](s: &mut String, ch: char)
    ensures
        final(s)@ == old(s)@.push(ch),
;

/// What `String::from_utf8_lossy` makes of `bytes`.
pub uninterp spec fn utf8_lossy(bytes: Seq<u8>) -> Seq<char>;

/// `String::from_utf8_lossy`: reads `bytes` as UTF-8, with replacement
/// characters for what is not. Valid UTF-8 is read as the text that it encodes.
#[verifier::external_body]
pub(crate) fn decode_lossy(bytes: &Vec<u8>) -> (result: String)
    ensures
        result@ == utf8_lossy(bytes@),
        vstd::utf8::valid_utf8(bytes@) ==> vstd::utf8::encode_utf8(result@) == bytes@,
{
    String::from_utf8_lossy(bytes).into_owned()
}

/// The characters with Unicode's `White_Space` property.
pub open spec fn white_space(c: char) -> bool {
    let n = c as u32;
    ||| 0x9 <= n <= 0xD
    ||| n == 0x20
    ||| n == 0x85
    ||| n == 0xA0
    ||| n == 0x1680
    ||| 0x2000 <= n <= 0x200A
    ||| n == 0x2028
    ||| n == 0x2029
    ||| n == 0x202F
    ||| n == 0x205F
    ||| n == 0x3000
}

/// Whether `c` has Unicode's `White_Space` property.
pub fn is_white_space(c: char) -> (result: bool)
    ensures
        result == white_space(c),
{
    let n: u32 = c as u32;
    (0x9 <= n && n <= 0xD) || n == 0x20 || n == 0x85 || n == 0xA0 || n == 0x1680 || (0x2000 <= n
        && n <= 0x200A) || n == 0x2028 || n == 0x2029 || n == 0x202F || n == 0x205F || n == 0x3000
}

/// The characters of `s`, in order.
pub fn chars_of(s: &str) -> (result: Vec<char>)
    ensures
        result@ == s@,
{
    let mut result: Vec<char> = Vec::new();
    for c in it: s.chars()
        invariant
            it.seq() == s@,
            result@ == s@.take(it.index()),
    {
        result.push(c);
    }
    result
}

/// The string that holds `chars[from..to]`.
pub fn string_of(chars: &Vec<char>, from: usize, to: usize) -> (result: String)
    requires
        from <= to <= chars@.len(),
    ensures
        result@ == chars@.subrange(from as int, to as int),
{
    let mut result = String::new();
    let mut i: usize = from;
    while i < to
        invariant
            from <= i <= to <= chars@.len(),
            result@ == chars@.subrange(from as int, i as int),
        decreases to - i,
    {
        result.push(chars[i]);
        i += 1;
    }
    result
}

/// The contents of a vector of strings.
pub open spec fn views(lines: Seq<String>) -> Seq<Seq<char>> {
    Seq::new(lines.len(), |i: int| lines[i]@)
}

/// `s` with `text` placed before the character at `at`.
pub fn insert_text(s: &str, at: usize, text: &str) -> (result: String)
    requires
        at <= s@.len(),
    ensures
        result@ == s@.take(at as int) + text@ + s@.skip(at as int),
{
    let mut result = s.substring_char(0, at).to_owned();
    result.append(text);
    result.append(s.substring_char(at, s.unicode_len()));
    result
}

/// `a` followed by `b`.
pub fn concat(a: &str, b: &str) -> (result: String)
    ensures
        result@ == a@ + b@,
{
    let mut result = a.to_owned();
    result.append(b);
    result
}

/// The elements `from..to` of `s`, as far as there are any.
pub open spec fn cut<A>(s: Seq<A>, from: int, to: int) -> Seq<A> {
    s.subrange(
        if from < s.len() {
            from
        } else {
            s.len() as int
        },
        if to < s.len() {
            to
        } else {
            s.len() as int
        },
    )
}

// ---- white space ----

/// `s` without its leading white space.
pub open spec fn trim_start(s: Seq<char>) -> Seq<char>
    decreases s.len(),
{
    if s.len() > 0 && white_space(s.first()) {
        trim_start(s.skip(1))
    } else {
        s
    }
}

/// `s` without its trailing white space.
pub open spec fn trim_end(s: Seq<char>) -> Seq<char>
    decreases s.len(),
{
    if s.len() > 0 && white_space(s.last()) {
        trim_end(s.drop_last())
    } else {
        s
    }
}

/// `s` without white space at either end.
pub open spec fn trimmed(s: Seq<char>) -> Seq<char> {
    trim_end(trim_start(s))
}

/// Where `chars[from..to]` ends without its trailing white space.
pub fn trim_end_len(chars: &Vec<char>, from: usize, to: usize) -> (end: usize)
    requires
        from <= to <= chars@.len(),
    ensures
        from <= end <= to,
        chars@.subrange(from as int, end as int) == trim_end(
            chars@.subrange(from as int, to as int),
        ),
{
    let mut end: usize = to;
    while end > from && is_white_space(chars[end - 1])
        invariant
            from <= end <= to <= chars@.len(),
            trim_end(chars@.subrange(from as int, end as int)) == trim_end(
                chars@.subrange(from as int, to as int),
            ),
        decreases end,
    {
        assert(chars@.subrange(from as int, end as int).drop_last() == chars@.subrange(
            from as int,
            end - 1,
        ));
        end -= 1;
    }
    end
}

/// `s` without white space at either end.
pub fn trim(s: &str) -> (result: String)
    ensures
        result@ == trimmed(s@),
{
    let chars = chars_of(s);
    let n: usize = chars.len();
    let mut start: usize = 0;
    assert(chars@.skip(0) == chars@);
    while start < n && is_white_space(chars[start])
        invariant
            start <= n == chars@.len(),
            trim_start(chars@.skip(start as int)) == trim_start(chars@),
        decreases n - start,
    {
        assert(chars@.skip(start as int).skip(1) == chars@.skip(start + 1));
        start += 1;
    }
    assert(chars@.skip(start as int) == chars@.subrange(start as int, n as int));
    let end = trim_end_len(&chars, start, n);
    string_of(&chars, start, end)
}

// ---- lines ----

/// Where the first line of `s` ends: at its first newline, or at its end.
pub open spec fn line_end(s: Seq<char>) -> nat
    decreases s.len(),
{
    if s.len() == 0 || s.first() == '\n' {
        0
    } else {
        1 + line_end(s.skip(1))
    }
}

/// `s` without a carriage return at its end.
pub open spec fn strip_cr(s: Seq<char>) -> Seq<char> {
    if s.len() > 0 && s.last() == '\r' {
        s.drop_last()
    } else {
        s
    }
}

/// The lines of `s`. A line ends in `\n` or `\r\n`, which is not part of it;
/// the ending of the last line is optional.
pub open spec fn split_lines(s: Seq<char>) -> Seq<Seq<char>>
    decreases s.len(),
{
    let end = line_end(s);
    if s.len() == 0 {
        seq![]
    } else if end < s.len() {
        seq![strip_cr(s.take(end as int))] + split_lines(s.skip(end as int + 1))
    } else {
        seq![s]
    }
}

/// `line_end` is the one place that ends a run without newlines.
pub proof fn lemma_line_end(s: Seq<char>, k: int)
    requires
        0 <= k <= s.len(),
        forall|i: int| 0 <= i < k ==> s[i] != '\n',
        k < s.len() ==> s[k] == '\n',
    ensures
        line_end(s) == k,
    decreases k,
{
    if k > 0 {
        lemma_line_end(s.skip(1), k - 1);
    }
}

/// `line_end` is where the first newline stands, or the end if there is none.
pub proof fn lemma_line_end_found(s: Seq<char>)
    ensures
        line_end(s) <= s.len(),
        forall|i: int| 0 <= i < line_end(s) ==> s[i] != '\n',
        line_end(s) < s.len() ==> s[line_end(s) as int] == '\n',
    decreases s.len(),
{
    if s.len() > 0 && s.first() != '\n' {
        lemma_line_end_found(s.skip(1));
        assert forall|i: int| 0 <= i < line_end(s) implies s[i] != '\n' by {
            if i > 0 {
                assert(s.skip(1)[i - 1] == s[i]);
            }
        }
    }
}

/// Splits `s` into its lines, without their `\n` or `\r\n` endings.
pub fn lines_of(s: &str) -> (result: Vec<String>)
    ensures
        views(result@) == split_lines(s@),
{
    let chars = chars_of(s);
    let n: usize = chars.len();
    let mut result: Vec<String> = Vec::new();
    let mut start: usize = 0;
    let mut i: usize = 0;
    proof {
        assert(chars@.skip(0) == chars@);
        assert(views(result@) + split_lines(chars@) =~= split_lines(chars@));
    }
    while i < n
        invariant
            start <= i <= n == chars@.len(),
            forall|j: int| start <= j < i ==> chars@[j] != '\n',
            views(result@) + split_lines(chars@.skip(start as int)) == split_lines(chars@),
        decreases n - i,
    {
        if chars[i] == '\n' {
            let ghost rest = chars@.skip(start as int);
            let ghost before = views(result@);
            proof {
                lemma_line_end(rest, i - start);
                assert(rest.take(i - start) == chars@.subrange(start as int, i as int));
                assert(rest.skip(i - start + 1) == chars@.skip(i + 1));
            }
            let end: usize = if i > start && chars[i - 1] == '\r' {
                i - 1
            } else {
                i
            };
            let line = string_of(&chars, start, end);
            assert(line@ == strip_cr(rest.take(i - start)));
            result.push(line);
            assert(views(result@) == before.push(line@));
            assert(views(result@) + split_lines(chars@.skip(i + 1)) == before + (seq![line@]
                + split_lines(chars@.skip(i + 1))));
            start = i + 1;
        }
        i += 1;
    }
    let ghost rest = chars@.skip(start as int);
    let ghost before = views(result@);
    if start < n {
        proof {
            lemma_line_end(rest, n - start);
            assert(rest == chars@.subrange(start as int, n as int));
        }
        let line = string_of(&chars, start, n);
        result.push(line);
        assert(views(result@) == before + seq![line@]);
    } else {
        assert(views(result@) == before + split_lines(rest));
    }
    result
}

/// Each line followed by a newline, one after the other.
pub open spec fn terminated(lines: Seq<Seq<char>>) -> Seq<char>
    decreases lines.len(),
{
    if lines.len() == 0 {
        seq![]
    } else {
        terminated(lines.drop_last()) + lines.last().push('\n')
    }
}

/// Each line of `lines` followed by a newline.
pub fn terminate_lines(lines: &Vec<String>) -> (result: String)
    ensures
        result@ == terminated(views(lines@)),
{
    let mut result = String::new();
    let ghost all = views(lines@);
    let mut i: usize = 0;
    while i < lines.len()
        invariant
            i <= lines@.len(),
            all == views(lines@),
            result@ == terminated(all.take(i as int)),
        decreases lines@.len() - i,
    {
        result.append(lines[i].as_str());
        result.push('\n');
        assert(all.take(i + 1).drop_last() == all.take(i as int));
        i += 1;
    }
    assert(all.take(i as int) == all);
    result
}

/// The first line can be taken off a terminated text.
pub proof fn lemma_terminated_first(lines: Seq<Seq<char>>)
    requires
        lines.len() > 0,
    ensures
        terminated(lines) == lines.first().push('\n') + terminated(lines.skip(1)),
    decreases lines.len(),
{
    if lines.len() == 1 {
        assert(lines.drop_last() == lines.skip(1));
        assert(terminated(lines.skip(1)) == Seq::<char>::empty());
    } else {
        lemma_terminated_first(lines.drop_last());
        assert(lines.drop_last().skip(1) == lines.skip(1).drop_last());
        assert(terminated(lines) == lines.first().push('\n') + (terminated(
            lines.skip(1).drop_last(),
        ) + lines.last().push('\n')));
    }
}

/// Splitting terminated lines gives the lines back, as long as none of them
/// holds a newline or ends in a carriage return.
pub proof fn lemma_split_terminated(lines: Seq<Seq<char>>)
    requires
        forall|i: int| 0 <= i < lines.len() ==> !(#[trigger] lines[i]).contains('\n'),
        forall|i: int|
            0 <= i < lines.len() ==> ((#[trigger] lines[i]).len() > 0 ==> lines[i].last() != '\r'),
    ensures
        split_lines(terminated(lines)) == lines,
    decreases lines.len(),
{
    if lines.len() > 0 {
        let text = terminated(lines);
        let first = lines.first();
        lemma_terminated_first(lines);
        assert forall|i: int| 0 <= i < first.len() implies text[i] != '\n' by {
            assert(text[i] == first[i]);
            assert(lines[0].contains(first[i]));
        }
        lemma_line_end(text, first.len() as int);
        assert(text.take(first.len() as int) == first);
        assert(text.skip(first.len() as int + 1) == terminated(lines.skip(1)));
        assert forall|i: int| 0 <= i < lines.skip(1).len() implies !(#[trigger] lines.skip(
            1,
        )[i]).contains('\n') by {
            assert(lines.skip(1)[i] == lines[i + 1]);
        }
        assert forall|i: int|
            0 <= i < lines.skip(1).len() && (#[trigger] lines.skip(1)[i]).len()
                > 0 implies lines.skip(1)[i].last() != '\r' by {
            assert(lines.skip(1)[i] == lines[i + 1]);
        }
        lemma_split_terminated(lines.skip(1));
        assert(seq![first] + lines.skip(1) == lines);
    }
}

// ---- numbers ----

/// The digit that stands for `d`: `0` to `9`, then `a` to `f`.
pub open spec fn digit(d: int) -> char {
    if d < 10 {
        ('0' as int + d) as char
    } else {
        ('a' as int + d - 10) as char
    }
}

fn digit_char(d: u8) -> (c: char)
    requires
        d < 16,
    ensures
        c == digit(d as int),
{
    if d < 10 {
        (48 + d) as char
    } else {
        (97 + (d - 10)) as char
    }
}

/// `n` in base ten, without leading zeros.
pub open spec fn decimal(n: nat) -> Seq<char>
    decreases n,
{
    if n < 10 {
        seq![digit(n as int)]
    } else {
        decimal(n / 10).push(digit((n % 10) as int))
    }
}

/// Writes `n` in base ten.
pub fn decimal_of(n: u128) -> (result: String)
    ensures
        result@ == decimal(n as nat),
    decreases n,
{
    let mut result = if n < 10 {
        String::new()
    } else {
        decimal_of(n / 10)
    };
    result.push(digit_char((n % 10) as u8));
    assert(n < 10 ==> result@ == seq![digit(n as int)]);
    result
}

/// `n` in base sixteen, in lower case and without leading zeros.
pub open spec fn hexadecimal(n: nat) -> Seq<char>
    decreases n,
{
    if n < 16 {
        seq![digit(n as int)]
    } else {
        hexadecimal(n / 16).push(digit((n % 16) as int))
    }
}

/// Writes `n` in base sixteen.
pub fn hexadecimal_of(n: u64) -> (result: String)
    ensures
        result@ == hexadecimal(n as nat),
    decreases n,
{
    let mut result = if n < 16 {
        String::new()
    } else {
        hexadecimal_of(n / 16)
    };
    result.push(digit_char((n % 16) as u8));
    assert(n < 16 ==> result@ == seq![digit(n as int)]);
    result
}

/// Whether `c` is one of the ASCII digits.
pub open spec fn is_digit(c: char) -> bool {
    '0' <= c <= '9'
}

/// What a run of ASCII digits is worth in base ten.
pub open spec fn digits_value(s: Seq<char>) -> nat
    decreases s.len(),
{
    if s.len() == 0 {
        0
    } else {
        digits_value(s.drop_last()) * 10 + (s.last() as int - '0' as int) as nat
    }
}

/// `s` without the one leading plus sign that a number may have.
pub open spec fn without_plus(s: Seq<char>) -> Seq<char> {
    if s.len() > 1 && s.first() == '+' {
        s.skip(1)
    } else {
        s
    }
}

/// The number that `s` spells in base ten, if it spells one that fits in a
/// `usize`.
pub open spec fn parsed_number(s: Seq<char>) -> Option<nat> {
    let digits = without_plus(s);
    if digits.len() > 0 && (forall|i: int| 0 <= i < digits.len() ==> is_digit(#[trigger] digits[i]))
        && digits_value(digits) <= usize::MAX {
        Some(digits_value(digits))
    } else {
        None
    }
}

proof fn lemma_digits_value_grows(s: Seq<char>, k: int)
    requires
        0 <= k <= s.len(),
    ensures
        digits_value(s.take(k)) <= digits_value(s),
    decreases s.len() - k,
{
    if k < s.len() {
        lemma_digits_value_grows(s, k + 1);
        assert(s.take(k + 1).drop_last() == s.take(k));
    } else {
        assert(s.take(k) == s);
    }
}

/// Reads `s` as a number in base ten: ASCII digits, with at most one plus sign
/// before them.
pub fn parse_number(s: &str) -> (result: Option<usize>)
    ensures
        match result {
            Some(n) => parsed_number(s@) == Some(n as nat),
            None => parsed_number(s@) is None,
        },
{
    let chars = chars_of(s);
    let n: usize = chars.len();
    let start: usize = if n > 1 && chars[0] == '+' {
        1
    } else {
        0
    };
    let ghost digits = without_plus(s@);
    assert(digits == chars@.skip(start as int));
    if start == n {
        return None;
    }
    let mut value: usize = 0;
    let mut i: usize = start;
    while i < n
        invariant
            start <= i <= n == chars@.len(),
            digits == chars@.skip(start as int),
            digits == without_plus(s@),
            forall|j: int| 0 <= j < i - start ==> is_digit(#[trigger] digits[j]),
            value == digits_value(digits.take(i - start)),
        decreases n - i,
    {
        let c = chars[i];
        assert(digits[i - start] == c);
        if c < '0' || '9' < c {
            return None;
        }
        let d: usize = (c as u32 - '0' as u32) as usize;
        proof {
            assert(digits.take(i - start + 1).drop_last() == digits.take(i - start));
            lemma_digits_value_grows(digits, i - start + 1);
        }
        if value > usize::MAX / 10 || value * 10 > usize::MAX - d {
            return None;
        }
        value = value * 10 + d;
        i += 1;
    }
    assert(digits.take(n - start) == digits);
    Some(value)
}

/// `n` copies of `c`.
pub open spec fn repeated(c: char, n: nat) -> Seq<char> {
    Seq::new(n, |i: int| c)
}

/// A string of `n` copies of `c`.
pub fn repeat_char(c: char, n: usize) -> (result: String)
    ensures
        result@ == repeated(c, n as nat),
{
    let mut result = String::new();
    let mut i: usize = 0;
    while i < n
        invariant
            i <= n,
            result@ == repeated(c, i as nat),
        decreases n - i,
    {
        result.push(c);
        i += 1;
    }
    result
}

/// The first `n` characters of `s`, or all of them if there are fewer.
pub open spec fn clipped(s: Seq<char>, n: nat) -> Seq<char> {
    if s.len() <= n {
        s
    } else {
        s.take(n as int)
    }
}

/// Cuts `s` after `n` characters.
pub fn clip(s: &str, n: usize) -> (result: String)
    ensures
        result@ == clipped(s@, n as nat),
{
    if s.unicode_len() <= n {
        s.to_owned()
    } else {
        s.substring_char(0, n).to_owned()
    }
}

} // verus!
