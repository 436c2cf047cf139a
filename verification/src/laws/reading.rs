//! Text in and out: files as lines, white space, and written numbers.

use crate::file_io;
use crate::model;
use crate::model::{Buffer, EditGroup, EditorView};
use crate::text;
use vstd::prelude::*;

verus! {

// ---- files ----

/// The contents of a file that holds `lines`, each ended by a carriage return
/// and a newline where `crlf` says so, and by a newline alone elsewhere.
pub open spec fn with_endings(lines: Seq<Seq<char>>, crlf: Seq<bool>) -> Seq<char>
    decreases lines.len(),
{
    if lines.len() == 0 {
        seq![]
    } else {
        lines[0] + (if crlf[0] {
            seq!['\r', '\n']
        } else {
            seq!['\n']
        }) + with_endings(lines.skip(1), crlf.skip(1))
    }
}

/// What a file is opened as whose lines are `lines`, ended as `crlf` says, and
/// `rest` behind the last ending. A carriage return in front of a newline is
/// part of the ending; everything else is text. A file that holds nothing has
/// one empty line.
pub proof fn law_files_are_read_line_by_line(
    lines: Seq<Seq<char>>,
    crlf: Seq<bool>,
    rest: Seq<char>,
)
    requires
        crlf.len() == lines.len(),
        forall|i: int| 0 <= i < lines.len() ==> !(#[trigger] lines[i]).contains('\n'),
        !rest.contains('\n'),
    ensures
        ({
            let opened = file_io::loaded(Some(with_endings(lines, crlf) + rest));
            let count = lines.len() + (if rest.len() > 0 {
                1int
            } else {
                0
            });
            &&& count == 0 ==> opened == seq![Seq::<char>::empty()]
            &&& count > 0 ==> opened.len() == count
            &&& forall|i: int|
                0 <= i < lines.len() ==> #[trigger] opened[i] == (if !crlf[i] && lines[i].len() > 0
                    && lines[i].last() == '\r' {
                    lines[i].drop_last()
                } else {
                    lines[i]
                })
            &&& rest.len() > 0 ==> opened[count - 1] == rest
        }),
        file_io::loaded(None) == seq![Seq::<char>::empty()],
{
    lemma_split_endings(lines, crlf, rest);
}

proof fn lemma_split_endings(lines: Seq<Seq<char>>, crlf: Seq<bool>, rest: Seq<char>)
    requires
        crlf.len() == lines.len(),
        forall|i: int| 0 <= i < lines.len() ==> !(#[trigger] lines[i]).contains('\n'),
        !rest.contains('\n'),
    ensures
        ({
            let split = text::split_lines(with_endings(lines, crlf) + rest);
            &&& split.len() == lines.len() + (if rest.len() > 0 {
                1int
            } else {
                0
            })
            &&& forall|i: int|
                0 <= i < lines.len() ==> #[trigger] split[i] == (if !crlf[i] && lines[i].len() > 0
                    && lines[i].last() == '\r' {
                    lines[i].drop_last()
                } else {
                    lines[i]
                })
            &&& rest.len() > 0 ==> split[lines.len() as int] == rest
        }),
    decreases lines.len(),
{
    let contents = with_endings(lines, crlf) + rest;
    let split = text::split_lines(contents);
    if lines.len() == 0 {
        assert(contents =~= rest);
        assert forall|i: int| 0 <= i < rest.len() implies rest[i] != '\n' by {
            assert(rest.contains(rest[i]));
        }
        text::lemma_line_end(rest, rest.len() as int);
    } else {
        let first = lines[0];
        let head = if crlf[0] {
            first.push('\r')
        } else {
            first
        };
        let later = with_endings(lines.skip(1), crlf.skip(1)) + rest;
        assert(contents =~= head.push('\n') + later);
        assert forall|i: int| 0 <= i < head.len() implies contents[i] != '\n' by {
            assert(contents[i] == head[i]);
            if i < first.len() {
                assert(first.contains(first[i]));
            }
        }
        text::lemma_line_end(contents, head.len() as int);
        assert(contents.take(head.len() as int) =~= head);
        assert(contents.skip(head.len() as int + 1) =~= later);
        assert(crlf[0] ==> head.drop_last() =~= first);
        assert forall|i: int| 0 <= i < lines.skip(1).len() implies !(#[trigger] lines.skip(
            1,
        )[i]).contains('\n') by {
            assert(lines.skip(1)[i] == lines[i + 1]);
        }
        lemma_split_endings(lines.skip(1), crlf.skip(1), rest);
        let tail = text::split_lines(later);
        assert(split =~= seq![text::strip_cr(head)] + tail);
        assert forall|i: int| 0 <= i < lines.len() implies #[trigger] split[i] == (if !crlf[i]
            && lines[i].len() > 0 && lines[i].last() == '\r' {
            lines[i].drop_last()
        } else {
            lines[i]
        }) by {
            if i > 0 {
                assert(split[i] == tail[i - 1]);
                assert(lines.skip(1)[i - 1] == lines[i]);
                assert(crlf.skip(1)[i - 1] == crlf[i]);
            }
        }
    }
}

/// Lines that do not end in a carriage return are read back from a file that
/// holds them, whichever of the two endings each of them has there.
pub proof fn law_line_endings_make_no_difference(
    lines: Seq<Seq<char>>,
    crlf: Seq<bool>,
    other: Seq<bool>,
)
    requires
        lines.len() > 0,
        crlf.len() == lines.len(),
        other.len() == lines.len(),
        forall|i: int| 0 <= i < lines.len() ==> !(#[trigger] lines[i]).contains('\n'),
        forall|i: int|
            0 <= i < lines.len() ==> ((#[trigger] lines[i]).len() > 0 ==> lines[i].last() != '\r'),
    ensures
        file_io::loaded(Some(with_endings(lines, crlf))) == lines,
        file_io::loaded(Some(with_endings(lines, crlf))) == file_io::loaded(
            Some(with_endings(lines, other)),
        ),
{
    let none = Seq::<char>::empty();
    law_files_are_read_line_by_line(lines, crlf, none);
    law_files_are_read_line_by_line(lines, other, none);
    assert(with_endings(lines, crlf) + none =~= with_endings(lines, crlf));
    assert(with_endings(lines, other) + none =~= with_endings(lines, other));
    assert(file_io::loaded(Some(with_endings(lines, crlf))) =~= lines);
    assert(file_io::loaded(Some(with_endings(lines, other))) =~= lines);
}

/// Any text consists of lines with endings, and of what stands behind the last.
pub proof fn law_any_file_is_made_of_lines(contents: Seq<char>) -> (parts: (
    Seq<Seq<char>>,
    Seq<bool>,
    Seq<char>,
))
    ensures
        parts.1.len() == parts.0.len(),
        forall|i: int| 0 <= i < parts.0.len() ==> !(#[trigger] parts.0[i]).contains('\n'),
        !parts.2.contains('\n'),
        with_endings(parts.0, parts.1) + parts.2 == contents,
    decreases contents.len(),
{
    let end = text::line_end(contents) as int;
    text::lemma_line_end_found(contents);
    if end == contents.len() {
        let none = Seq::<Seq<char>>::empty();
        assert(with_endings(none, Seq::<bool>::empty()) + contents =~= contents);
        (none, Seq::<bool>::empty(), contents)
    } else {
        let first = contents.take(end);
        let (lines, crlf, rest) = law_any_file_is_made_of_lines(contents.skip(end + 1));
        let all = seq![first] + lines;
        let ends = seq![false] + crlf;
        assert(all.skip(1) =~= lines);
        assert(ends.skip(1) =~= crlf);
        assert(all[0] == first && !ends[0]);
        assert(with_endings(all, ends) == first + seq!['\n'] + with_endings(lines, crlf));
        let later = with_endings(lines, crlf) + rest;
        assert(later == contents.skip(end + 1));
        assert(contents =~= first + seq!['\n'] + later);
        assert(with_endings(all, ends) + rest =~= first + seq!['\n'] + later);
        assert forall|i: int| 0 <= i < all.len() implies !(#[trigger] all[i]).contains('\n') by {
            if i > 0 {
                assert(all[i] == lines[i - 1]);
            }
        }
        (all, ends, rest)
    }
}

/// A buffer is saved as its lines in order, each with a newline behind it and
/// with nothing else.
pub proof fn law_saved_text_is_the_lines(lines: Seq<Seq<char>>)
    requires
        lines.len() > 0,
    ensures
        file_io::stored(lines) == with_endings(lines, Seq::new(lines.len(), |i: int| false)),
        file_io::stored(seq![]) == seq!['\n'],
    decreases lines.len(),
{
    lemma_terminated_endings(lines, Seq::new(lines.len(), |i: int| false));
}

proof fn lemma_terminated_endings(lines: Seq<Seq<char>>, crlf: Seq<bool>)
    requires
        crlf.len() == lines.len(),
        forall|i: int| 0 <= i < lines.len() ==> !(#[trigger] crlf[i]),
    ensures
        text::terminated(lines) == with_endings(lines, crlf),
    decreases lines.len(),
{
    if lines.len() > 0 {
        text::lemma_terminated_first(lines);
        assert(!crlf[0]);
        assert forall|i: int| 0 <= i < crlf.skip(1).len() implies !(#[trigger] crlf.skip(1)[i]) by {
            assert(crlf.skip(1)[i] == crlf[i + 1]);
        }
        lemma_terminated_endings(lines.skip(1), crlf.skip(1));
        assert(text::terminated(lines) =~= with_endings(lines, crlf));
    }
}

/// A freshly opened editor holds the file's lines, with the cursor at the start,
/// nothing to undo, nothing unsaved and no diagnostics.
pub proof fn law_opened_editor_is_fresh(path: Seq<char>, lines: Seq<Seq<char>>)
    ensures
        EditorView::opened(path, lines) == (EditorView {
            buf: Buffer { lines, row: 0, col: 0 },
            desired_col: 0,
            undo: seq![],
            redo: seq![],
            group: EditGroup::Idle,
            modified: false,
            confirm_quit: false,
            scroll: 0,
            col_scroll: 0,
            file_path: path,
            status: "Ctrl+S save  Ctrl+Q quit  Ctrl+Z undo  Ctrl+Y redo"@,
            status_is_error: false,
            diagnostics: seq![],
        }),
{
}

/// A save that succeeds leaves nothing unsaved and takes the quit question away;
/// one that fails does neither. Either way the status line tells, and nothing
/// else changes.
pub proof fn law_saves_are_told(v: EditorView, reason: Seq<char>)
    ensures
        v.saved(Ok(())) == (EditorView {
            modified: false,
            confirm_quit: false,
            status: "Saved "@ + v.file_path,
            status_is_error: false,
            ..v
        }),
        v.saved(Err(reason)) == (EditorView {
            status: "Save failed: "@ + reason,
            status_is_error: true,
            ..v
        }),
{
}

/// The text has as many characters as its lines together.
pub proof fn law_characters_are_counted(lines: Seq<Seq<char>>)
    ensures
        model::total_chars(lines) == lines.flatten().len(),
    decreases lines.len(),
{
    lines.lemma_flatten_and_flatten_alt_are_equivalent();
    if lines.len() > 0 {
        law_characters_are_counted(lines.drop_last());
        lines.drop_last().lemma_flatten_and_flatten_alt_are_equivalent();
    }
}

// ---- white space ----

/// A trimmed text is the part of it between the white space at its ends, which
/// itself starts and ends with something else.
pub proof fn law_trimmed_text_is_the_middle(s: Seq<char>)
    ensures
        exists|from: int, to: int|
            {
                &&& 0 <= from <= to <= s.len()
                &&& text::trimmed(s) == #[trigger] s.subrange(from, to)
                &&& forall|i: int| 0 <= i < from ==> text::white_space(#[trigger] s[i])
                &&& forall|i: int| to <= i < s.len() ==> text::white_space(#[trigger] s[i])
                &&& from < to ==> !text::white_space(s[from]) && !text::white_space(s[to - 1])
            },
{
    let from = lemma_trim_start(s);
    let rest = s.skip(from);
    let len = lemma_trim_end(rest);
    assert(text::trimmed(s) =~= s.subrange(from, from + len));
    assert forall|i: int| from + len <= i < s.len() implies text::white_space(#[trigger] s[i]) by {
        assert(rest[i - from] == s[i]);
    }
    if len > 0 {
        assert(rest[0] == s[from]);
        assert(rest[len - 1] == s[from + len - 1]);
    }
}

proof fn lemma_trim_start(s: Seq<char>) -> (from: int)
    ensures
        0 <= from <= s.len(),
        text::trim_start(s) == s.skip(from),
        forall|i: int| 0 <= i < from ==> text::white_space(#[trigger] s[i]),
        from < s.len() ==> !text::white_space(s[from]),
    decreases s.len(),
{
    if s.len() > 0 && text::white_space(s.first()) {
        let rest = s.skip(1);
        let k = lemma_trim_start(rest);
        assert(rest.skip(k) =~= s.skip(k + 1));
        assert forall|i: int| 0 <= i < k + 1 implies text::white_space(#[trigger] s[i]) by {
            if i > 0 {
                assert(rest[i - 1] == s[i]);
            }
        }
        k + 1
    } else {
        assert(s.skip(0) =~= s);
        0
    }
}

proof fn lemma_trim_end(s: Seq<char>) -> (len: int)
    ensures
        0 <= len <= s.len(),
        text::trim_end(s) == s.take(len),
        forall|i: int| len <= i < s.len() ==> text::white_space(#[trigger] s[i]),
        len > 0 ==> !text::white_space(s[len - 1]),
    decreases s.len(),
{
    if s.len() > 0 && text::white_space(s.last()) {
        let shorter = s.drop_last();
        let len = lemma_trim_end(shorter);
        assert(shorter.take(len) =~= s.take(len));
        assert forall|i: int| len <= i < s.len() implies text::white_space(#[trigger] s[i]) by {
            if i < shorter.len() {
                assert(shorter[i] == s[i]);
            }
        }
        len
    } else {
        assert(s.take(s.len() as int) =~= s);
        s.len() as int
    }
}

// ---- numbers ----

/// A number is written digit by digit: the digits of its tens, and then the one
/// of its ones. Zero to nine are one digit each.
pub proof fn law_decimal_digits(tens: nat, ones: nat)
    requires
        ones < 10,
    ensures
        text::decimal(ones).len() == 1,
        text::decimal(ones)[0] as int == '0' as int + ones,
        tens > 0 ==> text::decimal(tens * 10 + ones) == text::decimal(tens) + text::decimal(ones),
{
    if tens > 0 {
        let n = tens * 10 + ones;
        assert(n / 10 == tens && n % 10 == ones);
        assert(text::decimal(n) =~= text::decimal(tens) + text::decimal(ones));
    }
}

/// The same in base sixteen, where ten to fifteen are `a` to `f`.
pub proof fn law_hexadecimal_digits(sixteens: nat, ones: nat)
    requires
        ones < 16,
    ensures
        text::hexadecimal(ones).len() == 1,
        ones < 10 ==> text::hexadecimal(ones)[0] as int == '0' as int + ones,
        ones >= 10 ==> text::hexadecimal(ones)[0] as int == 'a' as int + ones - 10,
        sixteens > 0 ==> text::hexadecimal(sixteens * 16 + ones) == text::hexadecimal(sixteens)
            + text::hexadecimal(ones),
{
    if sixteens > 0 {
        let n = sixteens * 16 + ones;
        assert(n / 16 == sixteens && n % 16 == ones);
        assert(text::hexadecimal(n) =~= text::hexadecimal(sixteens) + text::hexadecimal(ones));
    }
}

/// Whether `s` is a run of digits.
pub open spec fn all_digits(s: Seq<char>) -> bool {
    s.len() > 0 && forall|i: int| 0 <= i < s.len() ==> '0' <= #[trigger] s[i] <= '9'
}

/// A number is read digit by digit: one more digit makes it ten times as large
/// and adds the digit, unless it no longer fits. One plus sign in front makes no
/// difference.
pub proof fn law_numbers_are_read_digit_by_digit(s: Seq<char>, c: char)
    requires
        all_digits(s),
        '0' <= c <= '9',
    ensures
        text::parsed_number(seq![c]) == Some((c as int - '0' as int) as nat),
        text::parsed_number(s.push(c)) == (match text::parsed_number(s) {
            Some(n) => if n * 10 + (c as int - '0' as int) <= usize::MAX {
                Some((n * 10 + (c as int - '0' as int)) as nat)
            } else {
                None
            },
            None => None,
        }),
        text::parsed_number(seq!['+'] + s) == text::parsed_number(s),
{
    let one = seq![c];
    assert(one.drop_last() =~= Seq::<char>::empty());
    assert(text::digits_value(one.drop_last()) == 0);
    assert(text::without_plus(one) == one);
    assert(one[0] == c);
    let longer = s.push(c);
    assert(s[0] != '+');
    assert(longer[0] == s[0]);
    assert(longer.drop_last() =~= s);
    assert forall|i: int| 0 <= i < longer.len() implies text::is_digit(#[trigger] longer[i]) by {
        if i < s.len() {
            assert(longer[i] == s[i]);
        }
    }
    assert forall|i: int| 0 <= i < s.len() implies text::is_digit(#[trigger] s[i]) by {}
    assert((seq!['+'] + s).skip(1) =~= s);
}

/// What is no run of digits behind at most one plus sign is no number.
pub proof fn law_other_texts_are_no_numbers(s: Seq<char>, at: int)
    requires
        0 <= at < s.len(),
        !('0' <= s[at] <= '9'),
        !(at == 0 && s[0] == '+' && s.len() > 1),
    ensures
        text::parsed_number(s) is None,
        text::parsed_number(seq![]) is None,
{
    let digits = text::without_plus(s);
    if s.len() > 1 && s.first() == '+' {
        assert(digits[at - 1] == s[at]);
        assert(!text::is_digit(digits[at - 1]));
    } else {
        assert(!text::is_digit(digits[at]));
    }
}

/// A clipped text is the start of the text, of the given length if there is as
/// much; repeating a character gives nothing but that character.
pub proof fn law_clipping_and_repeating(s: Seq<char>, c: char, n: nat)
    ensures
        text::clipped(s, n).is_prefix_of(s),
        text::clipped(s, n).len() == (if n <= s.len() {
            n
        } else {
            s.len()
        }),
        text::repeated(c, n).len() == n,
        forall|i: int| 0 <= i < n ==> #[trigger] text::repeated(c, n)[i] == c,
{
}

} // verus!
