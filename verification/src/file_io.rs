//! The file format: text lines on one side, file contents on the other.

use crate::text;
use vstd::prelude::*;

verus! {

/// The lines of a buffer on a file that holds `raw`, or on a file that does not
/// exist yet. There is always at least one line.
pub open spec fn loaded(raw: Option<Seq<char>>) -> Seq<Seq<char>> {
    match raw {
        Some(contents) => if text::split_lines(contents).len() == 0 {
            seq![seq![]]
        } else {
            text::split_lines(contents)
        },
        None => seq![seq![]],
    }
}

/// The contents of a file that a buffer is saved to.
pub open spec fn stored(lines: Seq<Seq<char>>) -> Seq<char> {
    if lines.len() == 0 {
        seq!['\n']
    } else {
        text::terminated(lines)
    }
}

/// Turns a file's contents into lines, or gives a single empty line if the
/// file does not exist yet (a brand new buffer, like `nano` would give you).
pub fn load_or_create(raw: Option<&str>) -> (lines: Vec<String>)
    ensures
        text::views(lines@) == loaded(
            match raw {
                Some(contents) => Some(contents@),
                None => None,
            },
        ),
        lines@.len() > 0,
{
    let mut lines: Vec<String> = match raw {
        Some(contents) => text::lines_of(contents),
        None => Vec::new(),
    };
    if lines.len() == 0 {
        proof {
            if raw is Some {
                assert(text::views(lines@).len() == 0);
            }
        }
        lines.push(String::new());
        assert(text::views(lines@) == seq![Seq::<char>::empty()]);
    } else {
        assert(text::views(lines@).len() > 0);
    }
    lines
}

/// The contents to write to disk for the buffer, always ending in a trailing
/// newline.
pub fn save(lines: &Vec<String>) -> (contents: String)
    ensures
        contents@ == stored(text::views(lines@)),
        contents@.len() > 0 && contents@.last() == '\n',
{
    if lines.len() == 0 {
        let mut contents = String::new();
        contents.push('\n');
        assert(contents@ == seq!['\n']);
        contents
    } else {
        text::terminate_lines(lines)
    }
}

} // verus!
