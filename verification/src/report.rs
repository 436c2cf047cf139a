//! The output of a build: which of its lines report diagnostics, and what they
//! say.

use crate::check;
use crate::check::{Diagnostic, DiagnosticView, Severity};
use crate::text;
use regex::Regex;
use vstd::prelude::*;
use vstd::string::*;

verus! {

/// The form of a line of the compiler's output that reports a diagnostic.
pub const DIAGNOSTIC_PATTERN: &'static str =
    "^(?P<file>.+)\\((?P<line>\\d+),(?P<col>\\d+)\\): (?P<sev>error|warning) (?P<code>[A-Za-z0-9]+): (?P<msg>.*)$";

#[verifier::external_type_specification]
#[verifier::external_body]
pub struct ExRegex(regex::Regex);

#[verifier::external_type_specification]
#[verifier::external_body]
pub struct ExRegexError(regex::Error);

/// What `Regex::new` makes of `pattern`; `None` where it rejects it.
pub uninterp spec fn regex_compiled(pattern: Seq<char>) -> Option<Regex>;

/// `Regex::new`: compiles a pattern, or rejects it. Which of the two, and what
/// comes out, depends on the pattern alone.
pub assume_specification[ regex::Regex::new ](re: &str) -> (result: Result<
    regex::Regex,
    regex::Error,
>)
    ensures
        match result {
            Ok(compiled) => regex_compiled(re@) == Some(compiled),
            Err(_) => regex_compiled(re@) is None,
        },
;

/// What `Regex::captures` finds in `haystack`: the text of each capture group
/// in order, the whole match first, where a group that took no part has none.
/// `None` where nothing matches.
pub uninterp spec fn regex_groups(re: Regex, haystack: Seq<char>) -> Option<
    Seq<Option<Seq<char>>>,
>;

/// The text of an optional string.
pub open spec fn option_view(text: Option<String>) -> Option<Seq<char>> {
    match text {
        Some(s) => Some(s@),
        None => None,
    }
}

/// The texts of capture groups.
pub open spec fn group_views(groups: Seq<Option<String>>) -> Seq<Option<Seq<char>>> {
    Seq::new(groups.len(), |i: int| option_view(groups[i]))
}

/// `Regex::captures`: the text of each group of the first match in `haystack`,
/// which depends on the regex and the text alone.
#[verifier::external_body]
fn capture_groups(re: &Regex, haystack: &str) -> (result: Option<Vec<Option<String>>>)
    ensures
        match result {
            Some(groups) => regex_groups(*re, haystack@) == Some(group_views(groups@)),
            None => regex_groups(*re, haystack@) is None,
        },
{
    re.captures(haystack).map(
        |found| found.iter().map(|group| group.map(|m| m.as_str().to_string())).collect(),
    )
}

/// The parts of an output line that reports a diagnostic, as they are written
/// there.
#[derive(Debug)]
pub struct RawDiagnostic {
    pub file: String,
    pub line: String,
    pub col: String,
    pub severity: String,
    pub code: String,
    pub message: String,
}

/// The text of a [`RawDiagnostic`].
#[verifier::ext_equal]
pub struct RawView {
    pub file: Seq<char>,
    pub line: Seq<char>,
    pub col: Seq<char>,
    pub severity: Seq<char>,
    pub code: Seq<char>,
    pub message: Seq<char>,
}

impl View for RawDiagnostic {
    type V = RawView;

    open spec fn view(&self) -> RawView {
        RawView {
            file: self.file@,
            line: self.line@,
            col: self.col@,
            severity: self.severity@,
            code: self.code@,
            message: self.message@,
        }
    }
}

/// The texts of a list of reports.
pub open spec fn raw_views(raw: Seq<RawDiagnostic>) -> Seq<RawView> {
    Seq::new(raw.len(), |i: int| raw[i]@)
}

/// The report that the capture groups of [`DIAGNOSTIC_PATTERN`] hold: behind
/// the whole match the file, line, column, severity, code and message.
pub open spec fn report_of(groups: Seq<Option<Seq<char>>>) -> Option<RawView> {
    if groups.len() == 7 && (forall|i: int| 1 <= i < 7 ==> (#[trigger] groups[i]) is Some) {
        Some(
            RawView {
                file: groups[1]->0,
                line: groups[2]->0,
                col: groups[3]->0,
                severity: groups[4]->0,
                code: groups[5]->0,
                message: groups[6]->0,
            },
        )
    } else {
        None
    }
}

/// Names the capture groups of [`DIAGNOSTIC_PATTERN`]; `None` if `groups` are
/// not those of a match of it.
pub fn name_groups(groups: Vec<Option<String>>) -> (result: Option<RawDiagnostic>)
    ensures
        match result {
            Some(raw) => report_of(group_views(groups@)) == Some(raw@),
            None => report_of(group_views(groups@)) is None,
        },
{
    let ghost texts = group_views(groups@);
    if groups.len() != 7 {
        return None;
    }
    match (&groups[1], &groups[2], &groups[3], &groups[4], &groups[5], &groups[6]) {
        (Some(file), Some(line), Some(col), Some(severity), Some(code), Some(message)) => {
            assert forall|i: int| 1 <= i < 7 implies (#[trigger] texts[i]) is Some by {
                assert(i == 1 || i == 2 || i == 3 || i == 4 || i == 5 || i == 6);
            }
            Some(
                RawDiagnostic {
                    file: file.clone(),
                    line: line.clone(),
                    col: col.clone(),
                    severity: severity.clone(),
                    code: code.clone(),
                    message: message.clone(),
                },
            )
        },
        _ => {
            assert(texts[1] is None || texts[2] is None || texts[3] is None || texts[4] is None
                || texts[5] is None || texts[6] is None);
            None
        },
    }
}

/// The report in one line of output, white space around the line aside. A blank
/// line is none.
pub open spec fn report_in(re: Regex, line: Seq<char>) -> Option<RawView> {
    if text::trimmed(line).len() == 0 {
        None
    } else {
        match regex_groups(re, text::trimmed(line)) {
            Some(groups) => report_of(groups),
            None => None,
        }
    }
}

/// The reports in the lines of an output, in order.
pub open spec fn reports_in(re: Regex, lines: Seq<Seq<char>>) -> Seq<RawView>
    decreases lines.len(),
{
    if lines.len() == 0 {
        seq![]
    } else {
        let earlier = reports_in(re, lines.drop_last());
        match report_in(re, lines.last()) {
            Some(report) => earlier.push(report),
            None => earlier,
        }
    }
}

/// The regex engine does not accept [`DIAGNOSTIC_PATTERN`].
#[derive(Debug)]
pub struct PatternError;

/// Finds the diagnostics that `output` reports, about whatever file.
pub fn scan_output(output: &str) -> (result: Result<Vec<RawDiagnostic>, PatternError>)
    ensures
        match regex_compiled(DIAGNOSTIC_PATTERN@) {
            Some(re) => result matches Ok(raw) && raw_views(raw@) == reports_in(
                re,
                text::split_lines(output@),
            ),
            None => result is Err,
        },
{
    let re = match Regex::new(DIAGNOSTIC_PATTERN) {
        Ok(re) => re,
        Err(_) => {
            return Err(PatternError);
        },
    };
    let lines = text::lines_of(output);
    let ghost all = text::views(lines@);
    let mut found: Vec<RawDiagnostic> = Vec::new();
    let mut i: usize = 0;
    proof {
        assert(all.take(0) == Seq::<Seq<char>>::empty());
        assert(raw_views(found@) == Seq::<RawView>::empty());
    }
    while i < lines.len()
        invariant
            i <= lines@.len(),
            all == text::views(lines@),
            raw_views(found@) == reports_in(re, all.take(i as int)),
        decreases lines@.len() - i,
    {
        let line = text::trim(lines[i].as_str());
        let ghost before = raw_views(found@);
        assert(all.take(i + 1).drop_last() == all.take(i as int));
        // Blank lines are not worth a search: the pattern starts with a file.
        let groups = if line.as_str().unicode_len() == 0 {
            None
        } else {
            capture_groups(&re, line.as_str())
        };
        match groups {
            Some(groups) => {
                match name_groups(groups) {
                    Some(raw) => {
                        found.push(raw);
                        assert(raw_views(found@) == before.push(raw@));
                    },
                    None => {},
                }
            },
            None => {},
        }
        i += 1;
    }
    assert(all.take(i as int) == all);
    Ok(found)
}

/// A 1-indexed number as it is written, made 0-indexed. What is no number
/// counts as 1.
pub open spec fn zero_indexed(written: Seq<char>) -> int {
    let number = match text::parsed_number(written) {
        Some(n) => n as int,
        None => 1,
    };
    if number == 0 {
        0
    } else {
        number - 1
    }
}

fn to_zero_indexed(written: &str) -> (result: usize)
    ensures
        result == zero_indexed(written@),
{
    let number: usize = match text::parse_number(written) {
        Some(n) => n,
        None => 1,
    };
    number.saturating_sub(1)
}

/// Where the last ` [` of `message` stands.
pub open spec fn last_bracket(message: Seq<char>) -> Option<int>
    decreases message.len(),
{
    if message.len() < 2 {
        None
    } else if message[message.len() - 2] == ' ' && message.last() == '[' {
        Some(message.len() - 2)
    } else {
        last_bracket(message.drop_last())
    }
}

/// `message` without the ` [project]` that the build tool puts behind it.
pub open spec fn without_project(message: Seq<char>) -> Seq<char> {
    match last_bracket(message) {
        Some(at) => if message.last() == ']' {
            message.take(at)
        } else {
            message
        },
        None => message,
    }
}

fn strip_project(message: &str) -> (result: String)
    ensures
        result@ == without_project(message@),
{
    let chars = text::chars_of(message);
    let n: usize = chars.len();
    if n == 0 || chars[n - 1] != ']' {
        return message.to_owned();
    }
    let mut end: usize = n;
    assert(chars@.take(n as int) == chars@);
    while end >= 2 && !(chars[end - 2] == ' ' && chars[end - 1] == '[')
        invariant
            end <= n == chars@.len(),
            last_bracket(chars@.take(end as int)) == last_bracket(chars@),
        decreases end,
    {
        assert(chars@.take(end as int).drop_last() == chars@.take(end - 1));
        end -= 1;
    }
    if end >= 2 {
        assert(last_bracket(chars@) == Some(end - 2));
        assert(chars@.subrange(0, end - 2) == chars@.take(end - 2));
        text::string_of(&chars, 0, end - 2)
    } else {
        message.to_owned()
    }
}

/// The diagnostic that a report is about.
pub open spec fn diagnostic_of(raw: RawView) -> DiagnosticView {
    DiagnosticView {
        line: zero_indexed(raw.line),
        col: zero_indexed(raw.col),
        severity: if raw.severity == "error"@ {
            Severity::Error
        } else {
            Severity::Warning
        },
        code: raw.code,
        message: without_project(raw.message),
    }
}

/// Reads the numbers and the severity of a report, and takes the project off
/// its message.
pub fn read_report(raw: &RawDiagnostic) -> (result: Diagnostic)
    ensures
        result@ == diagnostic_of(raw@),
{
    let severity = if raw.severity == "error".to_owned() {
        Severity::Error
    } else {
        Severity::Warning
    };
    Diagnostic {
        line: to_zero_indexed(raw.line.as_str()),
        col: to_zero_indexed(raw.col.as_str()),
        severity,
        code: raw.code.clone(),
        message: strip_project(raw.message.as_str()),
    }
}

/// How a reported file compares with the edited one.
#[derive(Clone, Copy, Debug)]
pub struct FileMatch {
    /// Whether the two are the same file on disk; `None` if one of them could
    /// not be resolved.
    pub same_file: Option<bool>,
    /// Whether the two paths end in the same file name.
    pub same_name: bool,
}

impl FileMatch {
    /// Whether the report is taken to be about the edited file. Names only
    /// count where the files cannot be resolved.
    pub open spec fn is_target(self) -> bool {
        match self.same_file {
            Some(same) => same,
            None => self.same_name,
        }
    }

    /// Whether the report is taken to be about the edited file.
    pub fn matches_target(self) -> (result: bool)
        ensures
            result == self.is_target(),
    {
        match self.same_file {
            Some(same) => same,
            None => self.same_name,
        }
    }
}

/// The diagnostics of those reports that are about the edited file, in order.
pub open spec fn targeted(raw: Seq<RawView>, files: Seq<FileMatch>) -> Seq<DiagnosticView>
    recommends
        raw.len() == files.len(),
    decreases raw.len(),
{
    if raw.len() == 0 {
        seq![]
    } else {
        let earlier = targeted(raw.drop_last(), files.drop_last());
        if files.last().is_target() {
            earlier.push(diagnostic_of(raw.last()))
        } else {
            earlier
        }
    }
}

/// Keeps the reports that are about the edited file. `files` says of each
/// report how its file compares with the edited one.
pub fn parse_diagnostics(raw: &Vec<RawDiagnostic>, files: &Vec<FileMatch>) -> (result: Vec<
    Diagnostic,
>)
    requires
        raw@.len() == files@.len(),
    ensures
        check::diagnostic_views(result@) == targeted(raw_views(raw@), files@),
{
    let mut result: Vec<Diagnostic> = Vec::new();
    let ghost all = raw_views(raw@);
    let mut i: usize = 0;
    proof {
        assert(all.take(0) == Seq::<RawView>::empty());
        assert(check::diagnostic_views(result@) == Seq::<DiagnosticView>::empty());
    }
    while i < raw.len()
        invariant
            i <= raw@.len() == files@.len(),
            all == raw_views(raw@),
            check::diagnostic_views(result@) == targeted(all.take(i as int), files@.take(i as int)),
        decreases raw@.len() - i,
    {
        proof {
            assert(all.take(i + 1).drop_last() == all.take(i as int));
            assert(files@.take(i + 1).drop_last() == files@.take(i as int));
        }
        if files[i].matches_target() {
            let ghost before = check::diagnostic_views(result@);
            let diagnostic = read_report(&raw[i]);
            result.push(diagnostic);
            assert(check::diagnostic_views(result@) == before.push(diagnostic@));
        }
        i += 1;
    }
    proof {
        assert(all.take(i as int) == all);
        assert(files@.take(i as int) == files@);
    }
    result
}

} // verus!
