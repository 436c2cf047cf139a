//! Diagnostics: what is kept of a build's output, and how a check ends.

use crate::check;
use crate::check::{DiagnosticView, Severity};
use crate::report;
use crate::report::{FileMatch, RawView};
use crate::run;
use crate::run::{CheckEvent, StepView};
use crate::session;
use crate::text;
use regex::Regex;
use vstd::prelude::*;

verus! {

/// An error ranks above a warning, and the more serious of the two is the
/// error.
pub proof fn law_errors_rank_above_warnings(severity: Severity)
    ensures
        Severity::Warning.rank() < Severity::Error.rank(),
        severity.stronger(Severity::Error) == Severity::Error,
        Severity::Error.stronger(severity) == Severity::Error,
        severity.stronger(severity) == severity,
{
}

/// Of two severities the stronger one is an error if and only if one of them is.
pub proof fn law_stronger_severity(a: Severity, b: Severity)
    ensures
        a.stronger(b) == Severity::Error <==> a == Severity::Error || b == Severity::Error,
{
}

/// How far a check has come.
pub open spec fn progress(step: StepView) -> int {
    match step {
        StepView::AskVersion => 0,
        StepView::FindProject { .. } => 1,
        StepView::WriteProject { .. } => 2,
        StepView::Build { .. } => 3,
        StepView::CompareFiles { .. } => 4,
        StepView::Done(_) => 5,
    }
}

/// A check never goes back. It comes closer to its end with every step, but for
/// the directories without a project that it looks through.
pub proof fn law_check_makes_progress(step: StepView, event: CheckEvent)
    requires
        step.awaits(event),
        step.following(event) is Some,
    ensures
        progress(step) <= progress(step.following(event)->0) <= 5,
        progress(step) == progress(step.following(event)->0) <==> {
            &&& event matches CheckEvent::Directory(Some(extensions))
            &&& run::project_in(extensions@) is None
        },
{
}

/// Where a search for a project stands after it has looked into `directories`.
pub open spec fn searched(step: StepView, directories: Seq<Vec<Option<String>>>) -> StepView
    decreases directories.len(),
{
    if directories.len() == 0 {
        step
    } else {
        searched(step, directories.drop_last()).following(
            CheckEvent::Directory(Some(directories.last())),
        )->0
    }
}

/// The project that is built is in the nearest directory that has one. Only
/// where none has one a project is made up for the file.
pub proof fn law_nearest_project_is_built(
    framework: Seq<char>,
    directories: Seq<Vec<Option<String>>>,
    next: Vec<Option<String>>,
    at: int,
)
    requires
        forall|i: int|
            0 <= i < directories.len() ==> run::project_in(#[trigger] directories[i]@) is None,
    ensures
        ({
            let step = searched(StepView::FindProject { framework }, directories);
            &&& step.following(CheckEvent::Directory(None)) == Some(
                StepView::WriteProject { framework },
            )
            &&& run::is_first_project(next@, at) ==> step.following(
                CheckEvent::Directory(Some(next)),
            ) == Some(StepView::Build { entry: Some(at) })
        }),
{
    lemma_search_stays(framework, directories);
    if run::is_first_project(next@, at) {
        let chosen = choose|i: int| run::is_first_project(next@, i);
        assert(run::is_project(next@[chosen]) && run::is_project(next@[at]));
    }
}

proof fn lemma_search_stays(framework: Seq<char>, directories: Seq<Vec<Option<String>>>)
    requires
        forall|i: int|
            0 <= i < directories.len() ==> run::project_in(#[trigger] directories[i]@) is None,
    ensures
        searched(StepView::FindProject { framework }, directories) == (StepView::FindProject {
            framework,
        }),
    decreases directories.len(),
{
    if directories.len() > 0 {
        assert(forall|i: int|
            0 <= i < directories.len() - 1 ==> #[trigger] directories.drop_last()[i]
                == directories[i]);
        lemma_search_stays(framework, directories.drop_last());
        assert(run::project_in(directories[directories.len() - 1]@) is None);
    }
}

/// A check reports diagnostics only if the build ran: where the tool is
/// missing, the project cannot be written or the build cannot be run, it says
/// so.
pub proof fn law_check_outcome(step: StepView, event: CheckEvent)
    requires
        step.awaits(event),
        step.following(event) matches Some(StepView::Done(_)),
    ensures
        ({
            let message = step.following(event)->0->Done_0;
            &&& message is Finished <==> step is CompareFiles
            &&& message is ToolMissing <==> event == CheckEvent::Version(None)
            &&& message is Failed <==> ((event matches CheckEvent::Written(Err(_))) || (
            event matches CheckEvent::Built(Err(_))))
        }),
{
}

/// The lines of an output are judged one by one: what is found in two runs of
/// lines is found in both together, in order, and nothing is merged.
pub proof fn law_lines_are_judged_one_by_one(re: Regex, a: Seq<Seq<char>>, b: Seq<Seq<char>>)
    ensures
        report::reports_in(re, a + b) == report::reports_in(re, a) + report::reports_in(re, b),
    decreases b.len(),
{
    if b.len() == 0 {
        assert(a + b == a);
        assert(report::reports_in(re, b) == Seq::<RawView>::empty());
    } else {
        assert((a + b).drop_last() == a + b.drop_last());
        law_lines_are_judged_one_by_one(re, a, b.drop_last());
    }
}

/// The reports are judged one by one, too: what is kept of two runs of reports
/// is kept of both together, in order, and nothing is merged.
pub proof fn law_reports_are_judged_one_by_one(
    a: Seq<RawView>,
    a_files: Seq<FileMatch>,
    b: Seq<RawView>,
    b_files: Seq<FileMatch>,
)
    requires
        a.len() == a_files.len(),
        b.len() == b_files.len(),
    ensures
        report::targeted(a + b, a_files + b_files) == report::targeted(a, a_files)
            + report::targeted(b, b_files),
    decreases b.len(),
{
    if b.len() == 0 {
        assert(a + b == a);
        assert(a_files + b_files == a_files);
        assert(report::targeted(b, b_files) == Seq::<DiagnosticView>::empty());
    } else {
        assert((a + b).drop_last() == a + b.drop_last());
        assert((a_files + b_files).drop_last() == a_files + b_files.drop_last());
        law_reports_are_judged_one_by_one(a, a_files, b.drop_last(), b_files.drop_last());
    }
}

proof fn lemma_trimmed_push(s: Seq<char>, c: char)
    requires
        text::white_space(c),
    ensures
        text::trimmed(s.push(c)) == text::trimmed(s),
    decreases s.len(),
{
    let longer = s.push(c);
    if s.len() == 0 {
        assert(longer.skip(1) == s);
    } else if text::white_space(s.first()) {
        assert(longer.skip(1) == s.skip(1).push(c));
        lemma_trimmed_push(s.skip(1), c);
    } else {
        assert(longer.drop_last() == s);
    }
}

/// What is found in two outputs that a newline joins.
pub proof fn lemma_joined_outputs(re: Regex, a: Seq<char>, b: Seq<char>)
    ensures
        report::reports_in(re, text::split_lines(a.push('\n') + b)) == report::reports_in(
            re,
            text::split_lines(a),
        ) + report::reports_in(re, text::split_lines(b)),
    decreases a.len(),
{
    let whole = a.push('\n') + b;
    let end = text::line_end(a) as int;
    text::lemma_line_end_found(a);
    text::lemma_line_end(whole, end);
    let first = text::strip_cr(whole.take(end));
    let rest = text::split_lines(whole.skip(end + 1));
    let of_rest = report::reports_in(re, rest);
    law_lines_are_judged_one_by_one(re, seq![first], rest);
    assert(whole.take(end) == a.take(end));
    if end < a.len() {
        let later = a.skip(end + 1);
        assert(whole.skip(end + 1) == later.push('\n') + b);
        lemma_joined_outputs(re, later, b);
        law_lines_are_judged_one_by_one(re, seq![first], text::split_lines(later));
        assert(report::reports_in(re, seq![first]) + of_rest == report::reports_in(re, seq![first])
            + report::reports_in(re, text::split_lines(later)) + report::reports_in(
            re,
            text::split_lines(b),
        ));
    } else {
        assert(whole.skip(end + 1) == b);
        assert(a.take(end) == a);
        lemma_one_line(re, first);
        if a.len() == 0 {
            assert(first == Seq::<char>::empty());
            assert(report::reports_in(re, text::split_lines(a)) == Seq::<RawView>::empty());
        } else {
            lemma_one_line(re, a);
            if a.last() == '\r' {
                lemma_trimmed_push(a.drop_last(), '\r');
                assert(a.drop_last().push('\r') == a);
            }
        }
    }
}

/// What is found in a single line.
pub proof fn lemma_one_line(re: Regex, line: Seq<char>)
    ensures
        report::reports_in(re, seq![line]) == (match report::report_in(re, line) {
            Some(found) => seq![found],
            None => seq![],
        }),
{
    let alone = seq![line];
    assert(alone.drop_last() == Seq::<Seq<char>>::empty());
    assert(report::reports_in(re, alone.drop_last()) == Seq::<RawView>::empty());
    assert(alone.last() == line);
    assert(report::reports_in(re, alone) == (match report::report_in(re, line) {
        Some(found) => seq![found],
        None => seq![],
    }));
}

/// How the file of each report compares with the edited one, where `files` says
/// so of every path.
pub open spec fn compared(
    found: Seq<RawView>,
    files: spec_fn(Seq<char>) -> FileMatch,
) -> Seq<FileMatch> {
    Seq::new(found.len(), |i: int| files(found[i].file))
}

/// The diagnostics that are read from an output, where `files` says of every
/// path how it compares with the edited file.
pub open spec fn diagnostics_in(
    re: Regex,
    output: Seq<char>,
    files: spec_fn(Seq<char>) -> FileMatch,
) -> Seq<DiagnosticView> {
    let found = report::reports_in(re, text::split_lines(output));
    report::targeted(found, compared(found, files))
}

/// Two outputs joined by a newline give the diagnostics of the first and then
/// those of the second.
pub proof fn law_joined_outputs_give_both(
    re: Regex,
    a: Seq<char>,
    b: Seq<char>,
    files: spec_fn(Seq<char>) -> FileMatch,
)
    ensures
        diagnostics_in(re, a.push('\n') + b, files) == diagnostics_in(re, a, files)
            + diagnostics_in(re, b, files),
{
    lemma_joined_outputs(re, a, b);
    let first = report::reports_in(re, text::split_lines(a));
    let second = report::reports_in(re, text::split_lines(b));
    assert(compared(first + second, files) == compared(first, files) + compared(second, files));
    law_reports_are_judged_one_by_one(
        first,
        compared(first, files),
        second,
        compared(second, files),
    );
}

/// A line of output that reports nothing makes no difference, wherever it
/// stands.
pub proof fn law_unrelated_lines_are_ignored(
    re: Regex,
    before: Seq<Seq<char>>,
    line: Seq<char>,
    after: Seq<Seq<char>>,
)
    requires
        report::report_in(re, line) is None,
    ensures
        report::reports_in(re, before + seq![line] + after) == report::reports_in(
            re,
            before + after,
        ),
{
    law_lines_are_judged_one_by_one(re, before + seq![line], after);
    law_lines_are_judged_one_by_one(re, before, seq![line]);
    law_lines_are_judged_one_by_one(re, before, after);
    lemma_one_line(re, line);
}

/// Reports about other files are ignored; if all are about the edited file, all
/// are kept, in order.
pub proof fn law_other_files_are_ignored(raw: Seq<RawView>, files: Seq<FileMatch>)
    requires
        raw.len() == files.len(),
    ensures
        (forall|i: int| 0 <= i < files.len() ==> !(#[trigger] files[i]).is_target())
            ==> report::targeted(raw, files) == Seq::<DiagnosticView>::empty(),
        (forall|i: int| 0 <= i < files.len() ==> (#[trigger] files[i]).is_target())
            ==> report::targeted(raw, files) == Seq::new(
            raw.len(),
            |i: int| report::diagnostic_of(raw[i]),
        ),
    decreases raw.len(),
{
    if raw.len() > 0 {
        law_other_files_are_ignored(raw.drop_last(), files.drop_last());
        assert(forall|i: int|
            0 <= i < files.len() - 1 ==> #[trigger] files.drop_last()[i] == files[i]);
        if forall|i: int| 0 <= i < files.len() ==> !(#[trigger] files[i]).is_target() {
            assert(!files[files.len() - 1].is_target());
        }
        if forall|i: int| 0 <= i < files.len() ==> (#[trigger] files[i]).is_target() {
            assert(files[files.len() - 1].is_target());
            assert(report::targeted(raw, files) == Seq::new(
                raw.len(),
                |i: int| report::diagnostic_of(raw[i]),
            ));
        }
    }
}

/// The diagnostics of a line are all those that are about it, and no others.
pub proof fn law_line_has_its_diagnostics(
    diagnostics: Seq<DiagnosticView>,
    row: int,
    diagnostic: DiagnosticView,
)
    ensures
        check::on_line(diagnostics, row).contains(diagnostic) <==> diagnostics.contains(diagnostic)
            && diagnostic.line == row,
    decreases diagnostics.len(),
{
    if diagnostics.len() > 0 {
        let earlier = diagnostics.drop_last();
        let last = diagnostics.last();
        law_line_has_its_diagnostics(earlier, row, diagnostic);
        assert(diagnostics == earlier.push(last));
        let found = check::on_line(earlier, row);
        assert(diagnostics.contains(diagnostic) <==> earlier.contains(diagnostic) || diagnostic
            == last) by {
            lemma_push_contains(earlier, last, diagnostic);
        }
        lemma_push_contains(found, last, diagnostic);
    }
}

proof fn lemma_push_contains<A>(s: Seq<A>, last: A, x: A)
    ensures
        s.push(last).contains(x) <==> s.contains(x) || x == last,
{
    if s.contains(x) {
        let i = choose|i: int| 0 <= i < s.len() && s[i] == x;
        assert(s.push(last)[i] == x);
    }
    if x == last {
        assert(s.push(last)[s.len() as int] == x);
    }
    if s.push(last).contains(x) {
        let i = choose|i: int| 0 <= i < s.push(last).len() && s.push(last)[i] == x;
        if i < s.len() {
            assert(s[i] == x);
        }
    }
}

proof fn lemma_hexadecimal_injective(a: nat, b: nat)
    requires
        text::hexadecimal(a) == text::hexadecimal(b),
    ensures
        a == b,
    decreases a,
{
    let s = text::hexadecimal(a);
    assert(text::digit((a % 16) as int) == s.last());
    assert(text::digit((b % 16) as int) == s.last());
    assert(a % 16 == b % 16);
    lemma_hexadecimal_len(a / 16);
    lemma_hexadecimal_len(b / 16);
    if a >= 16 && b >= 16 {
        assert(s.drop_last() == text::hexadecimal(a / 16));
        assert(s.drop_last() == text::hexadecimal(b / 16));
        lemma_hexadecimal_injective(a / 16, b / 16);
    }
}

proof fn lemma_hexadecimal_len(n: nat)
    ensures
        text::hexadecimal(n).len() > 0,
    decreases n,
{
    if n >= 16 {
        lemma_hexadecimal_len(n / 16);
    }
}

/// Repeat checks of a file share one throwaway project, whatever they build for
/// and however the file was named: its place depends on the file alone, as long
/// as its hash does.
pub proof fn law_repeat_checks_share_a_project<P>(
    resolved: Option<P>,
    given: P,
    again_resolved: Option<P>,
    again_given: P,
    framework: Seq<char>,
    again_framework: Seq<char>,
    hash: spec_fn(P) -> u64,
    shown: spec_fn(P) -> Seq<char>,
)
    requires
        run::absolute_of(resolved, given) == run::absolute_of(again_resolved, again_given),
    ensures
        ({
            let file = run::absolute_of(resolved, given);
            let again = run::absolute_of(again_resolved, again_given);
            let first = run::throwaway(framework, shown(file), hash(file));
            let second = run::throwaway(again_framework, shown(again), hash(again));
            &&& first.place == second.place
            &&& first.place == run::project_place(hash(file))
        }),
{
}

/// The throwaway projects of files with different hashes are kept apart.
pub proof fn law_projects_are_kept_apart(a: u64, b: u64)
    requires
        run::project_place(a) == run::project_place(b),
    ensures
        a == b,
{
    assert(run::project_place(a)[1] == run::project_place(b)[1]);
    lemma_hexadecimal_injective(a as nat, b as nat);
}

/// Whether `part` stands in `contents` at `at`.
pub open spec fn holds_at(contents: Seq<char>, at: int, part: Seq<char>) -> bool {
    &&& 0 <= at
    &&& at + part.len() <= contents.len()
    &&& contents.subrange(at, at + part.len()) == part
}

/// A throwaway project builds for the framework and compiles the file, and no
/// other, as long as neither of the two texts brings an element of its own.
pub proof fn law_throwaway_project_compiles_one_file(framework: Seq<char>, path: Seq<char>)
    requires
        !framework.contains('<'),
        !path.contains('<'),
    ensures
        ({
            let contents = run::project_text(framework, path);
            let target = "<TargetFramework>"@ + framework + "</TargetFramework>"@;
            let compile = "<Compile Include=\""@ + path + "\" />"@;
            &&& exists|at: int| holds_at(contents, at, target)
            &&& exists|at: int|
                holds_at(contents, at, compile) && forall|i: int| #[trigger]
                    holds_at(contents, i, "<Compile"@) ==> i == at
        }),
{
    let contents = run::project_text(framework, path);
    let head = run::project_head();
    let middle = run::project_middle();
    let tail = run::project_tail();
    let target = "<TargetFramework>"@ + framework + "</TargetFramework>"@;
    let compile = "<Compile Include=\""@ + path + "\" />"@;
    lemma_project_parts();
    let before = head.len() + framework.len();
    let target_at = head.len() - "<TargetFramework>"@.len();
    assert(contents.subrange(target_at, target_at + target.len()) =~= target) by {
        assert(head.skip(target_at) == "<TargetFramework>"@);
        assert(middle.take("</TargetFramework>"@.len() as int) == "</TargetFramework>"@);
        assert(contents.subrange(target_at, target_at + target.len()) =~= head.skip(target_at)
            + framework + middle.take("</TargetFramework>"@.len() as int));
    }
    assert(holds_at(contents, target_at, target));
    let start = "<Compile Include=\""@.len() as int;
    let at = before + middle.len() - start;
    assert(contents.subrange(at, at + compile.len()) =~= compile) by {
        assert(contents.subrange(at, at + compile.len()) =~= middle.skip(middle.len() - start)
            + path + tail.take("\" />"@.len() as int));
    }
    assert(holds_at(contents, at, compile));
    assert forall|i: int| #[trigger] holds_at(contents, i, "<Compile"@) implies i == at by {
        let found = contents.subrange(i, i + "<Compile"@.len());
        assert(found[0] == contents[i] && found[1] == contents[i + 1]);
        lemma_one_element(framework, path, i);
    }
}

/// Whether an element whose name starts with `C` stands at `at`.
spec fn opens_c(contents: Seq<char>, at: int) -> bool {
    0 <= at < contents.len() - 1 && contents[at] == '<' && contents[at + 1] == 'C'
}

proof fn lemma_project_parts()
    ensures
        "<Compile"@.len() == 8,
        "<Compile"@[0] == '<',
        "<Compile"@[1] == 'C',
        run::project_head().len() >= "<TargetFramework>"@.len(),
        run::project_head().skip(run::project_head().len() - "<TargetFramework>"@.len())
            == "<TargetFramework>"@,
        run::project_middle().len() >= "</TargetFramework>"@.len() + "<Compile Include=\""@.len(),
        run::project_middle().take("</TargetFramework>"@.len() as int) == "</TargetFramework>"@,
        run::project_middle().skip(run::project_middle().len() - "<Compile Include=\""@.len())
            == "<Compile Include=\""@,
        run::project_tail().len() >= "\" />"@.len(),
        run::project_tail().take("\" />"@.len() as int) == "\" />"@,
{
    reveal_strlit("<Compile");
    reveal_strlit("<TargetFramework>");
    reveal_strlit("</TargetFramework>");
    reveal_strlit("<Compile Include=\"");
    reveal_strlit("\" />");
    reveal_strlit("<Project Sdk=\"Microsoft.NET.Sdk\">\n  <PropertyGroup>\n    <TargetFramework>");
    reveal_strlit("</TargetFramework>\n    <Nullable>disable</Nullable>\n    <EnableDefaultCompileItems>false</EnableDefaultCompileItems>\n    <GenerateAssemblyInfo>false</GenerateAssemblyInfo>\n  </PropertyGroup>\n  <ItemGroup>\n    <Compile Include=\"");
    reveal_strlit("\" />\n  </ItemGroup>\n</Project>\n");
}

proof fn lemma_parts_elements(at: int)
    ensures
        !opens_c(run::project_head(), at),
        run::project_head().last() == '>',
        run::project_head().len() > 0,
        opens_c(run::project_middle(), at) ==> at == run::project_middle().len()
            - "<Compile Include=\""@.len(),
        run::project_middle().last() == '"',
        run::project_middle().len() > 0,
        !opens_c(run::project_tail(), at),
        run::project_tail().last() == '\n',
        run::project_tail().len() > 0,
{
    reveal_strlit("<Compile Include=\"");
    reveal_strlit("<Project Sdk=\"Microsoft.NET.Sdk\">\n  <PropertyGroup>\n    <TargetFramework>");
    reveal_strlit("</TargetFramework>\n    <Nullable>disable</Nullable>\n    <EnableDefaultCompileItems>false</EnableDefaultCompileItems>\n    <GenerateAssemblyInfo>false</GenerateAssemblyInfo>\n  </PropertyGroup>\n  <ItemGroup>\n    <Compile Include=\"");
    reveal_strlit("\" />\n  </ItemGroup>\n</Project>\n");
}

proof fn lemma_one_element(framework: Seq<char>, path: Seq<char>, at: int)
    requires
        !framework.contains('<'),
        !path.contains('<'),
        opens_c(run::project_text(framework, path), at),
    ensures
        at == run::project_head().len() + framework.len() + run::project_middle().len()
            - "<Compile Include=\""@.len(),
{
    let contents = run::project_text(framework, path);
    let head = run::project_head();
    let middle = run::project_middle();
    let tail = run::project_tail();
    let a = head.len() as int;
    let b = a + framework.len();
    let c = b + middle.len();
    let d = c + path.len();
    if at < a {
        lemma_parts_elements(at);
        assert(contents[at] == head[at]);
        if at + 1 < a {
            assert(contents[at + 1] == head[at + 1]);
        }
    } else if at < b {
        assert(contents[at] == framework[at - a]);
        assert(framework.contains('<'));
    } else if at < c {
        lemma_parts_elements(at - b);
        assert(contents[at] == middle[at - b]);
        if at + 1 < c {
            assert(contents[at + 1] == middle[at + 1 - b]);
        }
    } else if at < d {
        assert(contents[at] == path[at - c]);
        assert(path.contains('<'));
    } else {
        lemma_parts_elements(at - d);
        assert(contents[at] == tail[at - d]);
        assert(contents[at + 1] == tail[at + 1 - d]);
    }
}

/// A number that is written in base ten is read as itself.
pub proof fn law_numbers_read_back(n: nat)
    requires
        n <= usize::MAX,
    ensures
        text::parsed_number(text::decimal(n)) == Some(n),
{
    lemma_decimal_digits(n);
    let s = text::decimal(n);
    assert(s.first() != '+') by {
        assert(text::is_digit(s[0]));
    }
}

proof fn lemma_decimal_digits(n: nat)
    ensures
        text::decimal(n).len() > 0,
        forall|i: int|
            0 <= i < text::decimal(n).len() ==> text::is_digit(#[trigger] text::decimal(n)[i]),
        text::digits_value(text::decimal(n)) == n,
    decreases n,
{
    let s = text::decimal(n);
    if n < 10 {
        assert(s.drop_last() == Seq::<char>::empty());
        assert(text::digits_value(s.drop_last()) == 0);
        assert(s.last() == text::digit(n as int));
    } else {
        lemma_decimal_digits(n / 10);
        assert(s.drop_last() == text::decimal(n / 10));
        assert(s.last() == text::digit((n % 10) as int));
    }
}

/// The number that the gutter shows for a line is the one by which the compiler
/// points at it.
pub proof fn law_line_numbers_agree(row: nat)
    requires
        row < usize::MAX,
    ensures
        report::zero_indexed(text::decimal(row + 1)) == row,
{
    law_numbers_read_back(row + 1);
}

/// As soon as there is a diagnostic there is one that represents all of them:
/// an error if there is any.
pub proof fn law_headline_is_an_error_if_there_is_one(diagnostics: Seq<DiagnosticView>)
    requires
        diagnostics.len() > 0,
    ensures
        diagnostics.contains(session::headline(diagnostics)),
        session::error_count(diagnostics) > 0 <==> session::headline(diagnostics).severity
            == Severity::Error,
{
    lemma_headline_exists(diagnostics, 0);
    let at = choose|at: int| session::is_headline(diagnostics, at);
    assert(diagnostics[at] == session::headline(diagnostics));
    lemma_error_count(diagnostics);
}

proof fn lemma_headline_exists(diagnostics: Seq<DiagnosticView>, from: int)
    requires
        0 <= from <= diagnostics.len(),
        diagnostics.len() > 0,
        forall|i: int| 0 <= i < from ==> (#[trigger] diagnostics[i]).severity != Severity::Error,
    ensures
        exists|at: int| session::is_headline(diagnostics, at),
    decreases diagnostics.len() - from,
{
    if from == diagnostics.len() {
        assert(session::is_headline(diagnostics, 0));
    } else if diagnostics[from].severity == Severity::Error {
        assert(session::is_headline(diagnostics, from));
    } else {
        lemma_headline_exists(diagnostics, from + 1);
    }
}

proof fn lemma_error_count(diagnostics: Seq<DiagnosticView>)
    ensures
        session::error_count(diagnostics) > 0 <==> exists|i: int|
            0 <= i < diagnostics.len() && (#[trigger] diagnostics[i]).severity == Severity::Error,
    decreases diagnostics.len(),
{
    if diagnostics.len() > 0 {
        let earlier = diagnostics.drop_last();
        lemma_error_count(earlier);
        assert(forall|i: int| 0 <= i < earlier.len() ==> #[trigger] earlier[i] == diagnostics[i]);
        if session::error_count(diagnostics) > 0 {
            if diagnostics.last().severity == Severity::Error {
                assert(diagnostics[diagnostics.len() - 1].severity == Severity::Error);
            } else {
                let i = choose|i: int|
                    0 <= i < earlier.len() && (#[trigger] earlier[i]).severity == Severity::Error;
                assert(diagnostics[i].severity == Severity::Error);
            }
        }
        if exists|i: int|
            0 <= i < diagnostics.len() && (#[trigger] diagnostics[i]).severity == Severity::Error {
            let i = choose|i: int|
                0 <= i < diagnostics.len() && (#[trigger] diagnostics[i]).severity
                    == Severity::Error;
            if i < earlier.len() {
                assert(earlier[i].severity == Severity::Error);
            }
        }
    }
}

} // verus!
