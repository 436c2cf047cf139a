//! What is read from a build's output, and which way a check goes.

use crate::check;
use crate::check::{CheckMessage, CheckerView, DiagnosticView, MessageView, Received, Severity};
use crate::laws::checks;
use crate::report;
use crate::report::{FileMatch, RawView};
use crate::run;
use crate::run::{CheckEvent, StepView};
use crate::text;
use regex::Regex;
use vstd::prelude::*;

verus! {

// ---- reports ----

/// The pattern of a line that reports a diagnostic: a file, a line and a column
/// in round brackets, the word for the severity, a code and a message.
pub proof fn law_pattern_of_a_report()
    ensures
        report::DIAGNOSTIC_PATTERN@
            == "^(?P<file>.+)\\((?P<line>\\d+),(?P<col>\\d+)\\): (?P<sev>error|warning) (?P<code>[A-Za-z0-9]+): (?P<msg>.*)$"@,
{
}

/// A line reports what the groups of the pattern hold in it, white space around
/// it aside: the file, the line, the column, the severity, the code and the
/// message, in this order. A line that the pattern does not match, or a blank
/// one, reports nothing.
pub proof fn law_line_reports_what_the_pattern_finds(re: Regex, line: Seq<char>)
    ensures
        ({
            let found = report::regex_groups(re, text::trimmed(line));
            let reported = report::reports_in(re, seq![line]);
            &&& text::trimmed(line).len() == 0 ==> reported.len() == 0
            &&& found is None ==> reported.len() == 0
            &&& found matches Some(g) ==> (g.len() != 7 || g[1] is None || g[2] is None || g[3]
                is None || g[4] is None || g[5] is None || g[6] is None ==> reported.len() == 0)
            &&& text::trimmed(line).len() > 0 ==> (found matches Some(g) ==> g.len() == 7 && g[1]
                is Some && g[2] is Some && g[3] is Some && g[4] is Some && g[5] is Some && g[6]
                is Some ==> reported == seq![
                RawView {
                    file: g[1]->0,
                    line: g[2]->0,
                    col: g[3]->0,
                    severity: g[4]->0,
                    code: g[5]->0,
                    message: g[6]->0,
                },
            ])
        }),
{
    checks::lemma_one_line(re, line);
}

/// A report of an error gives an error and any other a warning, with the code as
/// it is written. Lines and columns count from one in a report and from zero in
/// a diagnostic; what is no number counts as one.
pub proof fn law_report_gives_a_diagnostic(raw: RawView)
    ensures
        ({
            let d = report::diagnostic_of(raw);
            &&& d.severity == Severity::Error <==> raw.severity == "error"@
            &&& d.code == raw.code
            &&& text::parsed_number(raw.line) matches Some(n) ==> d.line == (if n > 0 {
                n - 1
            } else {
                0
            })
            &&& text::parsed_number(raw.line) is None ==> d.line == 0
            &&& text::parsed_number(raw.col) matches Some(n) ==> d.col == (if n > 0 {
                n - 1
            } else {
                0
            })
            &&& text::parsed_number(raw.col) is None ==> d.col == 0
        }),
{
}

/// Whether a space and an opening bracket stand in `message` at `at`.
pub open spec fn bracket_at(message: Seq<char>, at: int) -> bool {
    0 <= at < message.len() - 1 && message[at] == ' ' && message[at + 1] == '['
}

/// A message that ends in a closing bracket is cut off at the last space that an
/// opening bracket follows. Any other message is kept as it is.
pub proof fn law_project_is_taken_off(raw: RawView, at: int)
    ensures
        ({
            let message = raw.message;
            let kept = report::diagnostic_of(raw).message;
            let closed = message.len() > 0 && message.last() == ']';
            &&& closed && bracket_at(message, at) && (forall|i: int|
                at < i ==> !#[trigger] bracket_at(message, i)) ==> kept == message.take(at)
            &&& !closed ==> kept == message
            &&& (forall|i: int| !#[trigger] bracket_at(message, i)) ==> kept == message
        }),
{
    let message = raw.message;
    lemma_last_bracket(message);
    match report::last_bracket(message) {
        Some(last) => {
            assert(bracket_at(message, last));
            if bracket_at(message, at) && (forall|i: int|
                at < i ==> !#[trigger] bracket_at(message, i)) {
                assert(!(at < last));
                assert(!(last < at));
            }
        },
        None => {
            assert(!bracket_at(message, at));
        },
    }
}

proof fn lemma_last_bracket(message: Seq<char>)
    ensures
        report::last_bracket(message) matches Some(last) ==> bracket_at(message, last) && forall|
            i: int,
        |
            last < i ==> !#[trigger] bracket_at(message, i),
        report::last_bracket(message) is None ==> forall|i: int| !#[trigger] bracket_at(message, i),
    decreases message.len(),
{
    if message.len() >= 2 && !(message[message.len() - 2] == ' ' && message.last() == '[') {
        let shorter = message.drop_last();
        lemma_last_bracket(shorter);
        assert forall|i: int| #[trigger] bracket_at(message, i) implies bracket_at(shorter, i) by {
            assert(i != message.len() - 2);
        }
        if report::last_bracket(shorter) is Some {
            assert(bracket_at(message, report::last_bracket(shorter)->0));
        }
    }
}

/// A report is kept if its file is the edited one, or, where that cannot be
/// found out, if it has the same name.
pub proof fn law_report_is_kept_for_the_file(raw: RawView, file: FileMatch)
    ensures
        ({
            let kept = report::targeted(seq![raw], seq![file]);
            let about = file.same_file == Some(true) || (file.same_file is None && file.same_name);
            &&& about ==> kept == seq![report::diagnostic_of(raw)]
            &&& !about ==> kept.len() == 0
        }),
{
    let raws = seq![raw];
    let files = seq![file];
    assert(raws.drop_last() =~= Seq::<RawView>::empty());
    assert(report::targeted(raws.drop_last(), files.drop_last()) =~= Seq::<
        DiagnosticView,
    >::empty());
    assert(raws.last() == raw && files.last() == file);
    if file.same_file == Some(true) || (file.same_file is None && file.same_name) {
        assert(report::targeted(raws, files) =~= seq![report::diagnostic_of(raw)]);
    }
}

/// The diagnostics of a line are picked one by one, in order.
pub proof fn law_diagnostics_of_a_line_keep_their_order(
    a: Seq<DiagnosticView>,
    b: Seq<DiagnosticView>,
    d: DiagnosticView,
    row: int,
)
    ensures
        check::on_line(a + b, row) == check::on_line(a, row) + check::on_line(b, row),
        check::on_line(seq![d], row) == (if d.line == row {
            seq![d]
        } else {
            seq![]
        }),
    decreases b.len(),
{
    let one = seq![d];
    assert(one.drop_last() =~= Seq::<DiagnosticView>::empty());
    assert(check::on_line(one.drop_last(), row) =~= Seq::<DiagnosticView>::empty());
    assert(one.last() == d);
    assert(check::on_line(one, row) =~= (if d.line == row {
        seq![d]
    } else {
        seq![]
    }));
    if b.len() == 0 {
        assert(a + b =~= a);
        assert(check::on_line(b, row) =~= Seq::<DiagnosticView>::empty());
    } else {
        assert((a + b).drop_last() =~= a + b.drop_last());
        law_diagnostics_of_a_line_keep_their_order(a, b.drop_last(), d, row);
        assert(check::on_line(a + b, row) =~= check::on_line(a, row) + check::on_line(b, row));
    }
}

// ---- the course of a check ----

/// The framework is named after what stands in front of the first dot of the
/// version, white space around it aside.
pub proof fn law_framework_is_the_major_version(major: Seq<char>, rest: Seq<char>)
    requires
        !major.contains('.'),
        rest.len() > 0 ==> rest[0] == '.',
    ensures
        run::framework_of(major + rest) == "net"@ + text::trimmed(major) + ".0"@,
{
    lemma_before_dot(major, rest);
}

proof fn lemma_before_dot(major: Seq<char>, rest: Seq<char>)
    requires
        !major.contains('.'),
        rest.len() > 0 ==> rest[0] == '.',
    ensures
        run::before_dot(major + rest) == major,
    decreases major.len(),
{
    let whole = major + rest;
    if major.len() == 0 {
        assert(whole =~= rest);
    } else {
        assert(major.contains(major[0]));
        assert(whole.skip(1) =~= major.skip(1) + rest);
        assert(!major.skip(1).contains('.')) by {
            if major.skip(1).contains('.') {
                let i = choose|i: int| 0 <= i < major.skip(1).len() && major.skip(1)[i] == '.';
                assert(major[i + 1] == '.');
            }
        }
        lemma_before_dot(major.skip(1), rest);
        assert(seq![major[0]] + major.skip(1) =~= major);
    }
}

/// Whether the entry at `at` is the first of a directory whose extension is
/// `csproj`.
pub open spec fn first_csproj(extensions: Seq<Option<String>>, at: int) -> bool {
    &&& 0 <= at < extensions.len()
    &&& extensions[at] is Some && extensions[at]->0@ == "csproj"@
    &&& forall|i: int|
        0 <= i < at ==> !((#[trigger] extensions[i]) is Some && extensions[i]->0@ == "csproj"@)
}

/// Which step follows on each event of a check, from the tool's version to the
/// diagnostics.
pub proof fn law_each_step_of_a_check(
    framework: Seq<char>,
    entry: Option<int>,
    stdout: Vec<u8>,
    extensions: Vec<Option<String>>,
    at: int,
    found: Seq<RawView>,
    files: Vec<FileMatch>,
    reason: String,
)
    ensures
        ({
            let ask = StepView::AskVersion;
            let find = StepView::FindProject { framework };
            let write = StepView::WriteProject { framework };
            let build = StepView::Build { entry };
            let compare = StepView::CompareFiles { found };
            let failed = Some(StepView::Done(MessageView::Failed(reason@)));
            &&& ask.following(CheckEvent::Version(None)) == Some(
                StepView::Done(MessageView::ToolMissing),
            )
            &&& ask.following(CheckEvent::Version(Some(stdout))) == Some(
                StepView::FindProject { framework: run::framework_of(text::utf8_lossy(stdout@)) },
            )
            &&& first_csproj(extensions@, at) ==> find.following(
                CheckEvent::Directory(Some(extensions)),
            ) == Some(StepView::Build { entry: Some(at) })
            &&& (forall|i: int| !#[trigger] first_csproj(extensions@, i)) ==> find.following(
                CheckEvent::Directory(Some(extensions)),
            ) == Some(find)
            &&& find.following(CheckEvent::Directory(None)) == Some(write)
            &&& write.following(CheckEvent::Written(Ok(()))) == Some(
                StepView::Build { entry: None },
            )
            &&& write.following(CheckEvent::Written(Err(reason))) == failed
            &&& build.following(CheckEvent::Built(Err(reason))) == failed
            &&& compare.following(CheckEvent::Compared(files)) == Some(
                StepView::Done(MessageView::Finished(report::targeted(found, files@))),
            )
        }),
{
    assert forall|i: int| #[trigger] run::is_first_project(extensions@, i) implies first_csproj(
        extensions@,
        i,
    ) by {
        assert forall|j: int| 0 <= j < i implies !((#[trigger] extensions@[j]) is Some
            && extensions@[j]->0@ == "csproj"@) by {
            assert(!run::is_project(extensions@[j]));
        }
    }
    if first_csproj(extensions@, at) {
        assert forall|j: int| 0 <= j < at implies !run::is_project(
            #[trigger] extensions@[j],
        ) by {}
        assert(run::is_first_project(extensions@, at));
        let chosen = choose|i: int| run::is_first_project(extensions@, i);
        assert(run::is_project(extensions@[chosen]) && run::is_project(extensions@[at]));
    }
}

/// What is found after a build is what its first output reports and then what
/// its second reports, each read as UTF-8.
pub proof fn law_both_outputs_are_read(entry: Option<int>, stdout: Vec<u8>, stderr: Vec<u8>)
    ensures
        ({
            let next = (StepView::Build { entry }).following(
                CheckEvent::Built(Ok((stdout, stderr))),
            );
            match report::regex_compiled(report::DIAGNOSTIC_PATTERN@) {
                Some(re) => next == Some(
                    StepView::CompareFiles {
                        found: report::reports_in(
                            re,
                            text::split_lines(text::utf8_lossy(stdout@)),
                        ) + report::reports_in(re, text::split_lines(text::utf8_lossy(stderr@))),
                    },
                ),
                None => next is None,
            }
        }),
{
    reveal_strlit("\n");
    let a = text::utf8_lossy(stdout@);
    let b = text::utf8_lossy(stderr@);
    assert("\n"@ =~= seq!['\n']);
    assert(run::combined_output(stdout@, stderr@) =~= a.push('\n') + b);
    if let Some(re) = report::regex_compiled(report::DIAGNOSTIC_PATTERN@) {
        checks::lemma_joined_outputs(re, a, b);
    }
}

/// Whether the framework always stands at `first` and the path at `second` of
/// the rest of a throwaway project, which is the same for all.
pub open spec fn fixed_around(first: int, second: int) -> bool {
    let bare = run::project_text(seq![], seq![]);
    &&& 0 <= first <= second <= bare.len()
    &&& forall|framework: Seq<char>, path: Seq<char>| #[trigger]
        run::project_text(framework, path) == bare.take(first) + framework + bare.subrange(
            first,
            second,
        ) + path + bare.skip(second)
}

/// Throwaway projects differ only in their framework and their path.
pub proof fn law_projects_differ_in_framework_and_path_only()
    ensures
        exists|first: int, second: int| fixed_around(first, second),
{
    let bare = run::project_text(seq![], seq![]);
    let first = run::project_head().len() as int;
    let second = first + run::project_middle().len();
    assert(bare =~= run::project_head() + run::project_middle() + run::project_tail());
    assert(bare.take(first) =~= run::project_head());
    assert(bare.subrange(first, second) =~= run::project_middle());
    assert(bare.skip(second) =~= run::project_tail());
    assert(fixed_around(first, second));
}

/// Where a throwaway project is kept, what it holds, and which path it is for.
pub proof fn law_throwaway_projects_are_kept_by_hash<P>(
    framework: Seq<char>,
    path: Seq<char>,
    key: u64,
    resolved: P,
    given: P,
)
    ensures
        run::throwaway(framework, path, key).place == seq![
            "pis-code-check"@,
            text::hexadecimal(key as nat),
            "check.csproj"@,
        ],
        run::throwaway(framework, path, key).contents == run::project_text(framework, path),
        run::absolute_of(Some(resolved), given) == resolved,
        run::absolute_of(None, given) == given,
{
}

/// A check is started unless one runs. It runs until its outcome or the end of
/// its channel is seen; without a channel nothing is seen.
pub proof fn law_checker_keeps_track(c: CheckerView, message: CheckMessage)
    ensures
        c.running ==> c.started() == c,
        !c.running ==> c.started().running && c.started().listening,
        !c.listening ==> c.polled(Received::Message(message)) == c,
        !c.listening ==> c.polled(Received::Disconnected) == c,
        c.polled(Received::Empty) == c,
        c.listening ==> !c.polled(Received::Message(message)).running,
        c.listening ==> c.polled(Received::Message(message)).listening,
        c.listening ==> !c.polled(Received::Disconnected).running,
        c.listening ==> !c.polled(Received::Disconnected).listening,
{
}

} // verus!
