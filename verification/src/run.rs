//! The course of one check: which tool to run next, given what the last one
//! brought.

use crate::check::{CheckMessage, MessageView};
use crate::report;
use crate::report::{FileMatch, PatternError, RawDiagnostic, RawView};
use crate::text;
use vstd::prelude::*;
use vstd::string::*;

verus! {

/// What a check waits for, or what it came to.
#[derive(Debug)]
pub enum CheckStep {
    /// Ask the build tool for its version.
    AskVersion,
    /// Look for a project that the file belongs to: in the file's own directory
    /// first, and in the next directory up each time this step is taken again.
    FindProject { framework: String },
    /// Write a throwaway project for `framework` around the file.
    WriteProject { framework: String },
    /// Build the project that is this entry of the directory that was looked
    /// into last, or else the throwaway one.
    Build { entry: Option<usize> },
    /// Compare the file of each report with the edited one.
    CompareFiles { found: Vec<RawDiagnostic> },
    /// Nothing any more.
    Done(CheckMessage),
}

/// What a [`CheckStep`] says.
#[verifier::ext_equal]
pub enum StepView {
    AskVersion,
    FindProject { framework: Seq<char> },
    WriteProject { framework: Seq<char> },
    Build { entry: Option<int> },
    CompareFiles { found: Seq<RawView> },
    Done(MessageView),
}

impl View for CheckStep {
    type V = StepView;

    open spec fn view(&self) -> StepView {
        match self {
            CheckStep::AskVersion => StepView::AskVersion,
            CheckStep::FindProject { framework } => StepView::FindProject { framework: framework@ },
            CheckStep::WriteProject { framework } => StepView::WriteProject {
                framework: framework@,
            },
            CheckStep::Build { entry: Some(at) } => StepView::Build { entry: Some(at as int) },
            CheckStep::Build { entry: None } => StepView::Build { entry: None },
            CheckStep::CompareFiles { found } => StepView::CompareFiles {
                found: report::raw_views(found@),
            },
            CheckStep::Done(message) => StepView::Done(message@),
        }
    }
}

/// What came of a step.
#[derive(Debug)]
pub enum CheckEvent {
    /// What the tool printed as its version; `None` if it could not be run or
    /// reported a failure.
    Version(Option<Vec<u8>>),
    /// The extensions of the entries of the directory, none if it could not be
    /// read; `None` if there is no directory further up.
    Directory(Option<Vec<Option<String>>>),
    /// The throwaway project was written, or why it could not be.
    Written(Result<(), String>),
    /// What the build printed to its two outputs, or why it could not be run.
    Built(Result<(Vec<u8>, Vec<u8>), String>),
    /// How the file of each report compares with the edited one.
    Compared(Vec<FileMatch>),
}

/// `s` up to its first dot.
pub open spec fn before_dot(s: Seq<char>) -> Seq<char>
    decreases s.len(),
{
    if s.len() == 0 || s.first() == '.' {
        seq![]
    } else {
        seq![s.first()] + before_dot(s.skip(1))
    }
}

/// The framework that a tool of version `version` builds for: `net` and its
/// major version.
pub open spec fn framework_of(version: Seq<char>) -> Seq<char> {
    "net"@ + text::trimmed(before_dot(version)) + ".0"@
}

/// Picks the framework to build for from what the tool printed as its version.
pub fn target_framework(version: &str) -> (result: String)
    ensures
        result@ == framework_of(version@),
{
    let chars = text::chars_of(version);
    let n: usize = chars.len();
    let mut end: usize = 0;
    proof {
        assert(chars@.skip(0) == chars@);
        assert(chars@.take(0) + before_dot(chars@) == before_dot(chars@));
    }
    while end < n && chars[end] != '.'
        invariant
            end <= n == chars@.len(),
            chars@.take(end as int) + before_dot(chars@.skip(end as int)) == before_dot(chars@),
        decreases n - end,
    {
        proof {
            let rest = chars@.skip(end as int);
            assert(rest.skip(1) == chars@.skip(end + 1));
            assert(chars@.take(end + 1) + before_dot(rest.skip(1)) == chars@.take(end as int) + (
            seq![rest.first()] + before_dot(rest.skip(1))));
        }
        end += 1;
    }
    assert(chars@.take(end as int) == chars@.take(end as int) + Seq::<char>::empty());
    assert(chars@.subrange(0, end as int) == chars@.take(end as int));
    let major = text::string_of(&chars, 0, end);
    let major = text::trim(major.as_str());
    let mut result = text::concat("net", major.as_str());
    result.append(".0");
    result
}

/// Whether the extension of a directory entry is that of a project file.
pub open spec fn is_project(extension: Option<String>) -> bool {
    extension matches Some(e) && e@ == "csproj"@
}

/// Whether `at` is the first of a directory's entries that is a project file.
pub open spec fn is_first_project(extensions: Seq<Option<String>>, at: int) -> bool {
    &&& 0 <= at < extensions.len()
    &&& is_project(extensions[at])
    &&& forall|i: int| 0 <= i < at ==> !is_project(#[trigger] extensions[i])
}

/// The first of a directory's entries, given by their extensions, that is a
/// project file.
pub open spec fn project_in(extensions: Seq<Option<String>>) -> Option<int> {
    if exists|at: int| is_first_project(extensions, at) {
        Some(choose|at: int| is_first_project(extensions, at))
    } else {
        None
    }
}

/// Finds the first of a directory's entries, given by their extensions, that is
/// a project file.
pub fn first_project(extensions: &Vec<Option<String>>) -> (result: Option<usize>)
    ensures
        match result {
            Some(at) => project_in(extensions@) == Some(at as int) && is_first_project(
                extensions@,
                at as int,
            ),
            None => project_in(extensions@) is None && forall|i: int|
                0 <= i < extensions@.len() ==> !is_project(#[trigger] extensions@[i]),
        },
{
    let wanted = "csproj".to_owned();
    let mut at: usize = 0;
    while at < extensions.len()
        invariant
            at <= extensions@.len(),
            wanted@ == "csproj"@,
            forall|i: int| 0 <= i < at ==> !is_project(#[trigger] extensions@[i]),
        decreases extensions@.len() - at,
    {
        match &extensions[at] {
            Some(extension) => {
                if *extension == wanted {
                    proof {
                        assert(is_first_project(extensions@, at as int));
                        let chosen = choose|i: int| is_first_project(extensions@, i);
                        assert(is_project(extensions@[chosen]));
                    }
                    return Some(at);
                }
            },
            None => {},
        }
        at += 1;
    }
    None
}

/// What a project file starts with, up to the framework.
pub open spec fn project_head() -> Seq<char> {
    "<Project Sdk=\"Microsoft.NET.Sdk\">\n  <PropertyGroup>\n    <TargetFramework>"@
}

/// What stands in a project file between the framework and the path.
pub open spec fn project_middle() -> Seq<char> {
    "</TargetFramework>\n    <Nullable>disable</Nullable>\n    <EnableDefaultCompileItems>false</EnableDefaultCompileItems>\n    <GenerateAssemblyInfo>false</GenerateAssemblyInfo>\n  </PropertyGroup>\n  <ItemGroup>\n    <Compile Include=\""@
}

/// What a project file ends with, behind the path.
pub open spec fn project_tail() -> Seq<char> {
    "\" />\n  </ItemGroup>\n</Project>\n"@
}

/// The project file around the one source file at `path`.
pub open spec fn project_text(framework: Seq<char>, path: Seq<char>) -> Seq<char> {
    project_head() + framework + project_middle() + path + project_tail()
}

/// The contents of a minimal throwaway project that compiles the loose file at
/// `path` for `framework`.
pub fn synthetic_project(framework: &str, path: &str) -> (result: String)
    ensures
        result@ == project_text(framework@, path@),
{
    let mut result = text::concat(
        "<Project Sdk=\"Microsoft.NET.Sdk\">\n  <PropertyGroup>\n    <TargetFramework>",
        framework,
    );
    result.append(
        "</TargetFramework>\n    <Nullable>disable</Nullable>\n    <EnableDefaultCompileItems>false</EnableDefaultCompileItems>\n    <GenerateAssemblyInfo>false</GenerateAssemblyInfo>\n  </PropertyGroup>\n  <ItemGroup>\n    <Compile Include=\"",
    );
    result.append(path);
    result.append("\" />\n  </ItemGroup>\n</Project>\n");
    result
}

/// The name of the directory that holds the throwaway project of the file with
/// the hash `key`, so that repeat checks of a file share one.
pub fn project_dir_name(key: u64) -> (result: String)
    ensures
        result@ == text::hexadecimal(key as nat),
{
    text::hexadecimal_of(key)
}

/// Where the throwaway project of the file with the hash `key` is kept, below the
/// directory for temporary files: two directories and the project file.
pub open spec fn project_place(key: u64) -> Seq<Seq<char>> {
    seq!["pis-code-check"@, text::hexadecimal(key as nat), "check.csproj"@]
}

/// A project that is made up for a loose file: the parts of its path below the
/// directory for temporary files, and what it holds.
#[derive(Debug)]
pub struct Throwaway {
    pub place: Vec<String>,
    pub contents: String,
}

/// What a [`Throwaway`] says.
#[verifier::ext_equal]
pub struct ThrowawayView {
    pub place: Seq<Seq<char>>,
    pub contents: Seq<char>,
}

impl View for Throwaway {
    type V = ThrowawayView;

    open spec fn view(&self) -> ThrowawayView {
        ThrowawayView { place: text::views(self.place@), contents: self.contents@ }
    }
}

/// The throwaway project for the file at `path`, whose hash is `key`.
pub open spec fn throwaway(framework: Seq<char>, path: Seq<char>, key: u64) -> ThrowawayView {
    ThrowawayView { place: project_place(key), contents: project_text(framework, path) }
}

/// Makes up a throwaway project for the loose file at `path`. It is kept in a
/// stable place that goes by the hash of the file's own path, so that repeat
/// checks reuse what the last one built.
pub fn throwaway_project(framework: &str, path: &str, key: u64) -> (result: Throwaway)
    ensures
        result@ == throwaway(framework@, path@, key),
{
    let mut place: Vec<String> = Vec::new();
    place.push("pis-code-check".to_owned());
    place.push(project_dir_name(key));
    place.push("check.csproj".to_owned());
    assert(text::views(place@) == project_place(key));
    Throwaway { place, contents: synthetic_project(framework, path) }
}

/// The path that a throwaway project is made for and kept under: the resolved
/// one, or the one that was given where it cannot be resolved.
pub open spec fn absolute_of<P>(resolved: Option<P>, given: P) -> P {
    match resolved {
        Some(path) => path,
        None => given,
    }
}

/// Picks the path that a throwaway project is made for and kept under.
pub fn absolute_path<P>(resolved: Option<P>, given: P) -> (result: P)
    ensures
        result == absolute_of(resolved, given),
{
    match resolved {
        Some(path) => path,
        None => given,
    }
}

/// The two outputs of a build as one text.
pub open spec fn combined_output(stdout: Seq<u8>, stderr: Seq<u8>) -> Seq<char> {
    text::utf8_lossy(stdout) + "\n"@ + text::utf8_lossy(stderr)
}

impl StepView {
    /// `event` is one that can come of this step.
    pub open spec fn awaits(self, event: CheckEvent) -> bool {
        match self {
            StepView::AskVersion => event is Version,
            StepView::FindProject { .. } => event is Directory,
            StepView::WriteProject { .. } => event is Written,
            StepView::Build { .. } => event is Built,
            StepView::CompareFiles { found } => event matches CheckEvent::Compared(files)
                && files@.len() == found.len(),
            StepView::Done(_) => false,
        }
    }

    /// The step that follows on `event`; `None` where the regex engine does not
    /// accept the pattern for the build's output.
    pub open spec fn following(self, event: CheckEvent) -> Option<StepView> {
        match event {
            CheckEvent::Version(None) => Some(StepView::Done(MessageView::ToolMissing)),
            CheckEvent::Version(Some(stdout)) => Some(
                StepView::FindProject { framework: framework_of(text::utf8_lossy(stdout@)) },
            ),
            CheckEvent::Directory(Some(extensions)) => match project_in(extensions@) {
                Some(at) => Some(StepView::Build { entry: Some(at) }),
                None => Some(self),
            },
            CheckEvent::Directory(None) => Some(
                StepView::WriteProject { framework: self->FindProject_framework },
            ),
            CheckEvent::Written(Ok(_)) => Some(StepView::Build { entry: None }),
            CheckEvent::Written(Err(reason)) => Some(
                StepView::Done(MessageView::Failed(reason@)),
            ),
            CheckEvent::Built(Ok((stdout, stderr))) => match report::regex_compiled(
                report::DIAGNOSTIC_PATTERN@,
            ) {
                Some(re) => Some(
                    StepView::CompareFiles {
                        found: report::reports_in(
                            re,
                            text::split_lines(combined_output(stdout@, stderr@)),
                        ),
                    },
                ),
                None => None,
            },
            CheckEvent::Built(Err(reason)) => Some(StepView::Done(MessageView::Failed(reason@))),
            CheckEvent::Compared(files) => Some(
                StepView::Done(
                    MessageView::Finished(report::targeted(self->CompareFiles_found, files@)),
                ),
            ),
        }
    }
}

impl CheckStep {
    /// Goes on from this step, given what came of it.
    pub fn advance(self, event: CheckEvent) -> (result: Result<CheckStep, PatternError>)
        requires
            self@.awaits(event),
        ensures
            match result {
                Ok(next) => self@.following(event) == Some(next@),
                Err(_) => self@.following(event) is None,
            },
    {
        match (self, event) {
            (CheckStep::AskVersion, CheckEvent::Version(None)) => Ok(
                CheckStep::Done(CheckMessage::ToolMissing),
            ),
            (CheckStep::AskVersion, CheckEvent::Version(Some(stdout))) => {
                let version = text::decode_lossy(&stdout);
                Ok(CheckStep::FindProject { framework: target_framework(version.as_str()) })
            },
            (CheckStep::FindProject { framework }, CheckEvent::Directory(Some(extensions))) => {
                match first_project(&extensions) {
                    Some(at) => Ok(CheckStep::Build { entry: Some(at) }),
                    None => Ok(CheckStep::FindProject { framework }),
                }
            },
            (CheckStep::FindProject { framework }, CheckEvent::Directory(None)) => Ok(
                CheckStep::WriteProject { framework },
            ),
            (CheckStep::WriteProject { .. }, CheckEvent::Written(Ok(()))) => Ok(
                CheckStep::Build { entry: None },
            ),
            (CheckStep::WriteProject { .. }, CheckEvent::Written(Err(reason))) => Ok(
                CheckStep::Done(CheckMessage::Failed(reason)),
            ),
            (CheckStep::Build { .. }, CheckEvent::Built(Ok((stdout, stderr)))) => {
                let mut output = text::decode_lossy(&stdout);
                output.append("\n");
                output.append(text::decode_lossy(&stderr).as_str());
                match report::scan_output(output.as_str()) {
                    Ok(found) => Ok(CheckStep::CompareFiles { found }),
                    Err(error) => Err(error),
                }
            },
            (CheckStep::Build { .. }, CheckEvent::Built(Err(reason))) => Ok(
                CheckStep::Done(CheckMessage::Failed(reason)),
            ),
            (CheckStep::CompareFiles { found }, CheckEvent::Compared(files)) => Ok(
                CheckStep::Done(CheckMessage::Finished(report::parse_diagnostics(&found, &files))),
            ),
            (step, _) => {
                assert(false);
                Ok(step)
            },
        }
    }
}

} // verus!
