use pis_code::check::{CheckMessage, Checker, Diagnostic, Received, Severity};
use pis_code::report::{
    name_groups, parse_diagnostics, read_report, scan_output, FileMatch, RawDiagnostic,
};
use pis_code::run::{
    absolute_path, first_project, project_dir_name, synthetic_project, target_framework,
    throwaway_project, CheckEvent, CheckStep,
};

/// How two paths to files that exist compare.
fn resolved(reported: &str, target: &str) -> FileMatch {
    FileMatch { same_file: Some(reported == target), same_name: name(reported) == name(target) }
}

fn name(path: &str) -> &str {
    path.rsplit('/').next().unwrap()
}

fn diagnostics_for(output: &str, target: &str) -> Vec<Diagnostic> {
    let raw = scan_output(output).expect("the pattern is valid");
    let files = raw.iter().map(|r| resolved(&r.file, target)).collect();
    parse_diagnostics(&raw, &files)
}

fn raw(line: &str, col: &str, severity: &str, message: &str) -> RawDiagnostic {
    RawDiagnostic {
        file: "a.cs".to_string(),
        line: line.to_string(),
        col: col.to_string(),
        severity: severity.to_string(),
        code: "CS1".to_string(),
        message: message.to_string(),
    }
}

#[test]
fn parses_error_and_warning_for_target_file() {
    let file = "/tmp/pc_check_test_target_0.cs";
    let output = format!(
        "{}(4,32): error CS1002: ; expected [/tmp/proj.csproj]\n{}(2,5): warning CS0168: variable declared but never used [/tmp/proj.csproj]",
        file,
        file
    );

    let diags = diagnostics_for(&output, file);
    assert_eq!(diags.len(), 2);

    assert_eq!(diags[0].line, 3); // 1-indexed 4 -> 0-indexed 3
    assert_eq!(diags[0].col, 31);
    assert!(matches!(diags[0].severity, Severity::Error));
    assert_eq!(diags[0].code, "CS1002");
    assert_eq!(diags[0].message, "; expected");

    assert_eq!(diags[1].line, 1);
    assert!(matches!(diags[1].severity, Severity::Warning));
    assert_eq!(diags[1].code, "CS0168");
}

#[test]
fn ignores_diagnostics_for_other_files() {
    let file = "/tmp/pc_check_test_target2_0.cs";
    let other = "/tmp/pc_check_test_other_1.cs";
    let output = format!("{}(1,1): error CS0000: unrelated file's problem", other);

    let diags = diagnostics_for(&output, file);
    assert!(diags.is_empty());
}

#[test]
fn ignores_unrelated_output_lines() {
    let file = "/tmp/pc_check_test_target3_0.cs";
    let output =
        "Determining projects to restore...\n  Restored /tmp/proj.csproj\nBuild succeeded.";

    let diags = diagnostics_for(output, file);
    assert!(diags.is_empty());
}

#[test]
fn severity_ord_ranks_error_above_warning() {
    assert!(Severity::Error > Severity::Warning);
}

#[test]
fn severities_agree_on_their_order() {
    assert!(Severity::Warning < Severity::Error);
    assert_eq!(Severity::Warning.max(Severity::Error), Severity::Error);
    assert_eq!(Severity::Warning.strongest(Severity::Error), Severity::Error);
    assert_eq!(Severity::Error.strongest(Severity::Warning), Severity::Error);
    assert_eq!(Severity::Warning.strongest(Severity::Warning), Severity::Warning);
}

#[test]
fn reports_are_found_between_other_lines() {
    let found = scan_output(
        "Build FAILED.\r\n\r\n   /a b/x(1).cs(10,2): warning CS8600: say \"hi\": [now]  \r\n0 Error(s)\r\n",
    )
    .unwrap();
    assert_eq!(found.len(), 1);
    assert_eq!(found[0].file, "/a b/x(1).cs");
    assert_eq!(found[0].line, "10");
    assert_eq!(found[0].col, "2");
    assert_eq!(found[0].severity, "warning");
    assert_eq!(found[0].code, "CS8600");
    assert_eq!(found[0].message, "say \"hi\": [now]");
}

#[test]
fn lines_that_are_almost_reports_are_not() {
    for line in [
        "a.cs(1,2): info CS1: x",
        "a.cs(1): error CS1: x",
        "a.cs(1,2) error CS1: x",
        "a.cs(1,2): error CS-1: x",
        "(1,2): error CS1: x",
        "a.cs(x,2): error CS1: x",
        "",
    ] {
        assert!(scan_output(line).unwrap().is_empty(), "{line:?}");
    }
    assert_eq!(scan_output("a.cs(1,2): error CS1: ").unwrap().len(), 0);
    assert_eq!(scan_output("a.cs(1,2): error CS1: x").unwrap().len(), 1);
}

#[test]
fn an_unrelated_line_makes_no_difference() {
    let report = "/tmp/a.cs(3,4): error CS1: one";
    let alone = diagnostics_for(report, "/tmp/a.cs");
    let between = diagnostics_for(&format!("Restoring\n{report}\nDone"), "/tmp/a.cs");
    assert_eq!(alone.len(), 1);
    assert_eq!(between.len(), 1);
    assert_eq!(alone[0].line, between[0].line);
    assert_eq!(alone[0].message, between[0].message);
}

#[test]
fn joined_outputs_give_the_diagnostics_of_both() {
    let report = |line: u32, end: &str| format!("/tmp/a.cs({line},1): error CS1: m{end}");
    let texts = [
        String::new(),
        "\n".to_string(),
        report(1, ""),
        report(2, "\r"),
        report(3, "\n"),
        format!("{}\r\nnoise\n{}", report(4, ""), report(4, "")),
    ];
    let lines = |output: &str| -> Vec<usize> {
        diagnostics_for(output, "/tmp/a.cs").iter().map(|d| d.line).collect()
    };
    for a in &texts {
        for b in &texts {
            let mut both = lines(a);
            both.extend(lines(b));
            assert_eq!(lines(&format!("{a}\n{b}")), both);
        }
    }
    assert_eq!(lines(&texts[5]), vec![3, 3]);
}

#[test]
fn capture_groups_are_named_in_order() {
    let groups: Vec<Option<String>> =
        ["all", "f", "1", "2", "error", "C", "m"].iter().map(|s| Some(s.to_string())).collect();
    let report = name_groups(groups).unwrap();
    assert_eq!(report.file, "f");
    assert_eq!(report.line, "1");
    assert_eq!(report.col, "2");
    assert_eq!(report.severity, "error");
    assert_eq!(report.code, "C");
    assert_eq!(report.message, "m");
    assert!(name_groups(vec![Some("all".to_string()), None]).is_none());
    assert!(name_groups(vec![None; 7]).is_none());
}

#[test]
fn positions_become_zero_indexed() {
    let d = read_report(&raw("4", "32", "error", "x"));
    assert_eq!((d.line, d.col), (3, 31));
    let d = read_report(&raw("0", "1", "error", "x"));
    assert_eq!((d.line, d.col), (0, 0));
    let d = read_report(&raw("٣", "99999999999999999999999999", "error", "x"));
    assert_eq!((d.line, d.col), (0, 0));
}

#[test]
fn only_the_word_error_makes_an_error() {
    assert_eq!(read_report(&raw("1", "1", "error", "")).severity, Severity::Error);
    assert_eq!(read_report(&raw("1", "1", "warning", "")).severity, Severity::Warning);
}

#[test]
fn the_project_is_taken_off_the_message() {
    for (message, expected) in [
        ("; expected [/tmp/proj.csproj]", "; expected"),
        ("a [b] c [d]", "a [b] c"),
        ("a [b] c", "a [b] c"),
        ("index[0]", "index[0]"),
        (" []", ""),
        ("]", "]"),
        ("", ""),
        ("Ärger [/tmp/ß.csproj]", "Ärger"),
    ] {
        assert_eq!(read_report(&raw("1", "1", "error", message)).message, expected);
    }
}

#[test]
fn names_only_count_for_files_that_cannot_be_resolved() {
    assert!(FileMatch { same_file: Some(true), same_name: false }.matches_target());
    assert!(!FileMatch { same_file: Some(false), same_name: true }.matches_target());
    assert!(FileMatch { same_file: None, same_name: true }.matches_target());
    assert!(!FileMatch { same_file: None, same_name: false }.matches_target());
}

#[test]
fn reports_about_the_file_keep_their_order() {
    let reports =
        vec![raw("1", "1", "error", "a"), raw("2", "1", "error", "b"), raw("3", "1", "error", "c")];
    let yes = FileMatch { same_file: Some(true), same_name: true };
    let no = FileMatch { same_file: Some(false), same_name: true };
    let kept = parse_diagnostics(&reports, &vec![yes, no, yes]);
    assert_eq!(kept.len(), 2);
    assert_eq!(kept[0].message, "a");
    assert_eq!(kept[1].message, "c");
    assert!(parse_diagnostics(&reports, &vec![no, no, no]).is_empty());
    assert_eq!(parse_diagnostics(&reports, &vec![yes, yes, yes]).len(), 3);
}

// ---- the course of a check ----

#[test]
fn the_framework_follows_the_major_version() {
    assert_eq!(target_framework("8.0.100\n"), "net8.0");
    assert_eq!(target_framework("10\n"), "net10.0");
    assert_eq!(target_framework(" 9 .0"), "net9.0");
    assert_eq!(target_framework(""), "net.0");
    assert_eq!(target_framework(".1"), "net.0");
}

#[test]
fn the_first_project_of_a_directory_is_taken() {
    let extension = |e: &str| Some(e.to_string());
    assert_eq!(first_project(&Vec::new()), None);
    assert_eq!(first_project(&vec![None, extension("cs"), extension("CSPROJ")]), None);
    assert_eq!(
        first_project(&vec![None, extension("csproj"), extension("cs"), extension("csproj")]),
        Some(1)
    );
}

#[test]
fn a_throwaway_project_compiles_the_one_file() {
    assert_eq!(
        synthetic_project("net8.0", "/tmp/a.cs"),
        r#"<Project Sdk="Microsoft.NET.Sdk">
  <PropertyGroup>
    <TargetFramework>net8.0</TargetFramework>
    <Nullable>disable</Nullable>
    <EnableDefaultCompileItems>false</EnableDefaultCompileItems>
    <GenerateAssemblyInfo>false</GenerateAssemblyInfo>
  </PropertyGroup>
  <ItemGroup>
    <Compile Include="/tmp/a.cs" />
  </ItemGroup>
</Project>
"#
    );
}

#[test]
fn throwaway_projects_are_kept_apart_by_hash() {
    assert_eq!(project_dir_name(0), "0");
    assert_eq!(project_dir_name(0x1f2e), "1f2e");
    assert_eq!(project_dir_name(u64::MAX), "ffffffffffffffff");
    assert_ne!(project_dir_name(16), project_dir_name(1));
}

#[test]
fn repeat_checks_share_one_throwaway_project() {
    let first = throwaway_project("net8.0", "/tmp/a.cs", 0x1f2e);
    let again = throwaway_project("net9.0", "/tmp/a.cs", 0x1f2e);
    assert_eq!(first.place, vec!["pis-code-check", "1f2e", "check.csproj"]);
    assert_eq!(first.place, again.place);
    assert_eq!(first.contents, synthetic_project("net8.0", "/tmp/a.cs"));
    assert_ne!(throwaway_project("net8.0", "/tmp/a.cs", 1).place, first.place);
}

#[test]
fn a_throwaway_project_compiles_nothing_else() {
    let contents = throwaway_project("net8.0", "/tmp/C/Compile.cs", 7).contents;
    assert_eq!(contents.matches("<Compile").count(), 1);
    assert!(contents.contains("<Compile Include=\"/tmp/C/Compile.cs\" />"));
    assert!(contents.contains("<TargetFramework>net8.0</TargetFramework>"));
}

#[test]
fn a_path_that_cannot_be_resolved_stands_for_itself() {
    assert_eq!(absolute_path(Some("/tmp/a.cs"), "a.cs"), "/tmp/a.cs");
    assert_eq!(absolute_path(None, "a.cs"), "a.cs");
}

fn version(printed: &str) -> CheckEvent {
    CheckEvent::Version(Some(printed.as_bytes().to_vec()))
}

#[test]
fn a_missing_tool_ends_the_check() {
    let step = CheckStep::AskVersion.advance(CheckEvent::Version(None)).unwrap();
    assert!(matches!(step, CheckStep::Done(CheckMessage::ToolMissing)));
}

#[test]
fn a_project_up_the_tree_is_built() {
    let step = CheckStep::AskVersion.advance(version("8.0.1\n")).unwrap();
    assert!(matches!(&step, CheckStep::FindProject { framework } if framework == "net8.0"));
    let here = vec![Some("cs".to_string()), None];
    let step = step.advance(CheckEvent::Directory(Some(here))).unwrap();
    assert!(matches!(&step, CheckStep::FindProject { framework } if framework == "net8.0"));
    let above = vec![Some("sln".to_string()), Some("csproj".to_string())];
    let step = step.advance(CheckEvent::Directory(Some(above))).unwrap();
    assert!(matches!(step, CheckStep::Build { entry: Some(1) }));
}

#[test]
fn a_loose_file_gets_a_project_of_its_own() {
    let step = CheckStep::AskVersion.advance(version("9.0.100")).unwrap();
    let step = step.advance(CheckEvent::Directory(Some(Vec::new()))).unwrap();
    let step = step.advance(CheckEvent::Directory(None)).unwrap();
    assert!(matches!(&step, CheckStep::WriteProject { framework } if framework == "net9.0"));
    let step = step.advance(CheckEvent::Written(Ok(()))).unwrap();
    assert!(matches!(step, CheckStep::Build { entry: None }));
}

#[test]
fn a_project_that_cannot_be_written_fails_the_check() {
    let step = CheckStep::WriteProject { framework: "net8.0".to_string() };
    let step = step.advance(CheckEvent::Written(Err("disk full".to_string()))).unwrap();
    assert!(matches!(step, CheckStep::Done(CheckMessage::Failed(reason)) if reason == "disk full"));
}

#[test]
fn a_build_that_cannot_run_fails_the_check() {
    let step = CheckStep::Build { entry: None };
    let step = step.advance(CheckEvent::Built(Err("no such file".to_string()))).unwrap();
    assert!(matches!(step, CheckStep::Done(CheckMessage::Failed(reason)) if reason == "no such file"));
}

#[test]
fn both_outputs_of_a_build_are_read() {
    let stdout = b"/tmp/a.cs(1,2): error CS1: one [/tmp/p.csproj]".to_vec();
    let mut stderr = b"\xff junk\n/tmp/b.cs(3,4): warning CS2: zwei \xc3\xa4".to_vec();
    stderr.push(0xff);
    let step = CheckStep::Build { entry: None };
    let step = step.advance(CheckEvent::Built(Ok((stdout, stderr)))).unwrap();
    let found = match &step {
        CheckStep::CompareFiles { found } => found,
        _ => panic!("unexpected step"),
    };
    assert_eq!(found.len(), 2);
    assert_eq!(found[0].file, "/tmp/a.cs");
    assert_eq!(found[1].file, "/tmp/b.cs");
    assert_eq!(found[1].message, "zwei ä\u{fffd}");

    let yes = FileMatch { same_file: Some(true), same_name: true };
    let no = FileMatch { same_file: None, same_name: false };
    let step = step.advance(CheckEvent::Compared(vec![yes, no])).unwrap();
    match step {
        CheckStep::Done(CheckMessage::Finished(diagnostics)) => {
            assert_eq!(diagnostics.len(), 1);
            assert_eq!(diagnostics[0].message, "one");
        }
        _ => panic!("unexpected step"),
    }
}

// ---- the checker ----

#[test]
fn only_one_check_runs_at_a_time() {
    let mut checker = Checker::new();
    assert!(!checker.is_listening());
    assert!(checker.start());
    assert!(checker.is_listening());
    assert!(!checker.start());
    assert!(checker.poll(Received::Empty).is_none());
    assert!(!checker.start());
    let message = checker.poll(Received::Message(CheckMessage::ToolMissing));
    assert!(matches!(message, Some(CheckMessage::ToolMissing)));
    assert!(checker.is_listening());
    assert!(checker.start());
}

#[test]
fn a_closed_channel_ends_the_check() {
    let mut checker = Checker::new();
    assert!(checker.start());
    assert!(checker.poll(Received::Disconnected).is_none());
    assert!(!checker.is_listening());
    assert!(checker.start());
}

#[test]
fn a_checker_that_listens_to_nothing_hears_nothing() {
    let mut checker = Checker::new();
    assert!(checker.poll(Received::Message(CheckMessage::ToolMissing)).is_none());
    assert!(checker.poll(Received::Disconnected).is_none());
    assert!(checker.start());
}
