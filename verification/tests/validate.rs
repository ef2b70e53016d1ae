use docgen::scanner::{CaptureGroup, RawMatch};
use docgen::types::{IssueSeverity, ValidationIssue, ValidationResult};
use docgen::validate::{
    check_required_files, find_links, finish_validation, has_odd_occurrences, new_result,
    record_site_check, report_broken_link, report_missing_docs, report_results,
    required_file_names, resolve_link, targets_of_matches, validate_markdown_file,
    validate_mkdocs_config,
};

fn chars(s: &str) -> Vec<char> {
    s.chars().collect()
}

fn check(path: &str, content: &str) -> ValidationResult {
    let mut r = new_result();
    validate_markdown_file(path, content, &mut r);
    r
}

fn messages(issues: &Vec<ValidationIssue>) -> Vec<&str> {
    issues.iter().map(|i| i.message.as_str()).collect()
}

#[test]
fn fresh_result_has_passed() {
    let r = new_result();
    assert!(r.passed);
    assert!(r.errors.is_empty());
    assert!(r.warnings.is_empty());
    assert!(r.info.is_empty());
}

#[test]
fn well_formed_page_has_no_issues() {
    let r = check("docs/a.md", "# Title\n\nText.\n\n```ts\ncode\n```\n");
    assert!(r.errors.is_empty());
    assert!(r.warnings.is_empty());
    assert!(r.passed);
}

#[test]
fn empty_page_is_a_warning() {
    let r = check("docs/a.md", "  \n\t\n");
    assert_eq!(messages(&r.warnings), vec!["Empty documentation file"]);
    assert_eq!(r.warnings[0].severity, IssueSeverity::Warning);
    assert_eq!(r.warnings[0].file.as_deref(), Some("docs/a.md"));
    assert_eq!(r.warnings[0].line, None);
    assert_eq!(r.warnings[0].suggestion.as_deref(), Some("Add content or remove the file"));
    assert!(r.errors.is_empty());
}

#[test]
fn page_without_title_is_a_warning() {
    let r = check("a.md", "## Sub\n#Not a title\n # indented\n");
    assert_eq!(messages(&r.warnings), vec!["Missing H1 title"]);
    assert_eq!(r.warnings[0].suggestion.as_deref(), Some("Add a title starting with '# '"));
}

#[test]
fn notes_of_unfinished_work_are_warnings_with_their_line() {
    let r = check("a.md", "# T\n  TODO: write  \nfine\nsee FIXME and TODO\n");
    assert_eq!(
        messages(&r.warnings),
        vec!["Found TODO/FIXME: TODO: write", "Found TODO/FIXME: see FIXME and TODO"]
    );
    assert_eq!(r.warnings[0].line, Some(2));
    assert_eq!(r.warnings[1].line, Some(4));
    assert_eq!(r.warnings[0].suggestion, None);
    assert_eq!(r.warnings[0].file.as_deref(), Some("a.md"));
}

#[test]
fn unpaired_code_fence_is_an_error() {
    let r = check("a.md", "# T\n```\ncode\n");
    assert_eq!(messages(&r.errors), vec!["Unmatched code block delimiter"]);
    assert_eq!(r.errors[0].severity, IssueSeverity::Error);
    assert_eq!(
        r.errors[0].suggestion.as_deref(),
        Some("Check that all ``` blocks are properly closed")
    );
    assert!(r.warnings.is_empty());
    assert!(check("a.md", "# T\n``````\n").errors.is_empty());
    assert_eq!(check("a.md", "# T\n```````\n").errors.len(), 0);
    assert_eq!(check("a.md", "# T\n`````````\n").errors.len(), 1);
}

#[test]
fn occurrences_are_counted_without_overlap() {
    assert!(!has_odd_occurrences(&chars(""), &chars("ab")));
    assert!(has_odd_occurrences(&chars("xxabxx"), &chars("ab")));
    assert!(!has_odd_occurrences(&chars("abab"), &chars("ab")));
    assert!(has_odd_occurrences(&chars("aaa"), &chars("aa")));
    assert!(!has_odd_occurrences(&chars("aaaa"), &chars("aa")));
    assert!(!has_odd_occurrences(&chars("abc"), &chars("")));
}

#[test]
fn issues_are_added_to_those_found_before() {
    let mut r = new_result();
    validate_markdown_file("a.md", "", &mut r);
    validate_markdown_file("b.md", "# T\n```\n", &mut r);
    assert_eq!(messages(&r.warnings), vec!["Empty documentation file"]);
    assert_eq!(messages(&r.errors), vec!["Unmatched code block delimiter"]);
    assert_eq!(r.errors[0].file.as_deref(), Some("b.md"));
    assert!(r.passed);
}

#[test]
fn missing_required_files_are_errors() {
    let names = required_file_names();
    assert_eq!(
        names,
        vec!["index.md", "getting-started/installation.md", "getting-started/quickstart.md"]
    );
    let mut r = new_result();
    check_required_files("root/docs", &vec![true, false, true], &mut r);
    assert_eq!(messages(&r.errors), vec!["Required file missing: getting-started/installation.md"]);
    assert_eq!(r.errors[0].file.as_deref(), Some("root/docs/getting-started/installation.md"));
    assert_eq!(
        r.errors[0].suggestion.as_deref(),
        Some("Create the required documentation file")
    );
    assert!(r.passed);
    let mut all = new_result();
    check_required_files("docs/", &Vec::new(), &mut all);
    assert_eq!(all.errors.len(), 3);
    assert_eq!(all.errors[0].file.as_deref(), Some("docs/index.md"));
    let mut none = new_result();
    check_required_files("docs", &vec![true, true, true, false], &mut none);
    assert!(none.errors.is_empty());
}

#[test]
fn missing_documentation_directory_fails_validation() {
    let mut r = new_result();
    report_missing_docs("root/docs", &mut r);
    assert!(!r.passed);
    assert_eq!(messages(&r.errors), vec!["Documentation directory does not exist"]);
    assert_eq!(r.errors[0].file.as_deref(), Some("root/docs"));
    assert_eq!(
        r.errors[0].suggestion.as_deref(),
        Some("Run `docgen generate` to create documentation")
    );
}

#[test]
fn links_are_found_in_the_order_of_the_text() {
    let links = find_links("See [a](./a.md) and [b c](https://x.y/z) or [d](#top).\n[e](../e/)")
        .unwrap();
    assert_eq!(links, vec!["./a.md", "https://x.y/z", "#top", "../e/"]);
    assert!(find_links("no links [here] (at all)").unwrap().is_empty());
}

#[test]
fn targets_are_the_second_groups() {
    let g = |t: &str| Some(CaptureGroup { start: 0, text: t.to_string() });
    let matches = vec![
        RawMatch { groups: vec![g("[a](b)"), g("a"), g("b")] },
        RawMatch { groups: vec![g("x"), g("y")] },
        RawMatch { groups: vec![g("x"), g("y"), None] },
        RawMatch { groups: vec![g("[c](d)"), g("c"), g("d"), g("extra")] },
    ];
    assert_eq!(targets_of_matches(&matches), vec!["b", "d"]);
}

#[test]
fn links_are_resolved_from_the_page_or_the_root() {
    assert_eq!(resolve_link("docs", "docs/guide", "setup.md").as_deref(), Some("docs/guide/setup.md"));
    assert_eq!(resolve_link("docs", "docs/guide", "/api/index.md").as_deref(), Some("docs/api/index.md"));
    assert_eq!(resolve_link("docs", "docs/guide", "a.md#part").as_deref(), Some("docs/guide/a.md"));
    assert_eq!(resolve_link("docs", "docs/guide/", "../x").as_deref(), Some("docs/guide/../x"));
    assert_eq!(resolve_link("docs", "docs", "https://example.com"), None);
    assert_eq!(resolve_link("docs", "docs", "http://example.com"), None);
    assert_eq!(resolve_link("docs", "docs", "#anchor"), None);
    assert_eq!(resolve_link("docs", "", "a.md").as_deref(), Some("a.md"));
}

#[test]
fn broken_link_is_a_warning() {
    let mut r = new_result();
    report_broken_link("./gone.md", "docs/gone.md", "docs/index.md", &mut r);
    assert_eq!(messages(&r.warnings), vec!["Broken internal link: ./gone.md"]);
    assert_eq!(r.warnings[0].file.as_deref(), Some("docs/index.md"));
    assert_eq!(r.warnings[0].suggestion.as_deref(), Some("Check that docs/gone.md exists"));
    assert_eq!(r.warnings[0].severity, IssueSeverity::Warning);
    assert_eq!(r.warnings[0].line, None);
}

#[test]
fn site_configuration_is_checked() {
    let mut missing = new_result();
    validate_mkdocs_config("root", None, &mut missing);
    assert_eq!(messages(&missing.errors), vec!["mkdocs.yml not found"]);
    assert_eq!(missing.errors[0].file.as_deref(), Some("root/mkdocs.yml"));
    assert_eq!(
        missing.errors[0].suggestion.as_deref(),
        Some("Create mkdocs.yml configuration file")
    );
    assert!(missing.info.is_empty());

    let mut good = new_result();
    validate_mkdocs_config("root", Some("site_name: Docs\nnav:\n  - Home: index.md\n"), &mut good);
    assert!(good.errors.is_empty());
    assert_eq!(good.info, vec!["mkdocs.yml validated successfully"]);

    let mut bad = new_result();
    validate_mkdocs_config("root", Some("a: [1, 2\nb: }"), &mut bad);
    assert_eq!(bad.errors.len(), 1);
    assert!(bad.errors[0].message.starts_with("Invalid YAML in mkdocs.yml: "));
    assert!(bad.errors[0].message.len() > "Invalid YAML in mkdocs.yml: ".len());
    assert_eq!(bad.errors[0].suggestion.as_deref(), Some("Fix YAML syntax errors"));
    assert_eq!(bad.info, vec!["mkdocs.yml validated successfully"]);
}

#[test]
fn outcome_of_the_site_check_is_recorded() {
    let mut r = new_result();
    record_site_check("", Some(Some("bad indent".to_string())), &mut r);
    assert_eq!(messages(&r.errors), vec!["Invalid YAML in mkdocs.yml: bad indent"]);
    assert_eq!(r.errors[0].file.as_deref(), Some("mkdocs.yml"));
    assert_eq!(r.info.len(), 1);
    let mut ok = new_result();
    record_site_check("r", Some(None), &mut ok);
    assert!(ok.errors.is_empty());
    assert_eq!(ok.info.len(), 1);
}

#[test]
fn strict_mode_fails_on_warnings() {
    let mut r = check("a.md", "");
    assert!(finish_validation(&mut r, false));
    assert!(r.passed);
    assert!(!finish_validation(&mut r, true));
    assert!(!r.passed);
    let mut clean = new_result();
    assert!(finish_validation(&mut clean, true));
    let mut gone = new_result();
    report_missing_docs("docs", &mut gone);
    assert!(!finish_validation(&mut gone, false));
}

#[test]
fn report_lists_errors_warnings_and_messages() {
    let mut r = new_result();
    report_missing_docs("docs", &mut r);
    validate_markdown_file("a.md", "# T\nTODO\n", &mut r);
    r.warnings.push(ValidationIssue {
        severity: IssueSeverity::Warning,
        message: "Loose".to_string(),
        file: None,
        line: Some(3),
        suggestion: None,
    });
    r.info.push("done".to_string());
    let lines = report_results(&r, false);
    let expected: Vec<(IssueSeverity, String)> = vec![
        (IssueSeverity::Error, "\n\u{274c} Errors (1):".to_string()),
        (
            IssueSeverity::Error,
            "  \u{2022} Documentation directory does not exist in docs".to_string(),
        ),
        (
            IssueSeverity::Error,
            "    \u{2192} Run `docgen generate` to create documentation".to_string(),
        ),
        (IssueSeverity::Warning, "\n\u{26a0}\u{fe0f} Warnings (2):".to_string()),
        (IssueSeverity::Warning, "  \u{2022} Found TODO/FIXME: TODO at a.md:2".to_string()),
        (IssueSeverity::Warning, "  \u{2022} Loose".to_string()),
        (IssueSeverity::Info, "  \u{2139}\u{fe0f}  done".to_string()),
        (IssueSeverity::Info, "\nSummary: 1 errors, 2 warnings".to_string()),
    ];
    assert_eq!(lines, expected);
    let strict = report_results(&r, true);
    assert_eq!(strict[3], (IssueSeverity::Warning, "\n\u{274c} Warnings (2):".to_string()));
    assert_eq!(strict.len(), 8);
}

#[test]
fn report_of_a_clean_result_is_its_summary() {
    let lines = report_results(&new_result(), true);
    assert_eq!(lines, vec![(IssueSeverity::Info, "\nSummary: 0 errors, 0 warnings".to_string())]);
}
