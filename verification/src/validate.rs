//! Checks of rendered documentation.
//!
//! The caller reads the files and asks the file system what exists; the
//! checks here decide from those texts and answers which issues to
//! report, and how the report reads.

use crate::paths::{join_path, joined_path};
use crate::scanner::{find_captures, group_text, regex_captures, regex_is_valid, GroupView, RawMatch};
use crate::text::{
    chars_of, contains, contains_seq, decimal, decimal_chars, find_char, first_index, has_prefix,
    lines, matches_at, split_lines, starts_with, string_of, texts, trim, trimmed,
};
use crate::types::{
    IssueSeverity, ValidationIssue, ValidationIssueView, ValidationResult, ValidationResultView,
};
use vstd::prelude::*;
use vstd::slice::slice_subrange;
use vstd::string::StringExecFns;

verus! {

/// `result` with one more error.
pub open spec fn with_error(result: ValidationResultView, issue: ValidationIssueView) -> ValidationResultView {
    ValidationResultView { errors: result.errors.push(issue), ..result }
}

/// `result` with one more warning.
pub open spec fn with_warning(result: ValidationResultView, issue: ValidationIssueView) -> ValidationResultView {
    ValidationResultView { warnings: result.warnings.push(issue), ..result }
}

/// `result` with more errors and warnings.
pub open spec fn with_issues(
    result: ValidationResultView,
    errors: Seq<ValidationIssueView>,
    warnings: Seq<ValidationIssueView>,
) -> ValidationResultView {
    ValidationResultView {
        errors: result.errors + errors,
        warnings: result.warnings + warnings,
        ..result
    }
}

/// An issue of a file as a whole.
pub open spec fn file_issue(
    severity: IssueSeverity,
    message: Seq<char>,
    file: Seq<char>,
    suggestion: Seq<char>,
) -> ValidationIssueView {
    ValidationIssueView {
        severity,
        message,
        file: Some(file),
        line: None,
        suggestion: Some(suggestion),
    }
}

fn make_file_issue(severity: IssueSeverity, message: &str, file: &str, suggestion: &str) -> (r:
    ValidationIssue)
    ensures
        r@ == file_issue(severity, message@, file@, suggestion@),
{
    ValidationIssue {
        severity,
        message: message.to_owned(),
        file: Some(file.to_owned()),
        line: None,
        suggestion: Some(suggestion.to_owned()),
    }
}

fn push_issue(list: &mut Vec<ValidationIssue>, issue: ValidationIssue)
    ensures
        final(list).deep_view() == old(list).deep_view().push(issue@),
{
    let ghost before = list.deep_view();
    let ghost added = issue@;
    list.push(issue);
    proof {
        assert(list.deep_view() =~= before.push(added));
    }
}

/// A fresh result: passed, with nothing found yet.
pub fn new_result() -> (r: ValidationResult)
    ensures
        r@ == (ValidationResultView {
            passed: true,
            errors: Seq::empty(),
            warnings: Seq::empty(),
            info: Seq::empty(),
        }),
{
    let r = ValidationResult {
        passed: true,
        errors: Vec::new(),
        warnings: Vec::new(),
        info: Vec::new(),
    };
    proof {
        assert(r.errors.deep_view() =~= Seq::empty());
        assert(r.warnings.deep_view() =~= Seq::empty());
        assert(r.info.deep_view() =~= Seq::empty());
    }
    r
}

/// The issue of a documentation directory that does not exist.
pub open spec fn missing_docs_issue(docs_path: Seq<char>) -> ValidationIssueView {
    file_issue(
        IssueSeverity::Error,
        "Documentation directory does not exist"@,
        docs_path,
        "Run `docgen generate` to create documentation"@,
    )
}

/// Records that the documentation directory does not exist: validation
/// has not passed.
pub fn report_missing_docs(docs_path: &str, result: &mut ValidationResult)
    ensures
        final(result)@ == (ValidationResultView {
            passed: false,
            ..with_error(old(result)@, missing_docs_issue(docs_path@))
        }),
{
    let issue: ValidationIssue = make_file_issue(
        IssueSeverity::Error,
        "Documentation directory does not exist",
        docs_path,
        "Run `docgen generate` to create documentation",
    );
    push_issue(&mut result.errors, issue);
    result.passed = false;
}

/// The number of occurrences of `pat` in `s`, counted from left to right
/// without overlap; none of an empty `pat`.
pub open spec fn count_occurrences(s: Seq<char>, pat: Seq<char>) -> nat
    decreases s.len(),
{
    if pat.len() == 0 || s.len() < pat.len() {
        0
    } else if s.subrange(0, pat.len() as int) == pat {
        1 + count_occurrences(s.subrange(pat.len() as int, s.len() as int), pat)
    } else {
        count_occurrences(s.drop_first(), pat)
    }
}

/// Whether the number of occurrences of `pat` in `s` is odd.
pub open spec fn odd_occurrences(s: Seq<char>, pat: Seq<char>) -> bool {
    count_occurrences(s, pat) % 2 == 1
}

pub fn has_odd_occurrences(s: &[char], pat: &[char]) -> (r: bool)
    ensures
        r == odd_occurrences(s@, pat@),
{
    let n: usize = s.len();
    let m: usize = pat.len();
    let mut odd: bool = false;
    let mut i: usize = 0;
    proof {
        assert(s@.subrange(0, n as int) =~= s@);
    }
    while m > 0 && i < n && n - i >= m
        invariant
            i <= n,
            n == s@.len(),
            m == pat@.len(),
            odd_occurrences(s@, pat@) == (odd != odd_occurrences(
                s@.subrange(i as int, n as int),
                pat@,
            )),
        decreases n - i,
    {
        let ghost rest = s@.subrange(i as int, n as int);
        proof {
            assert(rest.subrange(0, m as int) =~= s@.subrange(i as int, i + m));
        }
        if matches_at(s, pat, i) {
            proof {
                assert(rest.subrange(m as int, rest.len() as int) =~= s@.subrange(
                    i + m,
                    n as int,
                ));
            }
            odd = !odd;
            i += m;
        } else {
            proof {
                assert(rest.drop_first() =~= s@.subrange(i + 1, n as int));
            }
            i += 1;
        }
    }
    odd
}

/// Whether one of the lines begins with the mark of a first-level title.
pub open spec fn has_title(ls: Seq<Seq<char>>) -> bool {
    exists|i: int| 0 <= i < ls.len() && starts_with(#[trigger] ls[i], "# "@)
}

/// Whether a line holds a note of unfinished work.
pub open spec fn is_todo_line(line: Seq<char>) -> bool {
    contains_seq(line, "TODO"@) || contains_seq(line, "FIXME"@)
}

/// The warning for the note of unfinished work on line `index`, counted
/// from 0.
pub open spec fn todo_issue(file: Seq<char>, line: Seq<char>, index: int) -> ValidationIssueView {
    ValidationIssueView {
        severity: IssueSeverity::Warning,
        message: "Found TODO/FIXME: "@ + trim(line),
        file: Some(file),
        line: Some((index + 1) as usize),
        suggestion: None,
    }
}

/// The warnings for the notes of unfinished work in the lines.
pub open spec fn todo_issues(file: Seq<char>, ls: Seq<Seq<char>>) -> Seq<ValidationIssueView>
    decreases ls.len(),
{
    if ls.len() == 0 {
        Seq::empty()
    } else {
        let front = todo_issues(file, ls.drop_last());
        if is_todo_line(ls.last()) {
            front.push(todo_issue(file, ls.last(), ls.len() - 1))
        } else {
            front
        }
    }
}

/// The warnings for one markdown file: an empty file, a missing title,
/// and each note of unfinished work.
pub open spec fn markdown_warnings(file: Seq<char>, content: Seq<char>) -> Seq<ValidationIssueView> {
    let empty = trim(content).len() == 0;
    let ls = lines(content);
    (if empty {
        seq![
            file_issue(
                IssueSeverity::Warning,
                "Empty documentation file"@,
                file,
                "Add content or remove the file"@,
            ),
        ]
    } else {
        Seq::empty()
    }) + (if !has_title(ls) && !empty {
        seq![
            file_issue(
                IssueSeverity::Warning,
                "Missing H1 title"@,
                file,
                "Add a title starting with '# '"@,
            ),
        ]
    } else {
        Seq::empty()
    }) + todo_issues(file, ls)
}

/// The errors for one markdown file: code fences that do not pair up.
pub open spec fn markdown_errors(file: Seq<char>, content: Seq<char>) -> Seq<ValidationIssueView> {
    if odd_occurrences(content, "```"@) {
        seq![
            file_issue(
                IssueSeverity::Error,
                "Unmatched code block delimiter"@,
                file,
                "Check that all ``` blocks are properly closed"@,
            ),
        ]
    } else {
        Seq::empty()
    }
}

fn any_title(ls: &Vec<Vec<char>>) -> (r: bool)
    ensures
        r == has_title(texts(ls@)),
{
    let mark: Vec<char> = chars_of("# ");
    let mut i: usize = 0;
    while i < ls.len()
        invariant
            i <= ls.len(),
            mark@ == "# "@,
            forall|j: int| 0 <= j < i ==> !starts_with(#[trigger] texts(ls@)[j], "# "@),
        decreases ls.len() - i,
    {
        if has_prefix(ls[i].as_slice(), mark.as_slice()) {
            proof {
                assert(starts_with(texts(ls@)[i as int], "# "@));
            }
            return true;
        }
        i += 1;
    }
    false
}

fn push_todo_issues(file: &str, ls: &Vec<Vec<char>>, warnings: &mut Vec<ValidationIssue>)
    ensures
        final(warnings).deep_view() == old(warnings).deep_view() + todo_issues(file@, texts(ls@)),
{
    let todo: Vec<char> = chars_of("TODO");
    let fixme: Vec<char> = chars_of("FIXME");
    let mut i: usize = 0;
    proof {
        assert(warnings.deep_view() =~= old(warnings).deep_view() + todo_issues(
            file@,
            texts(ls@).take(0),
        ));
    }
    while i < ls.len()
        invariant
            i <= ls.len(),
            todo@ == "TODO"@,
            fixme@ == "FIXME"@,
            warnings.deep_view() == old(warnings).deep_view() + todo_issues(
                file@,
                texts(ls@).take(i as int),
            ),
        decreases ls.len() - i,
    {
        proof {
            assert(texts(ls@).take(i + 1).drop_last() =~= texts(ls@).take(i as int));
            assert(texts(ls@).take(i + 1).last() == ls@[i as int]@);
        }
        let line: &[char] = ls[i].as_slice();
        if contains(line, todo.as_slice()) || contains(line, fixme.as_slice()) {
            let mut message: String = "Found TODO/FIXME: ".to_owned();
            message.append(string_of(trimmed(line)).as_str());
            let issue = ValidationIssue {
                severity: IssueSeverity::Warning,
                message,
                file: Some(file.to_owned()),
                line: Some(i + 1),
                suggestion: None,
            };
            let ghost before = warnings.deep_view();
            push_issue(warnings, issue);
            proof {
                assert(warnings.deep_view() =~= old(warnings).deep_view() + todo_issues(
                    file@,
                    texts(ls@).take(i + 1),
                ));
            }
        }
        i += 1;
    }
    proof {
        assert(texts(ls@).take(ls.len() as int) =~= texts(ls@));
    }
}

/// Checks the text of one markdown file.
pub fn validate_markdown_file(path: &str, content: &str, result: &mut ValidationResult)
    ensures
        final(result)@ == with_issues(
            old(result)@,
            markdown_errors(path@, content@),
            markdown_warnings(path@, content@),
        ),
{
    let chars: Vec<char> = chars_of(content);
    let ls: Vec<Vec<char>> = split_lines(chars.as_slice());
    let empty: bool = trimmed(chars.as_slice()).len() == 0;
    let ghost w0 = result.warnings.deep_view();
    let ghost e0 = result.errors.deep_view();
    if empty {
        let issue = make_file_issue(
            IssueSeverity::Warning,
            "Empty documentation file",
            path,
            "Add content or remove the file",
        );
        push_issue(&mut result.warnings, issue);
    }
    let ghost w1 = result.warnings.deep_view();
    if !any_title(&ls) && !empty {
        let issue = make_file_issue(
            IssueSeverity::Warning,
            "Missing H1 title",
            path,
            "Add a title starting with '# '",
        );
        push_issue(&mut result.warnings, issue);
    }
    let ghost w2 = result.warnings.deep_view();
    push_todo_issues(path, &ls, &mut result.warnings);
    let fence: Vec<char> = chars_of("```");
    if has_odd_occurrences(chars.as_slice(), fence.as_slice()) {
        let issue = make_file_issue(
            IssueSeverity::Error,
            "Unmatched code block delimiter",
            path,
            "Check that all ``` blocks are properly closed",
        );
        push_issue(&mut result.errors, issue);
    }
    proof {
        assert(result.warnings.deep_view() =~= w0 + markdown_warnings(path@, content@));
        assert(result.errors.deep_view() =~= e0 + markdown_errors(path@, content@));
    }
}

/// The files that a documentation directory must hold.
pub open spec fn required_files() -> Seq<Seq<char>> {
    seq!["index.md"@, "getting-started/installation.md"@, "getting-started/quickstart.md"@]
}

pub fn required_file_names() -> (r: Vec<String>)
    ensures
        r.deep_view() == required_files(),
{
    let mut out: Vec<String> = Vec::new();
    out.push("index.md".to_owned());
    out.push("getting-started/installation.md".to_owned());
    out.push("getting-started/quickstart.md".to_owned());
    proof {
        assert(out.deep_view() =~= required_files());
    }
    out
}

/// The error for a required file that is missing.
pub open spec fn missing_file_issue(docs_path: Seq<char>, file: Seq<char>) -> ValidationIssueView {
    file_issue(
        IssueSeverity::Error,
        "Required file missing: "@ + file,
        join_path(docs_path, file),
        "Create the required documentation file"@,
    )
}

/// Whether the answers say that the required file `index` is there; a
/// file without an answer is not.
pub open spec fn is_present(present: Seq<bool>, index: int) -> bool {
    0 <= index < present.len() && present[index]
}

/// The errors for the first `count` required files.
pub open spec fn missing_file_issues(docs_path: Seq<char>, present: Seq<bool>, count: int) -> Seq<
    ValidationIssueView,
>
    decreases count,
{
    if count <= 0 {
        Seq::empty()
    } else {
        let front = missing_file_issues(docs_path, present, count - 1);
        if is_present(present, count - 1) {
            front
        } else {
            front.push(missing_file_issue(docs_path, required_files()[count - 1]))
        }
    }
}

/// Records an error for each required file that is not there. `present`
/// answers for each required file, in their order, whether it exists.
pub fn check_required_files(docs_path: &str, present: &Vec<bool>, result: &mut ValidationResult)
    ensures
        final(result)@ == with_issues(
            old(result)@,
            missing_file_issues(docs_path@, present@, required_files().len() as int),
            Seq::empty(),
        ),
{
    let names: Vec<String> = required_file_names();
    let ghost e0 = result.errors.deep_view();
    let mut i: usize = 0;
    proof {
        assert(result.errors.deep_view() =~= e0 + missing_file_issues(docs_path@, present@, 0));
        assert(result.warnings.deep_view() =~= old(result).warnings.deep_view() + Seq::empty());
    }
    while i < names.len()
        invariant
            i <= names.len(),
            names.deep_view() == required_files(),
            result.errors.deep_view() == e0 + missing_file_issues(docs_path@, present@, i as int),
            result.warnings == old(result).warnings,
            result.info == old(result).info,
            result.passed == old(result).passed,
        decreases names.len() - i,
    {
        let there: bool = i < present.len() && present[i];
        if !there {
            let name: &str = names[i].as_str();
            proof {
                assert(names.deep_view()[i as int] == name@);
            }
            let mut message: String = "Required file missing: ".to_owned();
            message.append(name);
            let target: String = joined_path(docs_path, name);
            let issue = make_file_issue(
                IssueSeverity::Error,
                message.as_str(),
                target.as_str(),
                "Create the required documentation file",
            );
            push_issue(&mut result.errors, issue);
            proof {
                assert(result.errors.deep_view() =~= e0 + missing_file_issues(
                    docs_path@,
                    present@,
                    i + 1,
                ));
            }
        }
        i += 1;
    }
}

/// The pattern that recognises a markdown link; group 2 is its target.
pub open spec fn link_pattern() -> Seq<char> {
    "\\[([^\\]]+)\\]\\(([^)]+)\\)"@
}

/// The targets of the matches, in their order.
pub open spec fn link_targets(matches: Seq<Seq<Option<GroupView>>>) -> Seq<Seq<char>>
    decreases matches.len(),
{
    if matches.len() == 0 {
        Seq::empty()
    } else {
        let front = link_targets(matches.drop_last());
        match group_text(matches.last(), 2) {
            Some(target) => front.push(target),
            None => front,
        }
    }
}

/// The targets of the given matches of the link pattern.
pub fn targets_of_matches(matches: &Vec<RawMatch>) -> (r: Vec<String>)
    ensures
        r.deep_view() == link_targets(matches.deep_view()),
{
    let mut out: Vec<String> = Vec::new();
    let mut i: usize = 0;
    proof {
        assert(out.deep_view() =~= Seq::<Seq<char>>::empty());
    }
    while i < matches.len()
        invariant
            i <= matches.len(),
            out.deep_view() == link_targets(matches.deep_view().take(i as int)),
        decreases matches.len() - i,
    {
        proof {
            assert(matches.deep_view().take(i + 1).drop_last() =~= matches.deep_view().take(
                i as int,
            ));
        }
        let m: &RawMatch = &matches[i];
        if 2 < m.groups.len() {
            match &m.groups[2] {
                Some(g) => {
                    let ghost before = out.deep_view();
                    let target: String = g.text.clone();
                    out.push(target);
                    proof {
                        assert(out.deep_view() =~= before.push(g.text@));
                    }
                },
                None => {},
            }
        }
        i += 1;
    }
    proof {
        assert(matches.deep_view().take(matches.len() as int) =~= matches.deep_view());
    }
    out
}

/// The targets of the markdown links in `content`, in the order of the
/// text; nothing where the link pattern is not accepted as a regular
/// expression.
pub fn find_links(content: &str) -> (r: Option<Vec<String>>)
    ensures
        r is Some <==> regex_is_valid(link_pattern()),
        r matches Some(targets) ==> targets.deep_view() == link_targets(
            regex_captures(link_pattern(), content@),
        ),
{
    match find_captures("\\[([^\\]]+)\\]\\(([^)]+)\\)", content) {
        Ok(matches) => Some(targets_of_matches(&matches)),
        Err(_) => None,
    }
}

/// Whether a link leaves the documentation or stays on its page: such a
/// link is not checked.
pub open spec fn is_unchecked_link(link: Seq<char>) -> bool {
    starts_with(link, "http"@) || starts_with(link, "#"@)
}

/// The path that a link points at: from the documentation directory for
/// a link that begins with `/`, else from the directory of the file; what
/// follows the first `#` is left out.
pub open spec fn link_path(docs_path: Seq<char>, file_dir: Seq<char>, link: Seq<char>) -> Seq<char> {
    let target = if starts_with(link, "/"@) {
        join_path(docs_path, link.subrange(1, link.len() as int))
    } else {
        join_path(file_dir, link)
    };
    target.subrange(0, first_index(target, '#') as int)
}

/// The path to look for, for a link that is checked.
pub fn resolve_link(docs_path: &str, file_dir: &str, link: &str) -> (r: Option<String>)
    ensures
        r.deep_view() == if is_unchecked_link(link@) {
            None
        } else {
            Some(link_path(docs_path@, file_dir@, link@))
        },
{
    let chars: Vec<char> = chars_of(link);
    let http: Vec<char> = chars_of("http");
    let hash: Vec<char> = chars_of("#");
    let slash: Vec<char> = chars_of("/");
    if has_prefix(chars.as_slice(), http.as_slice()) || has_prefix(
        chars.as_slice(),
        hash.as_slice(),
    ) {
        return None;
    }
    let target: String = if has_prefix(chars.as_slice(), slash.as_slice()) {
        proof {
            reveal_strlit("/");
        }
        let rest: String = string_of(slice_subrange(chars.as_slice(), 1, chars.len()));
        joined_path(docs_path, rest.as_str())
    } else {
        joined_path(file_dir, link)
    };
    let t: Vec<char> = chars_of(target.as_str());
    proof {
        assert(t@.subrange(0, t@.len() as int) =~= t@);
    }
    let end: usize = find_char(t.as_slice(), 0, '#');
    Some(string_of(slice_subrange(t.as_slice(), 0, end)))
}

/// The warning for a link whose target does not exist.
pub open spec fn broken_link_issue(link: Seq<char>, target: Seq<char>, file: Seq<char>) -> ValidationIssueView {
    file_issue(
        IssueSeverity::Warning,
        "Broken internal link: "@ + link,
        file,
        "Check that "@ + target + " exists"@,
    )
}

/// Records a warning for a link whose target does not exist.
pub fn report_broken_link(link: &str, target: &str, file: &str, result: &mut ValidationResult)
    ensures
        final(result)@ == with_warning(old(result)@, broken_link_issue(link@, target@, file@)),
{
    let mut message: String = "Broken internal link: ".to_owned();
    message.append(link);
    let mut suggestion: String = "Check that ".to_owned();
    suggestion.append(target);
    suggestion.append(" exists");
    let issue = make_file_issue(
        IssueSeverity::Warning,
        message.as_str(),
        file,
        suggestion.as_str(),
    );
    push_issue(&mut result.warnings, issue);
}

/// The message with which `serde_yaml::from_str` refuses `document` as a
/// `serde_yaml::Value`; nothing where it parses.
pub uninterp spec fn yaml_error(document: Seq<char>) -> Option<Seq<char>>;

/// Parses `document` with `serde_yaml::from_str` as a `serde_yaml::Value`
/// and hands out the text of the error, if there is one.
#[verifier::external_body]
fn read_yaml_error(document: &str) -> (r: Option<String>)
    ensures
        r.deep_view() == yaml_error(document@),
{
    serde_yaml::from_str::<serde_yaml::Value>(document).err().map(|e| e.to_string())
}

/// The result after the check of the site configuration, given the error
/// of its parse.
pub open spec fn with_site_check(
    result: ValidationResultView,
    root: Seq<char>,
    parse: Option<Option<Seq<char>>>,
) -> ValidationResultView {
    let file = join_path(root, "mkdocs.yml"@);
    match parse {
        None => with_error(
            result,
            file_issue(
                IssueSeverity::Error,
                "mkdocs.yml not found"@,
                file,
                "Create mkdocs.yml configuration file"@,
            ),
        ),
        Some(error) => ValidationResultView {
            errors: match error {
                Some(text) => result.errors.push(
                    file_issue(
                        IssueSeverity::Error,
                        "Invalid YAML in mkdocs.yml: "@ + text,
                        file,
                        "Fix YAML syntax errors"@,
                    ),
                ),
                None => result.errors,
            },
            info: result.info.push("mkdocs.yml validated successfully"@),
            ..result
        },
    }
}

/// Records the outcome of the check of the site configuration: `parse`
/// is nothing for a missing file, else the error of its parse if it has
/// one.
pub fn record_site_check(root: &str, parse: Option<Option<String>>, result: &mut ValidationResult)
    ensures
        final(result)@ == with_site_check(old(result)@, root@, parse.deep_view()),
{
    let file: String = joined_path(root, "mkdocs.yml");
    match parse {
        None => {
            let issue = make_file_issue(
                IssueSeverity::Error,
                "mkdocs.yml not found",
                file.as_str(),
                "Create mkdocs.yml configuration file",
            );
            push_issue(&mut result.errors, issue);
        },
        Some(error) => {
            match error {
                Some(text) => {
                    let mut message: String = "Invalid YAML in mkdocs.yml: ".to_owned();
                    message.append(text.as_str());
                    let issue = make_file_issue(
                        IssueSeverity::Error,
                        message.as_str(),
                        file.as_str(),
                        "Fix YAML syntax errors",
                    );
                    push_issue(&mut result.errors, issue);
                },
                None => {},
            }
            let ghost before = result.info.deep_view();
            result.info.push("mkdocs.yml validated successfully".to_owned());
            proof {
                assert(result.info.deep_view() =~= before.push(
                    "mkdocs.yml validated successfully"@,
                ));
            }
        },
    }
}

/// Checks the site configuration: `content` is the text of `mkdocs.yml`
/// under `root`, or nothing where the file is missing.
pub fn validate_mkdocs_config(root: &str, content: Option<&str>, result: &mut ValidationResult)
    ensures
        final(result)@ == with_site_check(
            old(result)@,
            root@,
            match content {
                Some(document) => Some(yaml_error(document@)),
                None => None,
            },
        ),
{
    let parse: Option<Option<String>> = match content {
        Some(document) => Some(read_yaml_error(document)),
        None => None,
    };
    record_site_check(root, parse, result);
}

/// Closes a validation: in strict mode a warning fails it.
pub fn finish_validation(result: &mut ValidationResult, strict: bool) -> (passed: bool)
    ensures
        passed == (old(result)@.passed && !(strict && old(result)@.warnings.len() > 0)),
        final(result)@ == (ValidationResultView { passed, ..old(result)@ }),
{
    proof {
        assert(result.warnings.deep_view().len() == result.warnings@.len());
    }
    if strict && result.warnings.len() > 0 {
        result.passed = false;
    }
    result.passed
}

/// Where an issue was found, as it reads in the report.
pub open spec fn location_text(file: Option<Seq<char>>, line: Option<usize>) -> Seq<char> {
    match file {
        Some(f) => match line {
            Some(l) => " at "@ + f + ":"@ + decimal(l as nat),
            None => " in "@ + f,
        },
        None => Seq::empty(),
    }
}

/// The report lines of one issue.
pub open spec fn issue_lines(issue: ValidationIssueView, level: IssueSeverity) -> Seq<
    (IssueSeverity, Seq<char>),
> {
    seq![(level, "  \u{2022} "@ + issue.message + location_text(issue.file, issue.line))] + (
    match issue.suggestion {
        Some(s) => seq![(level, "    \u{2192} "@ + s)],
        None => Seq::empty(),
    })
}

pub open spec fn issues_lines(issues: Seq<ValidationIssueView>, level: IssueSeverity) -> Seq<
    (IssueSeverity, Seq<char>),
>
    decreases issues.len(),
{
    if issues.len() == 0 {
        Seq::empty()
    } else {
        issues_lines(issues.drop_last(), level) + issue_lines(issues.last(), level)
    }
}

/// The block of a list of issues under its title; nothing for an empty
/// list.
pub open spec fn issues_block(
    title: Seq<char>,
    issues: Seq<ValidationIssueView>,
    level: IssueSeverity,
) -> Seq<(IssueSeverity, Seq<char>)> {
    if issues.len() == 0 {
        Seq::empty()
    } else {
        seq![(level, title + " ("@ + decimal(issues.len()) + "):"@)] + issues_lines(issues, level)
    }
}

pub open spec fn info_lines(info: Seq<Seq<char>>) -> Seq<(IssueSeverity, Seq<char>)>
    decreases info.len(),
{
    if info.len() == 0 {
        Seq::empty()
    } else {
        info_lines(info.drop_last()).push(
            (IssueSeverity::Info, "  \u{2139}\u{fe0f}  "@ + info.last()),
        )
    }
}

/// The title of the warnings: marked as failures in strict mode.
pub open spec fn warnings_title(strict: bool) -> Seq<char> {
    if strict {
        "\n\u{274c} Warnings"@
    } else {
        "\n\u{26a0}\u{fe0f} Warnings"@
    }
}

/// The report of a validation, line by line, each with the level at which
/// it is to be logged: errors, warnings, messages, and a summary.
pub open spec fn report_lines(result: ValidationResultView, strict: bool) -> Seq<
    (IssueSeverity, Seq<char>),
> {
    issues_block("\n\u{274c} Errors"@, result.errors, IssueSeverity::Error) + issues_block(
        warnings_title(strict),
        result.warnings,
        IssueSeverity::Warning,
    ) + info_lines(result.info) + seq![
        (
            IssueSeverity::Info,
            "\nSummary: "@ + decimal(result.errors.len()) + " errors, "@ + decimal(
                result.warnings.len(),
            ) + " warnings"@,
        ),
    ]
}

fn append_digits(out: &mut String, n: usize)
    ensures
        final(out)@ == old(out)@ + decimal(n as nat),
{
    let digits: Vec<char> = decimal_chars(n);
    let s: String = string_of(digits.as_slice());
    out.append(s.as_str());
}

fn location_of(issue: &ValidationIssue) -> (r: String)
    ensures
        r@ == location_text(issue@.file, issue@.line),
{
    match &issue.file {
        Some(f) => match issue.line {
            Some(l) => {
                let mut s: String = " at ".to_owned();
                s.append(f.as_str());
                s.append(":");
                append_digits(&mut s, l);
                s
            },
            None => {
                let mut s: String = " in ".to_owned();
                s.append(f.as_str());
                s
            },
        },
        None => String::new(),
    }
}

fn push_line(out: &mut Vec<(IssueSeverity, String)>, level: IssueSeverity, text: String)
    ensures
        final(out).deep_view() == old(out).deep_view().push((level, text@)),
{
    let ghost before = out.deep_view();
    let ghost t = text@;
    out.push((level, text));
    proof {
        assert(out.deep_view() =~= before.push((level, t)));
    }
}

fn push_issue_lines(out: &mut Vec<(IssueSeverity, String)>, issue: &ValidationIssue, level: IssueSeverity)
    ensures
        final(out).deep_view() == old(out).deep_view() + issue_lines(issue@, level),
{
    let mut head: String = "  \u{2022} ".to_owned();
    head.append(issue.message.as_str());
    head.append(location_of(issue).as_str());
    push_line(out, level, head);
    match &issue.suggestion {
        Some(s) => {
            let mut hint: String = "    \u{2192} ".to_owned();
            hint.append(s.as_str());
            push_line(out, level, hint);
        },
        None => {},
    }
    proof {
        assert(out.deep_view() =~= old(out).deep_view() + issue_lines(issue@, level));
    }
}

fn push_issues_block(
    out: &mut Vec<(IssueSeverity, String)>,
    title: &str,
    issues: &Vec<ValidationIssue>,
    level: IssueSeverity,
)
    ensures
        final(out).deep_view() == old(out).deep_view() + issues_block(
            title@,
            issues.deep_view(),
            level,
        ),
{
    if issues.len() == 0 {
        proof {
            assert(out.deep_view() =~= old(out).deep_view() + issues_block(
                title@,
                issues.deep_view(),
                level,
            ));
        }
        return ;
    }
    let mut head: String = title.to_owned();
    head.append(" (");
    append_digits(&mut head, issues.len());
    head.append("):");
    push_line(out, level, head);
    let ghost start = out.deep_view();
    let mut i: usize = 0;
    proof {
        assert(out.deep_view() =~= start + issues_lines(issues.deep_view().take(0), level));
    }
    while i < issues.len()
        invariant
            i <= issues.len(),
            out.deep_view() == start + issues_lines(issues.deep_view().take(i as int), level),
        decreases issues.len() - i,
    {
        proof {
            assert(issues.deep_view().take(i + 1).drop_last() =~= issues.deep_view().take(
                i as int,
            ));
        }
        push_issue_lines(out, &issues[i], level);
        proof {
            assert(out.deep_view() =~= start + issues_lines(
                issues.deep_view().take(i + 1),
                level,
            ));
        }
        i += 1;
    }
    proof {
        assert(issues.deep_view().take(issues.len() as int) =~= issues.deep_view());
        assert(out.deep_view() =~= old(out).deep_view() + issues_block(
            title@,
            issues.deep_view(),
            level,
        ));
    }
}

fn push_info_lines(out: &mut Vec<(IssueSeverity, String)>, info: &Vec<String>)
    ensures
        final(out).deep_view() == old(out).deep_view() + info_lines(info.deep_view()),
{
    let mut i: usize = 0;
    proof {
        assert(out.deep_view() =~= old(out).deep_view() + info_lines(info.deep_view().take(0)));
    }
    while i < info.len()
        invariant
            i <= info.len(),
            out.deep_view() == old(out).deep_view() + info_lines(info.deep_view().take(i as int)),
        decreases info.len() - i,
    {
        proof {
            assert(info.deep_view().take(i + 1).drop_last() =~= info.deep_view().take(i as int));
        }
        let mut line: String = "  \u{2139}\u{fe0f}  ".to_owned();
        line.append(info[i].as_str());
        push_line(out, IssueSeverity::Info, line);
        proof {
            assert(out.deep_view() =~= old(out).deep_view() + info_lines(
                info.deep_view().take(i + 1),
            ));
        }
        i += 1;
    }
    proof {
        assert(info.deep_view().take(info.len() as int) =~= info.deep_view());
    }
}

/// Writes the report of a validation: each line with the level at which
/// it is to be logged.
pub fn report_results(result: &ValidationResult, strict: bool) -> (r: Vec<(IssueSeverity, String)>)
    ensures
        r.deep_view() == report_lines(result@, strict),
{
    let mut out: Vec<(IssueSeverity, String)> = Vec::new();
    proof {
        assert(out.deep_view() =~= Seq::<(IssueSeverity, Seq<char>)>::empty());
    }
    push_issues_block(&mut out, "\n\u{274c} Errors", &result.errors, IssueSeverity::Error);
    if strict {
        push_issues_block(
            &mut out,
            "\n\u{274c} Warnings",
            &result.warnings,
            IssueSeverity::Warning,
        );
    } else {
        push_issues_block(
            &mut out,
            "\n\u{26a0}\u{fe0f} Warnings",
            &result.warnings,
            IssueSeverity::Warning,
        );
    }
    push_info_lines(&mut out, &result.info);
    let mut summary: String = "\nSummary: ".to_owned();
    append_digits(&mut summary, result.errors.len());
    summary.append(" errors, ");
    append_digits(&mut summary, result.warnings.len());
    summary.append(" warnings");
    push_line(&mut out, IssueSeverity::Info, summary);
    proof {
        assert(out.deep_view() =~= report_lines(result@, strict));
    }
    out
}

} // verus!
