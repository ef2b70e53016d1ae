//! The declaration scanner.
//!
//! One pattern per declaration kind recognises an exported declaration at
//! the start of a line. The passes run in a fixed order of kinds, and the
//! records of each pass keep the order of the text.

use crate::jsdoc::{
    doc_comment_before, extract_jsdoc, lookup, text_before, JsDoc, JsDocView,
};
use crate::text::{
    chars_of, contains_char, find_char, first_index, has_char, remove_char, split_all, split_on,
    string_of, texts, trim, trimmed, without_char,
};
use crate::types::{Export, ExportKind, ExportView, Parameter, ParameterView};
use vstd::prelude::*;
use vstd::slice::slice_subrange;
use vstd::string::StringExecFns;

verus! {

/// One capture group of a match: where it begins, as a byte offset into
/// the searched text, and the text it holds.
#[derive(Debug, Clone)]
pub struct CaptureGroup {
    pub start: usize,
    pub text: String,
}

pub struct GroupView {
    pub start: nat,
    pub text: Seq<char>,
}

impl DeepView for CaptureGroup {
    type V = GroupView;

    open spec fn deep_view(&self) -> GroupView {
        GroupView { start: self.start as nat, text: self.text@ }
    }
}

/// One match of a pattern: its capture groups by number, group 0 being
/// the whole match. A group that took no part in the match is `None`.
#[derive(Debug, Clone)]
pub struct RawMatch {
    pub groups: Vec<Option<CaptureGroup>>,
}

impl DeepView for RawMatch {
    type V = Seq<Option<GroupView>>;

    open spec fn deep_view(&self) -> Seq<Option<GroupView>> {
        self.groups.deep_view()
    }
}

/// The kinds of declaration that the scanner recognises, in the order of
/// its passes.
#[derive(Debug, Clone, Copy, PartialEq, Eq, Structural)]
pub enum DeclKind {
    Interface,
    Type,
    Function,
    Const,
    Class,
    Enum,
}

impl DeclKind {
    /// The kind of export record that a declaration of this kind gives.
    pub open spec fn export_kind(self) -> ExportKind {
        match self {
            DeclKind::Interface => ExportKind::Interface,
            DeclKind::Type => ExportKind::Type,
            DeclKind::Function => ExportKind::Function,
            DeclKind::Const => ExportKind::Const,
            DeclKind::Class => ExportKind::Class,
            DeclKind::Enum => ExportKind::Enum,
        }
    }

    pub fn to_export_kind(self) -> (r: ExportKind)
        ensures
            r == self.export_kind(),
    {
        match self {
            DeclKind::Interface => ExportKind::Interface,
            DeclKind::Type => ExportKind::Type,
            DeclKind::Function => ExportKind::Function,
            DeclKind::Const => ExportKind::Const,
            DeclKind::Class => ExportKind::Class,
            DeclKind::Enum => ExportKind::Enum,
        }
    }
}

/// Why a file could not be scanned.
#[derive(Debug, Clone, Copy, PartialEq, Eq, Structural)]
pub enum ScanError {
    /// The pattern of this kind was not accepted as a regular expression.
    InvalidPattern(DeclKind),
}

#[verifier::external_type_specification]
#[verifier::external_body]
pub struct ExRegexError(regex::Error);

/// Whether `regex::Regex::new` accepts `pattern`.
pub uninterp spec fn regex_is_valid(pattern: Seq<char>) -> bool;

/// The matches that `regex::Regex::captures_iter` finds for `pattern` in
/// `haystack`, in the order in which it yields them.
pub uninterp spec fn regex_captures(pattern: Seq<char>, haystack: Seq<char>) -> Seq<
    Seq<Option<GroupView>>,
>;

/// Compiles `pattern` with `regex::Regex::new` and collects what
/// `Regex::captures_iter` yields on `haystack`. Fails exactly when the
/// pattern is not accepted. Each match is handed out with the groups of
/// `Captures::iter`, each by `Match::start` and `Match::as_str`.
#[verifier::external_body]
pub(crate) fn find_captures(pattern: &str, haystack: &str) -> (r: Result<Vec<RawMatch>, regex::Error>)
    ensures
        r is Ok <==> regex_is_valid(pattern@),
        r matches Ok(found) ==> found.deep_view() == regex_captures(pattern@, haystack@),
{
    let re = regex::Regex::new(pattern)?;
    let group = |m: regex::Match| CaptureGroup { start: m.start(), text: m.as_str().to_string() };
    Ok(
        re.captures_iter(haystack).map(
            |c| RawMatch { groups: c.iter().map(|g| g.map(group)).collect() },
        ).collect(),
    )
}

/// The pattern that recognises declarations of `kind`. Group 1 is the
/// `export` keyword, group 2 the declared name; the groups after these
/// depend on the kind.
pub open spec fn pattern_of(kind: DeclKind) -> Seq<char> {
    match kind {
        DeclKind::Interface => "(?m)^(?:/\\*\\*[\\s\\S]*?\\*/\\s*)?(export)\\s+interface\\s+(\\w+)(?:<[^>]+>)?\\s*\\{([^}]*)\\}"@,
        DeclKind::Type => "(?m)^(?:/\\*\\*[\\s\\S]*?\\*/\\s*)?(export)\\s+type\\s+(\\w+)(?:<[^>]+>)?\\s*=\\s*([^;]+);"@,
        DeclKind::Function => "(?m)^(?:/\\*\\*[\\s\\S]*?\\*/\\s*)?(export)\\s+(?:async\\s+)?function\\s+(\\w+)\\s*(?:<[^>]+>)?\\s*\\(([^)]*)\\)(?:\\s*:\\s*([^{]+))?\\s*\\{"@,
        DeclKind::Const => "(?m)^(?:/\\*\\*[\\s\\S]*?\\*/\\s*)?(export)\\s+const\\s+(\\w+)(?:\\s*:\\s*([^=]+))?\\s*="@,
        DeclKind::Class => "(?m)^(?:/\\*\\*[\\s\\S]*?\\*/\\s*)?(export)\\s+class\\s+(\\w+)(?:<[^>]+>)?(?:\\s+extends\\s+[^{]+)?(?:\\s+implements\\s+[^{]+)?\\s*\\{"@,
        DeclKind::Enum => "(?m)^(?:/\\*\\*[\\s\\S]*?\\*/\\s*)?(export)\\s+(?:const\\s+)?enum\\s+(\\w+)\\s*\\{"@,
    }
}

pub fn pattern_text(kind: DeclKind) -> (r: &'static str)
    ensures
        r@ == pattern_of(kind),
{
    match kind {
        DeclKind::Interface => "(?m)^(?:/\\*\\*[\\s\\S]*?\\*/\\s*)?(export)\\s+interface\\s+(\\w+)(?:<[^>]+>)?\\s*\\{([^}]*)\\}",
        DeclKind::Type => "(?m)^(?:/\\*\\*[\\s\\S]*?\\*/\\s*)?(export)\\s+type\\s+(\\w+)(?:<[^>]+>)?\\s*=\\s*([^;]+);",
        DeclKind::Function => "(?m)^(?:/\\*\\*[\\s\\S]*?\\*/\\s*)?(export)\\s+(?:async\\s+)?function\\s+(\\w+)\\s*(?:<[^>]+>)?\\s*\\(([^)]*)\\)(?:\\s*:\\s*([^{]+))?\\s*\\{",
        DeclKind::Const => "(?m)^(?:/\\*\\*[\\s\\S]*?\\*/\\s*)?(export)\\s+const\\s+(\\w+)(?:\\s*:\\s*([^=]+))?\\s*=",
        DeclKind::Class => "(?m)^(?:/\\*\\*[\\s\\S]*?\\*/\\s*)?(export)\\s+class\\s+(\\w+)(?:<[^>]+>)?(?:\\s+extends\\s+[^{]+)?(?:\\s+implements\\s+[^{]+)?\\s*\\{",
        DeclKind::Enum => "(?m)^(?:/\\*\\*[\\s\\S]*?\\*/\\s*)?(export)\\s+(?:const\\s+)?enum\\s+(\\w+)\\s*\\{",
    }
}

/// The number of occurrences of `c` in `s`.
pub open spec fn count_char(s: Seq<char>, c: char) -> nat
    decreases s.len(),
{
    if s.len() == 0 {
        0
    } else {
        count_char(s.drop_last(), c) + if s.last() == c {
            1nat
        } else {
            0nat
        }
    }
}

pub proof fn lemma_count_char_bound(s: Seq<char>, c: char)
    ensures
        count_char(s, c) <= s.len(),
    decreases s.len(),
{
    if s.len() > 0 {
        lemma_count_char_bound(s.drop_last(), c);
    }
}

/// The number of the line that follows `before`, counted from 1, held to
/// what a `usize` can hold.
pub open spec fn line_after(before: Seq<char>) -> nat {
    if count_char(before, '\n') < usize::MAX {
        count_char(before, '\n') + 1
    } else {
        usize::MAX as nat
    }
}

/// The group `i` of the match, if it took part in it.
pub open spec fn group(m: Seq<Option<GroupView>>, i: int) -> Option<GroupView> {
    if 0 <= i < m.len() {
        m[i]
    } else {
        None
    }
}

/// The text of group `i` of the match, if it took part in it.
pub open spec fn group_text(m: Seq<Option<GroupView>>, i: int) -> Option<Seq<char>> {
    match group(m, i) {
        Some(g) => Some(g.text),
        None => None,
    }
}

/// The text of an optional group, empty where it is absent.
pub open spec fn text_or_empty(t: Option<Seq<char>>) -> Seq<char> {
    match t {
        Some(s) => s,
        None => Seq::empty(),
    }
}

/// The parameter that one segment of a parameter list declares; none for
/// a segment of white space. The optional marker `?` is taken out before
/// the segment is split at its first colon into name and type.
pub open spec fn param_of_segment(segment: Seq<char>, docs: Map<Seq<char>, Seq<char>>) -> Option<
    ParameterView,
> {
    let p = trim(segment);
    if p.len() == 0 {
        None
    } else {
        let q = remove_char(p, '?');
        let i = first_index(q, ':');
        let name = if i < q.len() {
            trim(q.subrange(0, i as int))
        } else {
            trim(q)
        };
        Some(
            ParameterView {
                name,
                type_annotation: if i < q.len() {
                    trim(q.subrange(i as int + 1, q.len() as int))
                } else {
                    "unknown"@
                },
                description: lookup(docs, name),
                optional: has_char(p, '?'),
                default: None,
            },
        )
    }
}

/// The parameters that the segments declare, in order.
pub open spec fn params_of_segments(
    segments: Seq<Seq<char>>,
    docs: Map<Seq<char>, Seq<char>>,
) -> Seq<ParameterView>
    decreases segments.len(),
{
    if segments.len() == 0 {
        Seq::empty()
    } else {
        let front = params_of_segments(segments.drop_last(), docs);
        match param_of_segment(segments.last(), docs) {
            Some(p) => front.push(p),
            None => front,
        }
    }
}

/// The parameters of a raw parameter list, which is split at every comma.
pub open spec fn parse_params(params_str: Seq<char>, docs: Map<Seq<char>, Seq<char>>) -> Seq<
    ParameterView,
> {
    params_of_segments(split_on(params_str, ','), docs)
}

/// The signature text of a declaration.
pub open spec fn signature_of(kind: DeclKind, name: Seq<char>, m: Seq<Option<GroupView>>) -> Option<
    Seq<char>,
> {
    match kind {
        DeclKind::Interface => Some("interface "@ + name),
        DeclKind::Type => Some(
            "type "@ + name + " = "@ + trim(text_or_empty(group_text(m, 3))),
        ),
        DeclKind::Function => Some(
            "function "@ + name + "("@ + text_or_empty(group_text(m, 3)) + ")"@,
        ),
        DeclKind::Const => match group_text(m, 3) {
            Some(t) => Some("const "@ + name + ": "@ + trim(t)),
            None => None,
        },
        DeclKind::Class => Some("class "@ + name),
        DeclKind::Enum => Some("enum "@ + name),
    }
}

/// The parameters of a declaration: those of its parameter list for a
/// function, none for any other kind.
pub open spec fn params_of(kind: DeclKind, m: Seq<Option<GroupView>>, doc: JsDocView) -> Seq<
    ParameterView,
> {
    if kind == DeclKind::Function {
        parse_params(text_or_empty(group_text(m, 3)), doc.params)
    } else {
        Seq::empty()
    }
}

/// The return type of a declaration: the annotation behind the parameter
/// list of a function, trimmed.
pub open spec fn returns_of(kind: DeclKind, m: Seq<Option<GroupView>>) -> Option<Seq<char>> {
    if kind == DeclKind::Function {
        match group_text(m, 4) {
            Some(t) => Some(trim(t)),
            None => None,
        }
    } else {
        None
    }
}

/// The record of one match. The declaration begins at the `export`
/// keyword, group 1: its line and its doc comment are taken from the text
/// in front of that keyword. A match without that group, with one that
/// does not begin between two characters of the content, or without a
/// name gives no record.
pub open spec fn export_of_match(
    kind: DeclKind,
    path: Seq<char>,
    content: Seq<char>,
    m: Seq<Option<GroupView>>,
) -> Option<ExportView> {
    match (group(m, 1), group_text(m, 2)) {
        (Some(keyword), Some(name)) => match text_before(content, keyword.start as int) {
            Some(before) => if name.len() > 0 {
                let doc = doc_comment_before(before);
                Some(
                    ExportView {
                        name,
                        kind: kind.export_kind(),
                        description: doc.description,
                        source_file: path,
                        line: line_after(before),
                        signature: signature_of(kind, name, m),
                        params: params_of(kind, m, doc),
                        returns: returns_of(kind, m),
                        examples: doc.examples,
                        deprecated: doc.deprecated,
                    },
                )
            } else {
                None
            },
            None => None,
        },
        _ => None,
    }
}

/// The records of the matches of one pass, in the order of the matches.
pub open spec fn exports_of_matches(
    kind: DeclKind,
    path: Seq<char>,
    content: Seq<char>,
    matches: Seq<Seq<Option<GroupView>>>,
) -> Seq<ExportView>
    decreases matches.len(),
{
    if matches.len() == 0 {
        Seq::empty()
    } else {
        let front = exports_of_matches(kind, path, content, matches.drop_last());
        match export_of_match(kind, path, content, matches.last()) {
            Some(e) => front.push(e),
            None => front,
        }
    }
}

/// The records of the pass for `kind` over `content`.
pub open spec fn pass_exports(kind: DeclKind, path: Seq<char>, content: Seq<char>) -> Seq<
    ExportView,
> {
    exports_of_matches(kind, path, content, regex_captures(pattern_of(kind), content))
}

/// The records of a file: those of the six passes, in the order
/// interface, type, function, const, class, enum.
pub open spec fn scan_exports(path: Seq<char>, content: Seq<char>) -> Seq<ExportView> {
    pass_exports(DeclKind::Interface, path, content) + pass_exports(
        DeclKind::Type,
        path,
        content,
    ) + pass_exports(DeclKind::Function, path, content) + pass_exports(
        DeclKind::Const,
        path,
        content,
    ) + pass_exports(DeclKind::Class, path, content) + pass_exports(
        DeclKind::Enum,
        path,
        content,
    )
}

/// Whether the patterns of all six passes are accepted.
pub open spec fn patterns_valid() -> bool {
    &&& regex_is_valid(pattern_of(DeclKind::Interface))
    &&& regex_is_valid(pattern_of(DeclKind::Type))
    &&& regex_is_valid(pattern_of(DeclKind::Function))
    &&& regex_is_valid(pattern_of(DeclKind::Const))
    &&& regex_is_valid(pattern_of(DeclKind::Class))
    &&& regex_is_valid(pattern_of(DeclKind::Enum))
}

/// Every record of a pass names its symbol, has the kind of the pass and
/// the path of the file, and there is at most one record per match.
pub proof fn lemma_pass_records(
    kind: DeclKind,
    path: Seq<char>,
    content: Seq<char>,
    matches: Seq<Seq<Option<GroupView>>>,
)
    ensures
        exports_of_matches(kind, path, content, matches).len() <= matches.len(),
        forall|i: int|
            0 <= i < exports_of_matches(kind, path, content, matches).len() ==> {
                let e = #[trigger] exports_of_matches(kind, path, content, matches)[i];
                e.well_formed() && e.kind == kind.export_kind() && e.source_file == path
            },
    decreases matches.len(),
{
    if matches.len() > 0 {
        lemma_pass_records(kind, path, content, matches.drop_last());
    }
}

/// Every record of a file names its symbol and has the path of the file.
pub proof fn lemma_scan_records(path: Seq<char>, content: Seq<char>)
    ensures
        forall|i: int|
            0 <= i < scan_exports(path, content).len() ==> {
                let e = #[trigger] scan_exports(path, content)[i];
                e.well_formed() && e.source_file == path
            },
{
    lemma_pass_records(
        DeclKind::Interface,
        path,
        content,
        regex_captures(pattern_of(DeclKind::Interface), content),
    );
    lemma_pass_records(
        DeclKind::Type,
        path,
        content,
        regex_captures(pattern_of(DeclKind::Type), content),
    );
    lemma_pass_records(
        DeclKind::Function,
        path,
        content,
        regex_captures(pattern_of(DeclKind::Function), content),
    );
    lemma_pass_records(
        DeclKind::Const,
        path,
        content,
        regex_captures(pattern_of(DeclKind::Const), content),
    );
    lemma_pass_records(
        DeclKind::Class,
        path,
        content,
        regex_captures(pattern_of(DeclKind::Class), content),
    );
    lemma_pass_records(
        DeclKind::Enum,
        path,
        content,
        regex_captures(pattern_of(DeclKind::Enum), content),
    );
}

/// A text in which no pattern finds a declaration has no export records.
pub proof fn lemma_no_declarations_no_exports(path: Seq<char>, content: Seq<char>)
    requires
        regex_captures(pattern_of(DeclKind::Interface), content).len() == 0,
        regex_captures(pattern_of(DeclKind::Type), content).len() == 0,
        regex_captures(pattern_of(DeclKind::Function), content).len() == 0,
        regex_captures(pattern_of(DeclKind::Const), content).len() == 0,
        regex_captures(pattern_of(DeclKind::Class), content).len() == 0,
        regex_captures(pattern_of(DeclKind::Enum), content).len() == 0,
    ensures
        scan_exports(path, content) == Seq::<ExportView>::empty(),
{
    assert(scan_exports(path, content) =~= Seq::<ExportView>::empty());
}

/// A segment that holds the optional marker declares an optional
/// parameter, and the marker is not part of the parameter's name.
pub proof fn lemma_optional_marker(segment: Seq<char>, docs: Map<Seq<char>, Seq<char>>)
    requires
        has_char(segment, '?'),
    ensures
        param_of_segment(segment, docs) is Some,
        param_of_segment(segment, docs)->Some_0.optional,
        !has_char(param_of_segment(segment, docs)->Some_0.name, '?'),
{
    crate::text::lemma_trim_keeps_char(segment, '?');
    let p = trim(segment);
    let q = remove_char(p, '?');
    crate::text::lemma_remove_char_absent(p, '?');
    let i = first_index(q, ':');
    crate::text::lemma_first_index(q, ':');
    if i < q.len() {
        crate::text::lemma_subrange_lacks_char(q, 0, i as int, '?');
        crate::text::lemma_trim_lacks_char(q.subrange(0, i as int), '?');
    } else {
        crate::text::lemma_trim_lacks_char(q, '?');
    }
}

/// Counts the line feeds of `s`.
pub fn count_lines(s: &str) -> (r: usize)
    ensures
        r == count_char(s@, '\n'),
{
    let chars: Vec<char> = chars_of(s);
    let mut count: usize = 0;
    let mut i: usize = 0;
    while i < chars.len()
        invariant
            i <= chars.len(),
            count <= i,
            count == count_char(chars@.take(i as int), '\n'),
        decreases chars.len() - i,
    {
        proof {
            assert(chars@.take(i + 1).drop_last() =~= chars@.take(i as int));
        }
        if chars[i] == '\n' {
            count += 1;
        }
        i += 1;
    }
    proof {
        assert(chars@.take(chars.len() as int) =~= chars@);
    }
    count
}

fn parameter_from_segment(segment: &[char], jsdoc: &JsDoc) -> (r: Option<Parameter>)
    ensures
        r.deep_view() == param_of_segment(segment@, jsdoc@.params),
{
    let p: &[char] = trimmed(segment);
    if p.len() == 0 {
        return None;
    }
    let optional: bool = contains_char(p, '?');
    let q: Vec<char> = without_char(p, '?');
    proof {
        assert(q@.subrange(0, q@.len() as int) =~= q@);
    }
    let i: usize = find_char(q.as_slice(), 0, ':');
    let name: &[char] = if i < q.len() {
        trimmed(slice_subrange(q.as_slice(), 0, i))
    } else {
        trimmed(q.as_slice())
    };
    let type_annotation: String = if i < q.len() {
        string_of(trimmed(slice_subrange(q.as_slice(), i + 1, q.len())))
    } else {
        "unknown".to_owned()
    };
    let description: Option<String> = jsdoc.description_of(name);
    Some(
        Parameter { name: string_of(name), type_annotation, description, optional, default: None },
    )
}

/// Reads the parameters of a raw parameter list. The list is split at
/// every comma, also at one inside a type or a default value.
pub fn parse_function_params(params_str: &str, jsdoc: &JsDoc) -> (r: Vec<Parameter>)
    ensures
        r.deep_view() == parse_params(params_str@, jsdoc@.params),
{
    let chars: Vec<char> = chars_of(params_str);
    let segments: Vec<Vec<char>> = split_all(chars.as_slice(), ',');
    let mut params: Vec<Parameter> = Vec::new();
    let mut i: usize = 0;
    proof {
        assert(params.deep_view() =~= Seq::<ParameterView>::empty());
    }
    while i < segments.len()
        invariant
            i <= segments.len(),
            params.deep_view() == params_of_segments(
                texts(segments@).take(i as int),
                jsdoc@.params,
            ),
        decreases segments.len() - i,
    {
        proof {
            assert(texts(segments@).take(i + 1).drop_last() =~= texts(segments@).take(i as int));
        }
        match parameter_from_segment(segments[i].as_slice(), jsdoc) {
            Some(p) => {
                let ghost before = params.deep_view();
                let ghost pv = p@;
                params.push(p);
                proof {
                    assert(params.deep_view() =~= before.push(pv));
                }
            },
            None => {},
        }
        i += 1;
    }
    proof {
        assert(texts(segments@).take(segments.len() as int) =~= texts(segments@));
    }
    params
}

fn group_at(m: &RawMatch, i: usize) -> (r: Option<&CaptureGroup>)
    ensures
        r.deep_view() == group(m.deep_view(), i as int),
{
    if i < m.groups.len() {
        m.groups[i].as_ref()
    } else {
        None
    }
}

fn group_string(m: &RawMatch, i: usize) -> (r: Option<String>)
    ensures
        r.deep_view() == group_text(m.deep_view(), i as int),
{
    match group_at(m, i) {
        Some(g) => Some(g.text.clone()),
        None => None,
    }
}

fn trimmed_string(s: &str) -> (r: String)
    ensures
        r@ == trim(s@),
{
    let chars: Vec<char> = chars_of(s);
    string_of(trimmed(chars.as_slice()))
}

fn signature_for(kind: DeclKind, name: &str, m: &RawMatch) -> (r: Option<String>)
    ensures
        r.deep_view() == signature_of(kind, name@, m.deep_view()),
{
    match kind {
        DeclKind::Interface => {
            let mut s: String = "interface ".to_owned();
            s.append(name);
            Some(s)
        },
        DeclKind::Type => {
            let value: String = match group_string(m, 3) {
                Some(t) => trimmed_string(t.as_str()),
                None => trimmed_string(""),
            };
            proof {
                reveal_strlit("");
                assert(""@ =~= Seq::<char>::empty());
            }
            let mut s: String = "type ".to_owned();
            s.append(name);
            s.append(" = ");
            s.append(value.as_str());
            Some(s)
        },
        DeclKind::Function => {
            let mut s: String = "function ".to_owned();
            s.append(name);
            s.append("(");
            match group_string(m, 3) {
                Some(t) => {
                    s.append(t.as_str());
                },
                None => {
                    proof {
                        assert(s@ + Seq::<char>::empty() =~= s@);
                    }
                },
            }
            s.append(")");
            Some(s)
        },
        DeclKind::Const => match group_string(m, 3) {
            Some(t) => {
                let annotation: String = trimmed_string(t.as_str());
                let mut s: String = "const ".to_owned();
                s.append(name);
                s.append(": ");
                s.append(annotation.as_str());
                Some(s)
            },
            None => None,
        },
        DeclKind::Class => {
            let mut s: String = "class ".to_owned();
            s.append(name);
            Some(s)
        },
        DeclKind::Enum => {
            let mut s: String = "enum ".to_owned();
            s.append(name);
            Some(s)
        },
    }
}

/// Builds the record of one match.
pub fn export_from_match(kind: DeclKind, path: &str, content: &str, m: &RawMatch) -> (r: Option<
    Export,
>)
    ensures
        r.deep_view() == export_of_match(kind, path@, content@, m.deep_view()),
{
    let offset: usize = match group_at(m, 1) {
        Some(g) => g.start,
        None => {
            return None;
        },
    };
    let name: String = match group_string(m, 2) {
        Some(n) => n,
        None => {
            return None;
        },
    };
    if !content.is_char_boundary(offset) || name.as_str().is_empty() {
        return None;
    }
    let (before, _) = content.split_at(offset);
    proof {
        vstd::utf8::encode_utf8_decode_utf8(before@);
        lemma_count_char_bound(before@, '\n');
    }
    let newlines: usize = count_lines(before);
    let line: usize = if newlines < usize::MAX {
        newlines + 1
    } else {
        usize::MAX
    };
    let doc: JsDoc = extract_jsdoc(content, offset);
    let signature: Option<String> = signature_for(kind, name.as_str(), m);
    let mut params: Vec<Parameter> = Vec::new();
    let mut return_type: Option<String> = None;
    proof {
        assert(params.deep_view() =~= Seq::<ParameterView>::empty());
    }
    if kind == DeclKind::Function {
        params = match group_string(m, 3) {
            Some(t) => parse_function_params(t.as_str(), &doc),
            None => {
                proof {
                    reveal_strlit("");
                    assert(""@ =~= Seq::<char>::empty());
                }
                parse_function_params("", &doc)
            },
        };
        return_type = match group_string(m, 4) {
            Some(t) => Some(trimmed_string(t.as_str())),
            None => None,
        };
    }
    Some(
        Export {
            name,
            kind: kind.to_export_kind(),
            description: doc.description,
            source_file: path.to_owned(),
            line,
            signature,
            params,
            returns: return_type,
            examples: doc.examples,
            deprecated: doc.deprecated,
        },
    )
}

/// Builds the records of the matches of one pass.
pub fn exports_from_matches(
    kind: DeclKind,
    path: &str,
    content: &str,
    matches: &Vec<RawMatch>,
) -> (r: Vec<Export>)
    ensures
        r.deep_view() == exports_of_matches(kind, path@, content@, matches.deep_view()),
{
    let mut out: Vec<Export> = Vec::new();
    let mut i: usize = 0;
    proof {
        assert(out.deep_view() =~= Seq::<ExportView>::empty());
    }
    while i < matches.len()
        invariant
            i <= matches.len(),
            out.deep_view() == exports_of_matches(
                kind,
                path@,
                content@,
                matches.deep_view().take(i as int),
            ),
        decreases matches.len() - i,
    {
        proof {
            assert(matches.deep_view().take(i + 1).drop_last() =~= matches.deep_view().take(
                i as int,
            ));
        }
        match export_from_match(kind, path, content, &matches[i]) {
            Some(e) => {
                let ghost before = out.deep_view();
                let ghost ev = e@;
                out.push(e);
                proof {
                    assert(out.deep_view() =~= before.push(ev));
                }
            },
            None => {},
        }
        i += 1;
    }
    proof {
        assert(matches.deep_view().take(matches.len() as int) =~= matches.deep_view());
    }
    out
}

fn scan_pass(kind: DeclKind, path: &str, content: &str, out: &mut Vec<Export>) -> (r: Result<
    (),
    ScanError,
>)
    ensures
        r is Ok <==> regex_is_valid(pattern_of(kind)),
        r is Ok ==> final(out).deep_view() == old(out).deep_view() + pass_exports(
            kind,
            path@,
            content@,
        ),
        r is Err ==> r == Err::<(), ScanError>(ScanError::InvalidPattern(kind)) && *final(out)
            == *old(out),
{
    match find_captures(pattern_text(kind), content) {
        Ok(matches) => {
            let mut found: Vec<Export> = exports_from_matches(kind, path, content, &matches);
            let ghost before = out.deep_view();
            let ghost added = found.deep_view();
            out.append(&mut found);
            proof {
                assert(out.deep_view() =~= before + added);
            }
            Ok(())
        },
        Err(_) => Err(ScanError::InvalidPattern(kind)),
    }
}

/// Scans the text `content` of the file at `path` for exported
/// declarations. Fails with the kind of the first pass whose pattern is
/// not accepted as a regular expression.
pub fn extract_file(path: &str, content: &str) -> (r: Result<Vec<Export>, ScanError>)
    ensures
        r is Ok <==> patterns_valid(),
        r matches Ok(exports) ==> exports.deep_view() == scan_exports(path@, content@),
        r matches Err(ScanError::InvalidPattern(kind)) ==> !regex_is_valid(pattern_of(kind)),
{
    let mut out: Vec<Export> = Vec::new();
    proof {
        assert(out.deep_view() =~= Seq::<ExportView>::empty());
    }
    scan_pass(DeclKind::Interface, path, content, &mut out)?;
    scan_pass(DeclKind::Type, path, content, &mut out)?;
    scan_pass(DeclKind::Function, path, content, &mut out)?;
    scan_pass(DeclKind::Const, path, content, &mut out)?;
    scan_pass(DeclKind::Class, path, content, &mut out)?;
    scan_pass(DeclKind::Enum, path, content, &mut out)?;
    proof {
        assert(out.deep_view() =~= scan_exports(path@, content@));
    }
    Ok(out)
}

} // verus!
