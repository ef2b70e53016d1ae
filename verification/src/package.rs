//! The package extractor.
//!
//! The caller reads the files of a package; from their texts the extractor
//! scans the entry points and the source tree, keeps the exports of each
//! file under its path, and assembles the package model. Which files of
//! a walked tree are to be read is decided here too: the source files that
//! no exclusion pattern matches. The files are kept in the order of their
//! paths, so that the result does not depend on the order in which the
//! tree was walked.

use crate::markdown::file_name;
use crate::markdown::file_name_of;
use crate::scanner::{extract_file, patterns_valid, scan_exports, ScanError};
use crate::text::{chars_of, find_last, lemma_find_last, rfind};
use crate::types::{
    append_copies, Export, ExportView, ExtractedDocs, ExtractedDocsView, Package, PackageConfig,
    PackageConfigView, PackageView,
};
use vstd::prelude::*;
use vstd::slice::slice_subrange;

verus! {

/// A file of the package as the caller read it.
#[derive(Debug, Clone)]
pub struct SourceFile {
    /// The path of the file
    pub path: String,
    /// The text of the file
    pub content: String,
}

pub struct SourceFileView {
    pub path: Seq<char>,
    pub content: Seq<char>,
}

impl DeepView for SourceFile {
    type V = SourceFileView;

    open spec fn deep_view(&self) -> SourceFileView {
        SourceFileView { path: self.path@, content: self.content@ }
    }
}

/// How one text stands to another in the order of paths.
#[derive(Debug, Clone, Copy, PartialEq, Eq, Structural)]
pub enum Relation {
    Before,
    Same,
    After,
}

/// The order of paths: character by character, by code point; a proper
/// prefix comes first.
pub open spec fn precedes(a: Seq<char>, b: Seq<char>) -> bool
    decreases a.len(),
{
    if b.len() == 0 {
        false
    } else if a.len() == 0 {
        true
    } else if a[0] != b[0] {
        (a[0] as u32) < (b[0] as u32)
    } else {
        precedes(a.drop_first(), b.drop_first())
    }
}

/// No text precedes itself, and of two texts at most one precedes the
/// other.
pub proof fn lemma_precedes_asymmetric(a: Seq<char>, b: Seq<char>)
    ensures
        precedes(a, b) ==> !precedes(b, a) && a != b,
    decreases a.len(),
{
    if a.len() > 0 && b.len() > 0 && a[0] == b[0] {
        lemma_precedes_asymmetric(a.drop_first(), b.drop_first());
        if a == b {
            assert(a.drop_first() =~= b.drop_first());
        }
    }
}

/// Of two different texts one precedes the other.
pub proof fn lemma_precedes_total(a: Seq<char>, b: Seq<char>)
    ensures
        precedes(a, b) || precedes(b, a) || a == b,
    decreases a.len(),
{
    if a.len() > 0 && b.len() > 0 && a[0] == b[0] {
        lemma_precedes_total(a.drop_first(), b.drop_first());
        if a.drop_first() == b.drop_first() {
            assert(a =~= seq![a[0]] + a.drop_first());
            assert(b =~= seq![b[0]] + b.drop_first());
        }
    } else if a.len() == 0 && b.len() == 0 {
        assert(a =~= b);
    } else if a.len() > 0 && b.len() > 0 {
        vstd::utf8::char_u32_cast(a[0], a[0] as u32);
        vstd::utf8::char_u32_cast(b[0], b[0] as u32);
    }
}

/// The order of paths is transitive.
pub proof fn lemma_precedes_transitive(a: Seq<char>, b: Seq<char>, c: Seq<char>)
    requires
        precedes(a, b),
        precedes(b, c),
    ensures
        precedes(a, c),
    decreases a.len(),
{
    if a.len() > 0 && a[0] == b[0] && b[0] == c[0] {
        lemma_precedes_transitive(a.drop_first(), b.drop_first(), c.drop_first());
    }
}

/// Whether the paths of `files` stand in ascending order; no path occurs
/// twice then.
pub open spec fn sorted_by_path(files: Seq<(Seq<char>, Seq<ExportView>)>) -> bool {
    forall|i: int, j: int|
        0 <= i < j < files.len() ==> precedes((#[trigger] files[i]).0, (#[trigger] files[j]).0)
}

/// Whether `files` holds an entry for `path`.
pub open spec fn has_path(files: Seq<(Seq<char>, Seq<ExportView>)>, path: Seq<char>) -> bool {
    exists|i: int| 0 <= i < files.len() && (#[trigger] files[i]).0 == path
}

/// `files` with the exports of `path` set: a new entry at its place in the
/// order of paths, or the entry of that path replaced.
pub open spec fn put(
    files: Seq<(Seq<char>, Seq<ExportView>)>,
    path: Seq<char>,
    exports: Seq<ExportView>,
) -> Seq<(Seq<char>, Seq<ExportView>)>
    decreases files.len(),
{
    if files.len() == 0 {
        seq![(path, exports)]
    } else if precedes(files[0].0, path) {
        seq![files[0]] + put(files.drop_first(), path, exports)
    } else if files[0].0 == path {
        seq![(path, exports)] + files.drop_first()
    } else {
        seq![(path, exports)] + files
    }
}

/// Setting an entry keeps the paths in order.
pub proof fn lemma_put_sorted(
    files: Seq<(Seq<char>, Seq<ExportView>)>,
    path: Seq<char>,
    exports: Seq<ExportView>,
)
    requires
        sorted_by_path(files),
    ensures
        sorted_by_path(put(files, path, exports)),
        put(files, path, exports).len() > 0,
        put(files, path, exports)[0].0 == path || (files.len() > 0 && put(files, path, exports)[0].0
            == files[0].0),
    decreases files.len(),
{
    let out = put(files, path, exports);
    if files.len() == 0 {
    } else if precedes(files[0].0, path) {
        let rest = files.drop_first();
        assert(sorted_by_path(rest)) by {
            assert forall|i: int, j: int| 0 <= i < j < rest.len() implies precedes(
                (#[trigger] rest[i]).0,
                (#[trigger] rest[j]).0,
            ) by {
                assert(rest[i] == files[i + 1]);
                assert(rest[j] == files[j + 1]);
            }
        }
        lemma_put_sorted(rest, path, exports);
        let tail = put(rest, path, exports);
        assert forall|i: int, j: int| 0 <= i < j < out.len() implies precedes(
            (#[trigger] out[i]).0,
            (#[trigger] out[j]).0,
        ) by {
            if i == 0 {
                assert(out[0] == files[0]);
                assert(out[j] == tail[j - 1]);
                // the head of the tail is `path` or the next file
                if tail[0].0 != path {
                    assert(tail[0].0 == rest[0].0);
                    assert(rest[0] == files[1]);
                    assert(precedes(files[0].0, files[1].0));
                }
                if j > 1 {
                    assert(precedes(tail[0].0, tail[j - 1].0));
                    lemma_precedes_transitive(files[0].0, tail[0].0, tail[j - 1].0);
                }
            } else {
                assert(out[i] == tail[i - 1]);
                assert(out[j] == tail[j - 1]);
            }
        }
    } else if files[0].0 == path {
        assert forall|i: int, j: int| 0 <= i < j < out.len() implies precedes(
            (#[trigger] out[i]).0,
            (#[trigger] out[j]).0,
        ) by {
            assert(out[j] == files[j]);
            if i == 0 {
                assert(precedes(files[0].0, files[j].0));
            } else {
                assert(out[i] == files[i]);
            }
        }
    } else {
        lemma_precedes_total(files[0].0, path);
        assert forall|i: int, j: int| 0 <= i < j < out.len() implies precedes(
            (#[trigger] out[i]).0,
            (#[trigger] out[j]).0,
        ) by {
            assert(out[j] == files[j - 1]);
            if i == 0 {
                if j > 1 {
                    assert(precedes(files[0].0, files[j - 1].0));
                    lemma_precedes_transitive(path, files[0].0, files[j - 1].0);
                }
            } else {
                assert(out[i] == files[i - 1]);
            }
        }
    }
}

/// The exports of all files, file by file in the order of `files`.
pub open spec fn all_exports(files: Seq<(Seq<char>, Seq<ExportView>)>) -> Seq<ExportView>
    decreases files.len(),
{
    if files.len() == 0 {
        Seq::empty()
    } else {
        all_exports(files.drop_last()) + files.last().1
    }
}

/// The extension of the file name of `path`: what follows its last `.`,
/// unless the name has none or begins with its only one.
pub open spec fn extension(path: Seq<char>) -> Option<Seq<char>> {
    let name = file_name(path);
    match find_last(name, seq!['.']) {
        Some(i) => if i > 0 {
            Some(name.subrange(i + 1, name.len() as int))
        } else {
            None
        },
        None => None,
    }
}

/// Whether `path` names a source file: its extension is `ts` or `tsx`.
pub open spec fn has_source_extension(path: Seq<char>) -> bool {
    extension(path) == Some("ts"@) || extension(path) == Some("tsx"@)
}

/// `files` after the scan of an entry point: its exports are kept under
/// its path, also where it has none.
pub open spec fn with_entry(files: Seq<(Seq<char>, Seq<ExportView>)>, f: SourceFileView) -> Seq<
    (Seq<char>, Seq<ExportView>),
> {
    put(files, f.path, scan_exports(f.path, f.content))
}

pub open spec fn with_entries(
    files: Seq<(Seq<char>, Seq<ExportView>)>,
    entries: Seq<SourceFileView>,
) -> Seq<(Seq<char>, Seq<ExportView>)>
    decreases entries.len(),
{
    if entries.len() == 0 {
        files
    } else {
        with_entry(with_entries(files, entries.drop_last()), entries.last())
    }
}

/// `files` after a file of the source tree: a source file that has no
/// entry yet is scanned, and kept where it has an export.
pub open spec fn with_tree_file(files: Seq<(Seq<char>, Seq<ExportView>)>, f: SourceFileView) -> Seq<
    (Seq<char>, Seq<ExportView>),
> {
    if has_source_extension(f.path) && !has_path(files, f.path) && scan_exports(
        f.path,
        f.content,
    ).len() > 0 {
        put(files, f.path, scan_exports(f.path, f.content))
    } else {
        files
    }
}

pub open spec fn with_tree_files(
    files: Seq<(Seq<char>, Seq<ExportView>)>,
    tree: Seq<SourceFileView>,
) -> Seq<(Seq<char>, Seq<ExportView>)>
    decreases tree.len(),
{
    if tree.len() == 0 {
        files
    } else {
        with_tree_file(with_tree_files(files, tree.drop_last()), tree.last())
    }
}

/// The file map of a package: the entry points first, then the tree.
pub open spec fn package_files(entries: Seq<SourceFileView>, tree: Seq<SourceFileView>) -> Seq<
    (Seq<char>, Seq<ExportView>),
> {
    with_tree_files(with_entries(Seq::empty(), entries), tree)
}

/// Whether the extraction scans no file at all.
pub open spec fn scans_nothing(entries: Seq<SourceFileView>, tree: Seq<SourceFileView>) -> bool {
    entries.len() == 0 && forall|i: int|
        0 <= i < tree.len() ==> !has_source_extension((#[trigger] tree[i]).path)
}

/// Whether the answers say that an exclusion pattern matches the path at
/// `index`; a path without an answer is not excluded.
pub open spec fn excluded_at(excluded: Seq<bool>, index: int) -> bool {
    0 <= index < excluded.len() && excluded[index]
}

/// The files of `tree` that are not excluded, in their order.
pub open spec fn kept_files(tree: Seq<SourceFileView>, excluded: Seq<bool>) -> Seq<SourceFileView>
    decreases tree.len(),
{
    if tree.len() == 0 {
        Seq::empty()
    } else if excluded_at(excluded, tree.len() - 1) {
        kept_files(tree.drop_last(), excluded)
    } else {
        kept_files(tree.drop_last(), excluded).push(tree.last())
    }
}

/// The paths among `paths` that name a source file and are not excluded,
/// in their order: the files of a walked tree that are to be read.
pub open spec fn kept_sources(paths: Seq<Seq<char>>, excluded: Seq<bool>) -> Seq<Seq<char>>
    decreases paths.len(),
{
    if paths.len() == 0 {
        Seq::empty()
    } else if has_source_extension(paths.last()) && !excluded_at(excluded, paths.len() - 1) {
        kept_sources(paths.drop_last(), excluded).push(paths.last())
    } else {
        kept_sources(paths.drop_last(), excluded)
    }
}

/// Where nothing is excluded, every file is kept.
pub proof fn lemma_nothing_excluded_keeps_all(tree: Seq<SourceFileView>, excluded: Seq<bool>)
    requires
        forall|i: int| 0 <= i < tree.len() ==> !excluded_at(excluded, i),
    ensures
        kept_files(tree, excluded) == tree,
    decreases tree.len(),
{
    if tree.len() > 0 {
        lemma_nothing_excluded_keeps_all(tree.drop_last(), excluded);
        assert(!excluded_at(excluded, tree.len() - 1));
    }
    assert(kept_files(tree, excluded) =~= tree);
}

/// A file that is not excluded is among the kept files.
pub proof fn lemma_kept_file_stays(tree: Seq<SourceFileView>, excluded: Seq<bool>, j: int)
    requires
        0 <= j < tree.len(),
        !excluded_at(excluded, j),
    ensures
        exists|k: int|
            0 <= k < kept_files(tree, excluded).len() && #[trigger] kept_files(tree, excluded)[k]
                == tree[j],
    decreases tree.len(),
{
    let kept = kept_files(tree, excluded);
    if j == tree.len() - 1 {
        assert(kept[kept.len() - 1] == tree[j]);
    } else {
        let front = kept_files(tree.drop_last(), excluded);
        lemma_kept_file_stays(tree.drop_last(), excluded, j);
        let k = choose|k: int| 0 <= k < front.len() && #[trigger] front[k] == tree.drop_last()[j];
        assert(kept[k] == front[k]);
    }
}

/// The paths that are kept name source files; a source path that is not
/// excluded is kept; and without exclusions the answers do not matter.
pub proof fn lemma_kept_sources(paths: Seq<Seq<char>>, excluded: Seq<bool>)
    ensures
        kept_sources(paths, excluded).len() <= paths.len(),
        forall|k: int|
            0 <= k < kept_sources(paths, excluded).len() ==> has_source_extension(
                #[trigger] kept_sources(paths, excluded)[k],
            ) && paths.contains(kept_sources(paths, excluded)[k]),
        forall|i: int|
            0 <= i < paths.len() && has_source_extension(#[trigger] paths[i]) && !excluded_at(
                excluded,
                i,
            ) ==> kept_sources(paths, excluded).contains(paths[i]),
        (forall|i: int| 0 <= i < paths.len() ==> !excluded_at(excluded, i)) ==> kept_sources(
            paths,
            excluded,
        ) == kept_sources(paths, Seq::empty()),
    decreases paths.len(),
{
    let kept = kept_sources(paths, excluded);
    if paths.len() > 0 {
        let front = kept_sources(paths.drop_last(), excluded);
        lemma_kept_sources(paths.drop_last(), excluded);
        assert forall|k: int| 0 <= k < kept.len() implies has_source_extension(#[trigger] kept[k])
            && paths.contains(kept[k]) by {
            if k < front.len() {
                assert(kept[k] == front[k]);
                let i = choose|i: int|
                    0 <= i < paths.drop_last().len() && paths.drop_last()[i] == front[k];
                assert(paths[i] == kept[k]);
            } else {
                assert(kept[k] == paths[paths.len() - 1]);
            }
        }
        assert forall|i: int|
            0 <= i < paths.len() && has_source_extension(#[trigger] paths[i]) && !excluded_at(
                excluded,
                i,
            ) implies kept.contains(paths[i]) by {
            if i < paths.len() - 1 {
                assert(paths.drop_last()[i] == paths[i]);
                let k = choose|k: int| 0 <= k < front.len() && front[k] == paths[i];
                assert(kept[k] == paths[i]);
            } else {
                assert(kept[kept.len() - 1] == paths[i]);
            }
        }
        if forall|i: int| 0 <= i < paths.len() ==> !excluded_at(excluded, i) {
            assert(!excluded_at(excluded, paths.len() - 1));
            assert(kept =~= kept_sources(paths, Seq::empty()));
        }
    }
}

/// The string that `serde_json::Value::get` gives for `key`, read with
/// `Value::as_str`, in the value that `serde_json::from_str` parses from
/// `document`; nothing where the document does not parse, has no such
/// member, or holds no string there.
pub uninterp spec fn json_text_field(document: Seq<char>, key: Seq<char>) -> Option<Seq<char>>;

/// Parses `document` with `serde_json::from_str` as a `serde_json::Value`
/// and reads the member `key` with `Value::get` and `Value::as_str`.
#[verifier::external_body]
pub(crate) fn read_text_field(document: &str, key: &str) -> (r: Option<String>)
    ensures
        r.deep_view() == json_text_field(document@, key@),
{
    match serde_json::from_str::<serde_json::Value>(document) {
        Ok(value) => value.get(key).and_then(|v| v.as_str()).map(|s| s.to_owned()),
        Err(_) => None,
    }
}

/// Calls `glob::Pattern::new` on `pattern` and `Pattern::matches` on
/// `path`; a pattern that is not accepted matches nothing. What matches
/// depends on what the platform takes for a path separator, so nothing is
/// stated of the result.
#[verifier::external_body]
fn glob_matches(pattern: &str, path: &str) -> (r: bool) {
    match glob::Pattern::new(pattern) {
        Ok(compiled) => compiled.matches(path),
        Err(_) => false,
    }
}

/// A metadata field of the manifest, or its default.
pub open spec fn field_or(field: Option<Seq<char>>, default: Seq<char>) -> Seq<char> {
    match field {
        Some(text) => text,
        None => default,
    }
}

/// Name, version and description of a package from the fields of its
/// manifest: `unknown`, `0.0.0` and the empty text stand for what is
/// missing.
pub fn metadata_from_fields(
    name: Option<String>,
    version: Option<String>,
    description: Option<String>,
) -> (r: (String, String, String))
    ensures
        r.0@ == field_or(name.deep_view(), "unknown"@),
        r.1@ == field_or(version.deep_view(), "0.0.0"@),
        r.2@ == field_or(description.deep_view(), Seq::empty()),
{
    let n: String = match name {
        Some(text) => text,
        None => "unknown".to_owned(),
    };
    let v: String = match version {
        Some(text) => text,
        None => "0.0.0".to_owned(),
    };
    let d: String = match description {
        Some(text) => text,
        None => String::new(),
    };
    (n, v, d)
}

/// The metadata of a package with the given manifest text. A package
/// without a manifest, and one whose manifest does not parse, have the
/// defaults.
pub open spec fn package_metadata(manifest: Option<Seq<char>>) -> (Seq<char>, Seq<char>, Seq<char>) {
    match manifest {
        Some(document) => (
            field_or(json_text_field(document, "name"@), "unknown"@),
            field_or(json_text_field(document, "version"@), "0.0.0"@),
            field_or(json_text_field(document, "description"@), Seq::empty()),
        ),
        None => ("unknown"@, "0.0.0"@, Seq::empty()),
    }
}

/// Reads name, version and description from the manifest text.
pub fn read_metadata(manifest: Option<&str>) -> (r: (String, String, String))
    ensures
        (r.0@, r.1@, r.2@) == package_metadata(manifest.deep_view()),
{
    match manifest {
        Some(document) => metadata_from_fields(
            read_text_field(document, "name"),
            read_text_field(document, "version"),
            read_text_field(document, "description"),
        ),
        None => metadata_from_fields(None, None, None),
    }
}

/// Whether one of the flags is set.
pub fn any_set(flags: &Vec<bool>) -> (r: bool)
    ensures
        r == exists|i: int| 0 <= i < flags.len() && flags[i],
{
    let mut i: usize = 0;
    while i < flags.len()
        invariant
            i <= flags.len(),
            forall|j: int| 0 <= j < i ==> !flags[j],
        decreases flags.len() - i,
    {
        if flags[i] {
            return true;
        }
        i += 1;
    }
    false
}

/// Whether one of the exclusion patterns matches `path`. A pattern that
/// is not a valid glob matches nothing.
pub fn is_excluded(path: &str, patterns: &Vec<String>) -> (r: bool)
    ensures
        patterns.len() == 0 ==> !r,
{
    let mut flags: Vec<bool> = Vec::new();
    let mut i: usize = 0;
    while i < patterns.len()
        invariant
            i <= patterns.len(),
            flags.len() == i,
        decreases patterns.len() - i,
    {
        flags.push(glob_matches(patterns[i].as_str(), path));
        i += 1;
    }
    any_set(&flags)
}

/// How `a` stands to `b` in the order of paths.
pub fn relation_of(a: &[char], b: &[char]) -> (r: Relation)
    ensures
        r == Relation::Before <==> precedes(a@, b@),
        r == Relation::Same <==> a@ == b@,
        r == Relation::After <==> precedes(b@, a@),
{
    let n: usize = a.len();
    let m: usize = b.len();
    let mut i: usize = 0;
    proof {
        assert(a@.subrange(0, n as int) =~= a@);
        assert(b@.subrange(0, m as int) =~= b@);
        lemma_precedes_asymmetric(a@, b@);
        lemma_precedes_asymmetric(b@, a@);
    }
    while i < n && i < m && a[i] == b[i]
        invariant
            i <= n,
            i <= m,
            n == a@.len(),
            m == b@.len(),
            precedes(a@, b@) == precedes(a@.subrange(i as int, n as int), b@.subrange(i as int, m as int)),
            precedes(b@, a@) == precedes(b@.subrange(i as int, m as int), a@.subrange(i as int, n as int)),
            a@.subrange(0, i as int) == b@.subrange(0, i as int),
        decreases n - i,
    {
        proof {
            assert(a@.subrange(i as int, n as int).drop_first() =~= a@.subrange(i + 1, n as int));
            assert(b@.subrange(i as int, m as int).drop_first() =~= b@.subrange(i + 1, m as int));
            assert(a@.subrange(0, i + 1) =~= a@.subrange(0, i as int).push(a@[i as int]));
            assert(b@.subrange(0, i + 1) =~= b@.subrange(0, i as int).push(b@[i as int]));
        }
        i += 1;
    }
    let ghost ra = a@.subrange(i as int, n as int);
    let ghost rb = b@.subrange(i as int, m as int);
    if i < n && i < m {
        proof {
            assert(ra[0] == a@[i as int]);
            assert(rb[0] == b@[i as int]);
        }
        if (a[i] as u32) < (b[i] as u32) {
            Relation::Before
        } else {
            proof {
                assert(a@[i as int] as u32 != b@[i as int] as u32) by {
                    vstd::utf8::char_u32_cast(a@[i as int], a@[i as int] as u32);
                    vstd::utf8::char_u32_cast(b@[i as int], b@[i as int] as u32);
                }
            }
            Relation::After
        }
    } else if i < m {
        Relation::Before
    } else if i < n {
        Relation::After
    } else {
        proof {
            assert(a@ =~= b@);
        }
        Relation::Same
    }
}

/// Whether `files` holds an entry for `path`.
pub fn contains_path(files: &Vec<(String, Vec<Export>)>, path: &str) -> (r: bool)
    ensures
        r == has_path(files.deep_view(), path@),
{
    let key: Vec<char> = chars_of(path);
    let mut i: usize = 0;
    while i < files.len()
        invariant
            i <= files.len(),
            key@ == path@,
            forall|j: int| 0 <= j < i ==> (#[trigger] files.deep_view()[j]).0 != path@,
        decreases files.len() - i,
    {
        let current: Vec<char> = chars_of(files[i].0.as_str());
        match relation_of(current.as_slice(), key.as_slice()) {
            Relation::Same => {
                proof {
                    assert(files.deep_view()[i as int].0 == path@);
                }
                return true;
            },
            _ => {},
        }
        i += 1;
    }
    false
}

/// Sets the exports of `path` in `files`.
pub fn insert_file(files: &mut Vec<(String, Vec<Export>)>, path: String, exports: Vec<Export>)
    ensures
        final(files).deep_view() == put(old(files).deep_view(), path@, exports.deep_view()),
{
    let key: Vec<char> = chars_of(path.as_str());
    let ghost start = files.deep_view();
    let ghost k = path@;
    let ghost v = exports.deep_view();
    let mut i: usize = 0;
    proof {
        assert(start.subrange(0, start.len() as int) =~= start);
        assert(start.take(0) + put(start, k, v) =~= put(start, k, v));
    }
    while i < files.len()
        invariant
            i <= files.len(),
            files.deep_view() == start,
            start == old(files).deep_view(),
            key@ == k,
            path@ == k,
            exports.deep_view() == v,
            put(start, k, v) == start.take(i as int) + put(
                start.subrange(i as int, start.len() as int),
                k,
                v,
            ),
        decreases files.len() - i,
    {
        let current: Vec<char> = chars_of(files[i].0.as_str());
        let ghost rest = start.subrange(i as int, start.len() as int);
        proof {
            assert(rest[0] == start[i as int]);
            assert(start[i as int].0 == current@);
            assert(rest.drop_first() =~= start.subrange(i + 1, start.len() as int));
            lemma_precedes_asymmetric(current@, k);
            lemma_precedes_asymmetric(k, current@);
        }
        match relation_of(current.as_slice(), key.as_slice()) {
            Relation::Before => {
                proof {
                    assert(start.take(i as int) + (seq![rest[0]] + put(rest.drop_first(), k, v))
                        =~= start.take(i + 1) + put(rest.drop_first(), k, v));
                }
                i += 1;
            },
            Relation::Same => {
                files.set(i, (path, exports));
                proof {
                    assert(put(rest, k, v) == seq![(k, v)] + rest.drop_first());
                    assert(files.deep_view() =~= start.update(i as int, (k, v)));
                    assert(start.update(i as int, (k, v)) =~= start.take(i as int) + (seq![(k, v)]
                        + rest.drop_first()));
                }
                return ;
            },
            Relation::After => {
                files.insert(i, (path, exports));
                proof {
                    assert(put(rest, k, v) == seq![(k, v)] + rest);
                    assert(files.deep_view() =~= start.insert(i as int, (k, v)));
                    assert(start.insert(i as int, (k, v)) =~= start.take(i as int) + (seq![(k, v)]
                        + rest));
                }
                return ;
            },
        }
    }
    files.push((path, exports));
    proof {
        assert(start.subrange(start.len() as int, start.len() as int) =~= Seq::empty());
        assert(files.deep_view() =~= start.take(start.len() as int) + seq![(k, v)]);
    }
}

/// The extension of the file name of `path`.
pub fn extension_of(path: &str) -> (r: Option<Vec<char>>)
    ensures
        r.deep_view() == extension(path@),
{
    let name: Vec<char> = file_name_of(path);
    let mut dot: Vec<char> = Vec::new();
    dot.push('.');
    proof {
        assert(dot@ =~= seq!['.']);
    }
    let n: usize = name.len();
    match rfind(name.as_slice(), dot.as_slice()) {
        Some(i) => {
            proof {
                lemma_find_last(name@, dot@);
                assert(i + 1 <= n);
            }
            if i > 0 {
                let ext: Vec<char> = crate::text::to_vec(
                    slice_subrange(name.as_slice(), i + 1, n),
                );
                proof {
                    assert(ext.deep_view() =~= ext@);
                }
                Some(ext)
            } else {
                None
            }
        },
        None => None,
    }
}

/// Whether `path` names a source file.
pub fn is_source_path(path: &str) -> (r: bool)
    ensures
        r == has_source_extension(path@),
{
    match extension_of(path) {
        Some(ext) => {
            let ts: Vec<char> = chars_of("ts");
            let tsx: Vec<char> = chars_of("tsx");
            proof {
                assert(ext.deep_view() =~= ext@);
            }
            crate::jsdoc::same_chars(ext.as_slice(), ts.as_slice()) || crate::jsdoc::same_chars(
                ext.as_slice(),
                tsx.as_slice(),
            )
        },
        None => false,
    }
}

/// The answers of the exclusion patterns for `paths`, path by path. A
/// path that names no source file is not asked about, and counts as not
/// excluded.
pub fn exclusion_answers(paths: &Vec<String>, patterns: &Vec<String>) -> (r: Vec<bool>)
    ensures
        r.len() == paths.len(),
        patterns.len() == 0 ==> forall|i: int| 0 <= i < r.len() ==> !r[i],
{
    let mut out: Vec<bool> = Vec::new();
    let mut i: usize = 0;
    while i < paths.len()
        invariant
            i <= paths.len(),
            out.len() == i,
            patterns.len() == 0 ==> forall|j: int| 0 <= j < out.len() ==> !out[j],
        decreases paths.len() - i,
    {
        let path: &str = paths[i].as_str();
        out.push(is_source_path(path) && is_excluded(path, patterns));
        i += 1;
    }
    out
}

/// The source paths among `paths` that the answers do not exclude.
pub fn keep_sources(paths: &Vec<String>, excluded: &Vec<bool>) -> (r: Vec<String>)
    ensures
        r.deep_view() == kept_sources(paths.deep_view(), excluded@),
{
    let mut out: Vec<String> = Vec::new();
    let mut i: usize = 0;
    proof {
        assert(out.deep_view() =~= Seq::<Seq<char>>::empty());
    }
    while i < paths.len()
        invariant
            i <= paths.len(),
            out.deep_view() == kept_sources(paths.deep_view().take(i as int), excluded@),
        decreases paths.len() - i,
    {
        proof {
            assert(paths.deep_view().take(i + 1).drop_last() =~= paths.deep_view().take(i as int));
            assert(paths.deep_view().take(i + 1).last() == paths[i as int]@);
        }
        let skip: bool = i < excluded.len() && excluded[i];
        if !skip && is_source_path(paths[i].as_str()) {
            let ghost before = out.deep_view();
            let kept: String = paths[i].clone();
            out.push(kept);
            proof {
                assert(out.deep_view() =~= before.push(paths[i as int]@));
            }
        }
        i += 1;
    }
    proof {
        assert(paths.deep_view().take(paths.len() as int) =~= paths.deep_view());
    }
    out
}

/// The files to read among the paths of a walked source tree: those that
/// name a source file and that no exclusion pattern matches, in the order
/// of the walk. What a pattern matches is the pattern matcher's answer;
/// whatever it answers, the result is what `kept_sources` keeps. Without
/// patterns every source path is kept.
pub fn source_paths(paths: &Vec<String>, patterns: &Vec<String>) -> (r: Vec<String>)
    ensures
        exists|excluded: Seq<bool>|
            excluded.len() == paths.len() && r.deep_view() == #[trigger] kept_sources(
                paths.deep_view(),
                excluded,
            ),
        forall|k: int| 0 <= k < r.len() ==> has_source_extension(#[trigger] r.deep_view()[k]),
        patterns.len() == 0 ==> r.deep_view() == kept_sources(paths.deep_view(), Seq::empty()),
{
    let excluded: Vec<bool> = exclusion_answers(paths, patterns);
    proof {
        lemma_kept_sources(paths.deep_view(), excluded@);
    }
    keep_sources(paths, &excluded)
}

/// The exports of all files, file by file.
pub fn collect_exports(files: &Vec<(String, Vec<Export>)>) -> (r: Vec<Export>)
    ensures
        r.deep_view() == all_exports(files.deep_view()),
{
    let mut out: Vec<Export> = Vec::new();
    let mut i: usize = 0;
    proof {
        assert(out.deep_view() =~= Seq::<ExportView>::empty());
    }
    while i < files.len()
        invariant
            i <= files.len(),
            out.deep_view() == all_exports(files.deep_view().take(i as int)),
        decreases files.len() - i,
    {
        proof {
            assert(files.deep_view().take(i + 1).drop_last() =~= files.deep_view().take(i as int));
        }
        append_copies(&mut out, &files[i].1);
        i += 1;
    }
    proof {
        assert(files.deep_view().take(files.len() as int) =~= files.deep_view());
    }
    out
}

/// The extracted documentation of a package.
pub open spec fn package_model(
    path: Seq<char>,
    config: PackageConfigView,
    entries: Seq<SourceFileView>,
    tree: Seq<SourceFileView>,
    manifest: Option<Seq<char>>,
    readme: Option<Seq<char>>,
    changelog: Option<Seq<char>>,
) -> ExtractedDocsView {
    let files = package_files(entries, tree);
    let metadata = package_metadata(manifest);
    ExtractedDocsView {
        package: PackageView {
            name: metadata.0,
            version: metadata.1,
            description: metadata.2,
            path,
            kind: config.kind,
            internal_deps: Seq::empty(),
            exports: all_exports(files),
        },
        files,
        readme,
        changelog,
    }
}

/// The file map of a package has its paths in ascending order, and no
/// path twice.
pub proof fn lemma_package_files_sorted(entries: Seq<SourceFileView>, tree: Seq<SourceFileView>)
    ensures
        sorted_by_path(package_files(entries, tree)),
        forall|i: int, j: int|
            0 <= i < j < package_files(entries, tree).len() ==> (#[trigger] package_files(
                entries,
                tree,
            )[i]).0 != (#[trigger] package_files(entries, tree)[j]).0,
{
    lemma_entries_sorted(Seq::empty(), entries);
    lemma_tree_sorted(with_entries(Seq::empty(), entries), tree);
    let files = package_files(entries, tree);
    assert forall|i: int, j: int| 0 <= i < j < files.len() implies (#[trigger] files[i]).0 != (
    #[trigger] files[j]).0 by {
        lemma_precedes_asymmetric(files[i].0, files[j].0);
    }
}

proof fn lemma_entries_sorted(files: Seq<(Seq<char>, Seq<ExportView>)>, entries: Seq<SourceFileView>)
    requires
        sorted_by_path(files),
    ensures
        sorted_by_path(with_entries(files, entries)),
    decreases entries.len(),
{
    if entries.len() > 0 {
        lemma_entries_sorted(files, entries.drop_last());
        let f = entries.last();
        lemma_put_sorted(
            with_entries(files, entries.drop_last()),
            f.path,
            scan_exports(f.path, f.content),
        );
    }
}

proof fn lemma_tree_sorted(files: Seq<(Seq<char>, Seq<ExportView>)>, tree: Seq<SourceFileView>)
    requires
        sorted_by_path(files),
    ensures
        sorted_by_path(with_tree_files(files, tree)),
    decreases tree.len(),
{
    if tree.len() > 0 {
        lemma_tree_sorted(files, tree.drop_last());
        let f = tree.last();
        lemma_put_sorted(
            with_tree_files(files, tree.drop_last()),
            f.path,
            scan_exports(f.path, f.content),
        );
    }
}

/// Setting an entry gives `path` one and keeps those of all other paths.
pub proof fn lemma_put_keeps_paths(
    files: Seq<(Seq<char>, Seq<ExportView>)>,
    path: Seq<char>,
    exports: Seq<ExportView>,
    other: Seq<char>,
)
    ensures
        has_path(put(files, path, exports), path),
        has_path(files, other) ==> has_path(put(files, path, exports), other),
    decreases files.len(),
{
    let out = put(files, path, exports);
    if files.len() == 0 {
        assert(out[0].0 == path);
    } else if precedes(files[0].0, path) {
        let rest = files.drop_first();
        let tail = put(rest, path, exports);
        lemma_put_keeps_paths(rest, path, exports, other);
        let k = choose|k: int| 0 <= k < tail.len() && (#[trigger] tail[k]).0 == path;
        assert(out[k + 1] == tail[k]);
        if has_path(files, other) {
            let i = choose|i: int| 0 <= i < files.len() && (#[trigger] files[i]).0 == other;
            if i == 0 {
                assert(out[0].0 == other);
            } else {
                assert(rest[i - 1] == files[i]);
                let t = choose|t: int| 0 <= t < tail.len() && (#[trigger] tail[t]).0 == other;
                assert(out[t + 1] == tail[t]);
            }
        }
    } else if files[0].0 == path {
        assert(out[0].0 == path);
        if has_path(files, other) {
            let i = choose|i: int| 0 <= i < files.len() && (#[trigger] files[i]).0 == other;
            if i > 0 {
                assert(out[i] == files[i]);
            }
        }
    } else {
        assert(out[0].0 == path);
        if has_path(files, other) {
            let i = choose|i: int| 0 <= i < files.len() && (#[trigger] files[i]).0 == other;
            assert(out[i + 1] == files[i]);
        }
    }
}

proof fn lemma_entries_keep_paths(
    files: Seq<(Seq<char>, Seq<ExportView>)>,
    entries: Seq<SourceFileView>,
    path: Seq<char>,
)
    ensures
        has_path(files, path) || (exists|i: int|
            0 <= i < entries.len() && (#[trigger] entries[i]).path == path) ==> has_path(
            with_entries(files, entries),
            path,
        ),
    decreases entries.len(),
{
    if entries.len() > 0 {
        let front = entries.drop_last();
        let f = entries.last();
        lemma_entries_keep_paths(files, front, path);
        lemma_put_keeps_paths(
            with_entries(files, front),
            f.path,
            scan_exports(f.path, f.content),
            path,
        );
        if exists|i: int| 0 <= i < entries.len() && (#[trigger] entries[i]).path == path {
            let i = choose|i: int| 0 <= i < entries.len() && (#[trigger] entries[i]).path == path;
            if i < entries.len() - 1 {
                assert(front[i].path == path);
            }
        }
    }
}

proof fn lemma_tree_keeps_paths(
    files: Seq<(Seq<char>, Seq<ExportView>)>,
    tree: Seq<SourceFileView>,
    path: Seq<char>,
)
    requires
        has_path(files, path),
    ensures
        has_path(with_tree_files(files, tree), path),
    decreases tree.len(),
{
    if tree.len() > 0 {
        let f = tree.last();
        lemma_tree_keeps_paths(files, tree.drop_last(), path);
        lemma_put_keeps_paths(
            with_tree_files(files, tree.drop_last()),
            f.path,
            scan_exports(f.path, f.content),
            path,
        );
    }
}

/// Every entry point that was handed in has an entry in the file map of
/// the package, also where its scan found no export.
pub proof fn lemma_entry_points_are_kept(
    entries: Seq<SourceFileView>,
    tree: Seq<SourceFileView>,
    i: int,
)
    requires
        0 <= i < entries.len(),
    ensures
        has_path(package_files(entries, tree), entries[i].path),
{
    lemma_entries_keep_paths(Seq::empty(), entries, entries[i].path);
    lemma_tree_keeps_paths(with_entries(Seq::empty(), entries), tree, entries[i].path);
}

/// Whether `entry` holds the path of one of `sources` with the exports of
/// its scan.
pub open spec fn is_scan_of(entry: (Seq<char>, Seq<ExportView>), sources: Seq<SourceFileView>) -> bool {
    exists|i: int|
        0 <= i < sources.len() && entry == (
            (#[trigger] sources[i]).path,
            scan_exports(sources[i].path, sources[i].content),
        )
}

proof fn lemma_put_entries(
    files: Seq<(Seq<char>, Seq<ExportView>)>,
    path: Seq<char>,
    exports: Seq<ExportView>,
    k: int,
)
    requires
        0 <= k < put(files, path, exports).len(),
    ensures
        put(files, path, exports)[k] == (path, exports) || files.contains(
            put(files, path, exports)[k],
        ),
    decreases files.len(),
{
    let out = put(files, path, exports);
    if files.len() == 0 {
    } else if precedes(files[0].0, path) {
        let rest = files.drop_first();
        let tail = put(rest, path, exports);
        if k == 0 {
            assert(out[0] == files[0]);
        } else {
            assert(out[k] == tail[k - 1]);
            lemma_put_entries(rest, path, exports, k - 1);
            if rest.contains(tail[k - 1]) {
                let i = choose|i: int| 0 <= i < rest.len() && rest[i] == tail[k - 1];
                assert(files[i + 1] == out[k]);
            }
        }
    } else if files[0].0 == path {
        if k > 0 {
            assert(out[k] == files[k]);
        }
    } else {
        if k > 0 {
            assert(out[k] == files[k - 1]);
        }
    }
}

proof fn lemma_entries_are_scans(entries: Seq<SourceFileView>, k: int)
    requires
        0 <= k < with_entries(Seq::empty(), entries).len(),
    ensures
        is_scan_of(with_entries(Seq::empty(), entries)[k], entries),
    decreases entries.len(),
{
    if entries.len() > 0 {
        let front = entries.drop_last();
        let f = entries.last();
        let before = with_entries(Seq::empty(), front);
        let e = with_entries(Seq::empty(), entries)[k];
        lemma_put_entries(before, f.path, scan_exports(f.path, f.content), k);
        if e == (f.path, scan_exports(f.path, f.content)) {
            assert(entries[entries.len() - 1] == f);
        } else {
            let t = choose|t: int| 0 <= t < before.len() && before[t] == e;
            lemma_entries_are_scans(front, t);
            let i = choose|i: int|
                0 <= i < front.len() && e == (
                    (#[trigger] front[i]).path,
                    scan_exports(front[i].path, front[i].content),
                );
            assert(entries[i] == front[i]);
        }
    }
}

proof fn lemma_tree_entries_are_scans(
    base: Seq<(Seq<char>, Seq<ExportView>)>,
    tree: Seq<SourceFileView>,
    k: int,
)
    requires
        0 <= k < with_tree_files(base, tree).len(),
    ensures
        base.contains(with_tree_files(base, tree)[k]) || (is_scan_of(
            with_tree_files(base, tree)[k],
            tree,
        ) && has_source_extension(with_tree_files(base, tree)[k].0) && with_tree_files(
            base,
            tree,
        )[k].1.len() > 0),
    decreases tree.len(),
{
    if tree.len() > 0 {
        let front = tree.drop_last();
        let f = tree.last();
        let before = with_tree_files(base, front);
        let e = with_tree_files(base, tree)[k];
        let scan = scan_exports(f.path, f.content);
        let t = if with_tree_files(base, tree) == before {
            k
        } else {
            lemma_put_entries(before, f.path, scan, k);
            if e == (f.path, scan) {
                assert(tree[tree.len() - 1] == f);
                -1
            } else {
                choose|t: int| 0 <= t < before.len() && before[t] == e
            }
        };
        if t >= 0 {
            lemma_tree_entries_are_scans(base, front, t);
            if !base.contains(e) {
                let i = choose|i: int|
                    0 <= i < front.len() && e == (
                        (#[trigger] front[i]).path,
                        scan_exports(front[i].path, front[i].content),
                    );
                assert(tree[i] == front[i]);
            }
        }
    }
}

/// What the file map of a package holds: each entry is the scan of an
/// entry point, or the scan of a source file of the tree in which an
/// export was found.
pub proof fn lemma_file_map_holds_scans(
    entries: Seq<SourceFileView>,
    tree: Seq<SourceFileView>,
    k: int,
)
    requires
        0 <= k < package_files(entries, tree).len(),
    ensures
        is_scan_of(package_files(entries, tree)[k], entries) || (is_scan_of(
            package_files(entries, tree)[k],
            tree,
        ) && has_source_extension(package_files(entries, tree)[k].0) && package_files(
            entries,
            tree,
        )[k].1.len() > 0),
{
    let base = with_entries(Seq::empty(), entries);
    let e = package_files(entries, tree)[k];
    lemma_tree_entries_are_scans(base, tree, k);
    if base.contains(e) {
        let t = choose|t: int| 0 <= t < base.len() && base[t] == e;
        lemma_entries_are_scans(entries, t);
    }
}

/// A package without a manifest has the default metadata, whatever its
/// files hold; what is read from the files does not depend on the
/// manifest.
pub proof fn lemma_missing_manifest_gives_defaults(
    path: Seq<char>,
    config: PackageConfigView,
    entries: Seq<SourceFileView>,
    tree: Seq<SourceFileView>,
    readme: Option<Seq<char>>,
    changelog: Option<Seq<char>>,
)
    ensures
        package_model(path, config, entries, tree, None, readme, changelog).package.name
            == "unknown"@,
        package_model(path, config, entries, tree, None, readme, changelog).package.version
            == "0.0.0"@,
        package_model(path, config, entries, tree, None, readme, changelog).package.description
            == Seq::<char>::empty(),
        package_model(path, config, entries, tree, None, readme, changelog).files == package_files(
            entries,
            tree,
        ),
{
}

/// Extracts the documentation of a package from the texts of its files
/// and the answers of the exclusion patterns: `entries` holds the entry
/// points that exist, in the order of the configuration, `tree` the files
/// of the source tree, and `excluded` says of each file of `tree`, by its
/// place, whether it is left out. Fails where a scan fails.
pub fn package_from_files(
    path: &str,
    config: &PackageConfig,
    entries: &Vec<SourceFile>,
    tree: &Vec<SourceFile>,
    excluded: &Vec<bool>,
    manifest: Option<&str>,
    readme: Option<String>,
    changelog: Option<String>,
) -> (r: Result<ExtractedDocs, ScanError>)
    ensures
        r is Ok <==> patterns_valid() || scans_nothing(
            entries.deep_view(),
            kept_files(tree.deep_view(), excluded@),
        ),
        r matches Ok(docs) ==> docs@ == package_model(
            path@,
            config@,
            entries.deep_view(),
            kept_files(tree.deep_view(), excluded@),
            manifest.deep_view(),
            readme.deep_view(),
            changelog.deep_view(),
        ),
{
    let mut files: Vec<(String, Vec<Export>)> = Vec::new();
    let mut i: usize = 0;
    proof {
        assert(files.deep_view() =~= Seq::<(Seq<char>, Seq<ExportView>)>::empty());
    }
    while i < entries.len()
        invariant
            i <= entries.len(),
            i > 0 ==> patterns_valid(),
            files.deep_view() == with_entries(Seq::empty(), entries.deep_view().take(i as int)),
        decreases entries.len() - i,
    {
        proof {
            assert(entries.deep_view().take(i + 1).drop_last() =~= entries.deep_view().take(
                i as int,
            ));
        }
        let f: &SourceFile = &entries[i];
        match extract_file(f.path.as_str(), f.content.as_str()) {
            Ok(exports) => {
                insert_file(&mut files, f.path.clone(), exports);
            },
            Err(e) => {
                return Err(e);
            },
        }
        i += 1;
    }
    proof {
        assert(entries.deep_view().take(entries.len() as int) =~= entries.deep_view());
    }
    let ghost base = files.deep_view();
    let mut j: usize = 0;
    while j < tree.len()
        invariant
            j <= tree.len(),
            base == with_entries(Seq::empty(), entries.deep_view()),
            entries.len() > 0 ==> patterns_valid(),
            !patterns_valid() ==> scans_nothing(
                entries.deep_view(),
                kept_files(tree.deep_view().take(j as int), excluded@),
            ),
            files.deep_view() == with_tree_files(
                base,
                kept_files(tree.deep_view().take(j as int), excluded@),
            ),
        decreases tree.len() - j,
    {
        let ghost before = kept_files(tree.deep_view().take(j as int), excluded@);
        let ghost after = kept_files(tree.deep_view().take(j + 1), excluded@);
        proof {
            assert(tree.deep_view().take(j + 1).drop_last() =~= tree.deep_view().take(j as int));
            assert(tree.deep_view().take(j + 1).last() == tree.deep_view()[j as int]);
        }
        let f: &SourceFile = &tree[j];
        let skip: bool = j < excluded.len() && excluded[j];
        if !skip {
            proof {
                assert(after == before.push(tree.deep_view()[j as int]));
                assert(after.drop_last() =~= before);
                assert forall|t: int| 0 <= t < before.len() implies #[trigger] after[t]
                    == before[t] by {}
            }
            if is_source_path(f.path.as_str()) && !contains_path(&files, f.path.as_str()) {
                match extract_file(f.path.as_str(), f.content.as_str()) {
                    Ok(exports) => {
                        if exports.len() > 0 {
                            insert_file(&mut files, f.path.clone(), exports);
                        }
                    },
                    Err(e) => {
                        proof {
                            let all = kept_files(tree.deep_view(), excluded@);
                            lemma_kept_file_stays(tree.deep_view(), excluded@, j as int);
                            let k = choose|k: int|
                                0 <= k < all.len() && #[trigger] all[k] == tree.deep_view()[j as int];
                            assert(has_source_extension(all[k].path));
                        }
                        return Err(e);
                    },
                }
            } else if is_source_path(f.path.as_str()) {
                proof {
                    // a source file with an entry was scanned before
                    lemma_scanned_before(entries.deep_view(), before, f.path@);
                }
            }
        }
        j += 1;
    }
    proof {
        assert(tree.deep_view().take(tree.len() as int) =~= tree.deep_view());
    }
    let (name, version, description) = read_metadata(manifest);
    let exports: Vec<Export> = collect_exports(&files);
    let internal_deps: Vec<String> = Vec::new();
    proof {
        assert(internal_deps.deep_view() =~= Seq::<Seq<char>>::empty());
    }
    Ok(
        ExtractedDocs {
            package: Package {
                name,
                version,
                description,
                path: path.to_owned(),
                kind: config.kind,
                internal_deps,
                exports,
            },
            files,
            readme,
            changelog,
        },
    )
}

/// Extracts the documentation of the package at `path` from the texts of
/// its files: `entries` holds the entry points that exist, in the order
/// of the configuration, `tree` the files of the source tree. A source
/// file of the tree that an exclusion pattern of the configuration matches
/// is left out. What a pattern matches is the pattern matcher's answer;
/// whatever it answers, the result is what `package_from_files` gives for
/// those answers, and without patterns no file is left out. Fails where a
/// scan fails.
pub fn extract_package(
    path: &str,
    config: &PackageConfig,
    entries: &Vec<SourceFile>,
    tree: &Vec<SourceFile>,
    manifest: Option<&str>,
    readme: Option<String>,
    changelog: Option<String>,
) -> (r: Result<ExtractedDocs, ScanError>)
    ensures
        exists|excluded: Seq<bool>|
            excluded.len() == tree.len() && (r is Ok <==> patterns_valid() || scans_nothing(
                entries.deep_view(),
                #[trigger] kept_files(tree.deep_view(), excluded),
            )) && (r matches Ok(docs) ==> docs@ == package_model(
                path@,
                config@,
                entries.deep_view(),
                kept_files(tree.deep_view(), excluded),
                manifest.deep_view(),
                readme.deep_view(),
                changelog.deep_view(),
            )),
        config.exclude.len() == 0 ==> (r is Ok <==> patterns_valid() || scans_nothing(
            entries.deep_view(),
            tree.deep_view(),
        )),
        config.exclude.len() == 0 ==> (r matches Ok(docs) ==> docs@ == package_model(
            path@,
            config@,
            entries.deep_view(),
            tree.deep_view(),
            manifest.deep_view(),
            readme.deep_view(),
            changelog.deep_view(),
        )),
{
    let mut excluded: Vec<bool> = Vec::new();
    let mut i: usize = 0;
    while i < tree.len()
        invariant
            i <= tree.len(),
            excluded.len() == i,
            config.exclude.len() == 0 ==> forall|j: int| 0 <= j < excluded.len() ==> !excluded[j],
        decreases tree.len() - i,
    {
        let file_path: &str = tree[i].path.as_str();
        excluded.push(is_source_path(file_path) && is_excluded(file_path, &config.exclude));
        i += 1;
    }
    proof {
        if config.exclude.len() == 0 {
            lemma_nothing_excluded_keeps_all(tree.deep_view(), excluded@);
        }
    }
    package_from_files(path, config, entries, tree, &excluded, manifest, readme, changelog)
}

/// A file map with an entry came from a scan: of an entry point, or of a
/// source file of the tree.
proof fn lemma_scanned_before(entries: Seq<SourceFileView>, tree: Seq<SourceFileView>, path: Seq<char>)
    requires
        has_path(package_files(entries, tree), path),
    ensures
        entries.len() > 0 || exists|t: int|
            0 <= t < tree.len() && has_source_extension((#[trigger] tree[t]).path),
    decreases tree.len(),
{
    if entries.len() == 0 {
        if tree.len() == 0 {
            assert(with_entries(Seq::empty(), entries) =~= Seq::<
                (Seq<char>, Seq<ExportView>),
            >::empty());
        } else {
            let f = tree.last();
            if has_source_extension(f.path) {
                assert(has_source_extension(tree[tree.len() - 1].path));
            } else {
                lemma_scanned_before(entries, tree.drop_last(), path);
                let t = choose|t: int|
                    0 <= t < tree.drop_last().len() && has_source_extension(
                        (#[trigger] tree.drop_last()[t]).path,
                    );
                assert(has_source_extension(tree[t].path));
            }
        }
    }
}

} // verus!
