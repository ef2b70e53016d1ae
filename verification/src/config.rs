//! Configuration of a documentation run: which packages there are, of
//! what kind, and where their pages go.

use crate::markdown::{link_slug, slug_of};
use crate::package::json_text_field;
use crate::package::read_text_field;
use crate::paths::{join_path, joined_path};
use crate::text::{chars_of, contains, contains_seq, replace_all, replaced, string_of};
use crate::types::{
    DocgenConfig, DocgenConfigView, OutputConfig, OutputConfigView, PackageConfig,
    PackageConfigView, PackageKind,
};
use vstd::prelude::*;

verus! {

/// Why a package manifest could not be read.
#[derive(Debug, Clone, Copy, PartialEq, Eq, Structural)]
pub enum ManifestError {
    /// The manifest is not a JSON document.
    NotJson,
}

/// Whether `serde_json::from_str` parses `document` as a
/// `serde_json::Value`.
pub uninterp spec fn json_is_valid(document: Seq<char>) -> bool;

/// For each member of the object that `serde_json::Value::get` gives for
/// `object_key` in the value parsed from `document`, in the order in which
/// `serde_json::Map::values` yields them: the string under `member_key`,
/// if the member has one. Nothing where there is no such object.
pub uninterp spec fn json_member_texts(
    document: Seq<char>,
    object_key: Seq<char>,
    member_key: Seq<char>,
) -> Seq<Option<Seq<char>>>;

/// Asks `serde_json::from_str` whether `document` parses as a
/// `serde_json::Value`.
#[verifier::external_body]
fn parses_as_json(document: &str) -> (r: bool)
    ensures
        r == json_is_valid(document@),
{
    serde_json::from_str::<serde_json::Value>(document).is_ok()
}

/// Parses `document` with `serde_json::from_str`, takes the object under
/// `object_key` with `Value::get` and `Value::as_object`, and reads from
/// each of its members, as `Map::values` yields them, the string under
/// `member_key` with `Value::get` and `Value::as_str`.
#[verifier::external_body]
fn read_member_texts(document: &str, object_key: &str, member_key: &str) -> (r: Vec<Option<String>>)
    ensures
        r.deep_view() == json_member_texts(document@, object_key@, member_key@),
{
    let text = |v: &serde_json::Value| v.get(member_key).and_then(|t| t.as_str()).map(String::from);
    match serde_json::from_str::<serde_json::Value>(document) {
        Ok(value) => match value.get(object_key).and_then(|o| o.as_object()) {
            Some(object) => object.values().map(text).collect(),
            None => Vec::new(),
        },
        Err(_) => Vec::new(),
    }
}

/// The kind of a package, told from its name.
pub open spec fn kind_of_name(name: Seq<char>) -> PackageKind {
    if contains_seq(name, "adapter"@) || contains_seq(name, "oracle"@) || contains_seq(
        name,
        "drizzle"@,
    ) || contains_seq(name, "mongodb"@) {
        PackageKind::Adapter
    } else if contains_seq(name, "sveltekit"@) || contains_seq(name, "frontend"@) {
        PackageKind::Frontend
    } else if contains_seq(name, "swift"@) || contains_seq(name, "ios"@) || contains_seq(
        name,
        "kit"@,
    ) {
        PackageKind::Mobile
    } else {
        PackageKind::Core
    }
}

fn holds(name: &[char], word: &str) -> (r: bool)
    ensures
        r == contains_seq(name@, word@),
{
    let w: Vec<char> = chars_of(word);
    contains(name, w.as_slice())
}

/// Tells the kind of a package from its name.
pub fn infer_kind(name: &str) -> (r: PackageKind)
    ensures
        r == kind_of_name(name@),
{
    let n: Vec<char> = chars_of(name);
    let s: &[char] = n.as_slice();
    if holds(s, "adapter") || holds(s, "oracle") || holds(s, "drizzle") || holds(s, "mongodb") {
        PackageKind::Adapter
    } else if holds(s, "sveltekit") || holds(s, "frontend") {
        PackageKind::Frontend
    } else if holds(s, "swift") || holds(s, "ios") || holds(s, "kit") {
        PackageKind::Mobile
    } else {
        PackageKind::Core
    }
}

/// Whether `list` holds `text`.
pub open spec fn lists(list: Seq<Seq<char>>, text: Seq<char>) -> bool {
    exists|i: int| 0 <= i < list.len() && #[trigger] list[i] == text
}

/// The entry points after one more import path: a path that is not yet an
/// entry point is added, without its `./`.
pub open spec fn with_import(points: Seq<Seq<char>>, import: Option<Seq<char>>) -> Seq<Seq<char>> {
    match import {
        Some(path) => if lists(points, path) {
            points
        } else {
            points.push(replace_all(path, "./"@, Seq::empty()))
        },
        None => points,
    }
}

pub open spec fn with_imports(points: Seq<Seq<char>>, imports: Seq<Option<Seq<char>>>) -> Seq<
    Seq<char>,
>
    decreases imports.len(),
{
    if imports.len() == 0 {
        points
    } else {
        with_import(with_imports(points, imports.drop_last()), imports.last())
    }
}

/// The entry points of a package: its index file, and the import paths
/// of its exports.
pub open spec fn entry_points_of(imports: Seq<Option<Seq<char>>>) -> Seq<Seq<char>> {
    with_imports(seq!["src/index.ts"@], imports)
}

fn list_holds(list: &Vec<String>, text: &str) -> (r: bool)
    ensures
        r == lists(list.deep_view(), text@),
{
    let t: Vec<char> = chars_of(text);
    let mut i: usize = 0;
    while i < list.len()
        invariant
            i <= list.len(),
            t@ == text@,
            forall|j: int| 0 <= j < i ==> #[trigger] list.deep_view()[j] != text@,
        decreases list.len() - i,
    {
        let c: Vec<char> = chars_of(list[i].as_str());
        if crate::jsdoc::same_chars(c.as_slice(), t.as_slice()) {
            proof {
                assert(list.deep_view()[i as int] == text@);
            }
            return true;
        }
        i += 1;
    }
    false
}

/// The entry points of a package with the given import paths.
pub fn entry_points_from(imports: &Vec<Option<String>>) -> (r: Vec<String>)
    ensures
        r.deep_view() == entry_points_of(imports.deep_view()),
{
    let mut points: Vec<String> = Vec::new();
    points.push("src/index.ts".to_owned());
    let dot_slash: Vec<char> = chars_of("./");
    let nothing: Vec<char> = Vec::new();
    let mut i: usize = 0;
    proof {
        assert(points.deep_view() =~= seq!["src/index.ts"@]);
        assert(nothing@ =~= Seq::<char>::empty());
    }
    while i < imports.len()
        invariant
            i <= imports.len(),
            dot_slash@ == "./"@,
            nothing@ == Seq::<char>::empty(),
            points.deep_view() == with_imports(
                seq!["src/index.ts"@],
                imports.deep_view().take(i as int),
            ),
        decreases imports.len() - i,
    {
        proof {
            assert(imports.deep_view().take(i + 1).drop_last() =~= imports.deep_view().take(
                i as int,
            ));
        }
        match &imports[i] {
            Some(path) => {
                if !list_holds(&points, path.as_str()) {
                    let chars: Vec<char> = chars_of(path.as_str());
                    let cleaned: String = string_of(
                        replaced(chars.as_slice(), dot_slash.as_slice(), nothing.as_slice()).as_slice(),
                    );
                    let ghost before = points.deep_view();
                    let ghost c = cleaned@;
                    points.push(cleaned);
                    proof {
                        assert(points.deep_view() =~= before.push(c));
                    }
                }
            },
            None => {},
        }
        i += 1;
    }
    proof {
        assert(imports.deep_view().take(imports.len() as int) =~= imports.deep_view());
    }
    points
}

/// The patterns of the files that are left out of every package.
pub open spec fn default_exclude() -> Seq<Seq<char>> {
    seq!["**/*.test.ts"@, "**/*.spec.ts"@, "**/test/**"@, "**/tests/**"@]
}

pub fn default_exclude_patterns() -> (r: Vec<String>)
    ensures
        r.deep_view() == default_exclude(),
{
    let mut out: Vec<String> = Vec::new();
    out.push("**/*.test.ts".to_owned());
    out.push("**/*.spec.ts".to_owned());
    out.push("**/test/**".to_owned());
    out.push("**/tests/**".to_owned());
    proof {
        assert(out.deep_view() =~= default_exclude());
    }
    out
}

/// The configuration of the package at `path` with the given name and
/// import paths; none for a package without a name.
pub open spec fn config_of(path: Seq<char>, name: Option<Seq<char>>, imports: Seq<Option<Seq<char>>>) -> Option<
    PackageConfigView,
> {
    match name {
        Some(n) => if n.len() > 0 {
            Some(
                PackageConfigView {
                    name: n,
                    path,
                    kind: kind_of_name(n),
                    entry_points: entry_points_of(imports),
                    exclude: default_exclude(),
                },
            )
        } else {
            None
        },
        None => None,
    }
}

/// Builds the configuration of the package at `path` from what its
/// manifest says.
pub fn package_config_from(path: &str, name: Option<String>, imports: &Vec<Option<String>>) -> (r:
    Option<PackageConfig>)
    ensures
        r.deep_view() == config_of(path@, name.deep_view(), imports.deep_view()),
{
    match name {
        Some(n) => {
            if n.as_str().is_empty() {
                None
            } else {
                let kind: PackageKind = infer_kind(n.as_str());
                Some(
                    PackageConfig {
                        name: n,
                        path: path.to_owned(),
                        kind,
                        entry_points: entry_points_from(imports),
                        exclude: default_exclude_patterns(),
                    },
                )
            }
        },
        None => None,
    }
}

/// Reads the configuration of the package at `path` from the text of its
/// manifest. Fails where the manifest is not a JSON document; gives
/// nothing for a package without a name.
pub fn parse_package_json(path: &str, document: &str) -> (r: Result<
    Option<PackageConfig>,
    ManifestError,
>)
    ensures
        r is Ok <==> json_is_valid(document@),
        r matches Ok(config) ==> config.deep_view() == config_of(
            path@,
            json_text_field(document@, "name"@),
            json_member_texts(document@, "exports"@, "import"@),
        ),
{
    if !parses_as_json(document) {
        return Err(ManifestError::NotJson);
    }
    let name: Option<String> = read_text_field(document, "name");
    let imports: Vec<Option<String>> = read_member_texts(document, "exports", "import");
    Ok(package_config_from(path, name, &imports))
}

/// The configuration of a run without a configuration file: the packages
/// found, all pages switched on, written under `docs` in `root`.
pub open spec fn default_config_of(root: Seq<char>, packages: Seq<PackageConfigView>) -> DocgenConfigView {
    DocgenConfigView {
        packages,
        output: OutputConfigView {
            dir: join_path(root, "docs"@),
            api_reference: true,
            changelog: true,
            package_readme: true,
        },
        templates: None,
    }
}

pub fn default_config(root: &str, packages: Vec<PackageConfig>) -> (r: DocgenConfig)
    ensures
        r@ == default_config_of(root@, packages.deep_view()),
{
    DocgenConfig {
        packages,
        output: OutputConfig {
            dir: joined_path(root, "docs"),
            api_reference: true,
            changelog: true,
            package_readme: true,
        },
        templates: None,
    }
}

/// Whether a package is chosen: every package without a filter, else one
/// whose name holds the filter.
pub open spec fn is_chosen(name: Seq<char>, filter: Option<Seq<char>>) -> bool {
    match filter {
        Some(f) => contains_seq(name, f),
        None => true,
    }
}

/// The indices of the chosen packages among the first `count`, ascending.
pub open spec fn chosen(packages: Seq<PackageConfigView>, filter: Option<Seq<char>>, count: int) -> Seq<
    usize,
>
    decreases count,
{
    if count <= 0 {
        Seq::empty()
    } else {
        let front = chosen(packages, filter, count - 1);
        if is_chosen(packages[count - 1].name, filter) {
            front.push((count - 1) as usize)
        } else {
            front
        }
    }
}

/// The indices of the packages to process.
pub fn select_packages(packages: &Vec<PackageConfig>, filter: Option<&str>) -> (r: Vec<usize>)
    ensures
        r@ == chosen(packages.deep_view(), filter.deep_view(), packages.len() as int),
        forall|i: int| 0 <= i < r.len() ==> r[i] < packages.len(),
{
    let mut out: Vec<usize> = Vec::new();
    let mut i: usize = 0;
    while i < packages.len()
        invariant
            i <= packages.len(),
            out@ == chosen(packages.deep_view(), filter.deep_view(), i as int),
            forall|j: int| 0 <= j < out.len() ==> out[j] < packages.len(),
        decreases packages.len() - i,
    {
        let take: bool = match filter {
            Some(f) => {
                let n: Vec<char> = chars_of(packages[i].name.as_str());
                holds(n.as_slice(), f)
            },
            None => true,
        };
        if take {
            out.push(i);
        }
        i += 1;
    }
    out
}

/// The directory of a package: its configured path, taken from `root`
/// where it is relative.
pub fn package_root(root: &str, config: &PackageConfig) -> (r: String)
    ensures
        r@ == join_path(root@, config@.path),
{
    joined_path(root, config.path.as_str())
}

/// The directory of the pages of the package `name` under `output`.
pub open spec fn pages_dir(output: Seq<char>, name: Seq<char>) -> Seq<char> {
    join_path(join_path(output, "api"@), link_slug(name))
}

pub fn pages_dir_of(output: &str, name: &str) -> (r: String)
    ensures
        r@ == pages_dir(output@, name@),
{
    let api: String = joined_path(output, "api");
    let slug: String = slug_of(name);
    joined_path(api.as_str(), slug.as_str())
}

/// The path of the API index page under `output`.
pub fn api_index_path(output: &str) -> (r: String)
    ensures
        r@ == join_path(join_path(output@, "api"@), "index.md"@),
{
    let api: String = joined_path(output, "api");
    joined_path(api.as_str(), "index.md")
}

} // verus!
