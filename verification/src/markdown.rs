//! The markdown renderer.
//!
//! Every page is a function of the extracted model alone. The page texts
//! are given by spec functions; the executable functions build exactly
//! those texts.

use crate::scanner::{extract_file, scan_exports, patterns_valid, ScanError};
use crate::text::{
    chars_of, contains, contains_seq, decimal, decimal_chars, join, joined, lines, replace_all,
    replaced, split_lines, split_on, split_all, string_of, strip_leading, texts, trim,
    trim_start, trimmed, trimmed_start, without_leading,
};
use crate::types::{
    DocgenConfig, DocgenConfigView, Export, ExportKind, ExportView, ExtractedDocs,
    ExtractedDocsView, PackageConfig, PackageConfigView, PackageKind, Parameter, ParameterView,
};
use vstd::prelude::*;
use vstd::string::StringExecFns;

verus! {

/// The last component of `path` that is neither empty nor `.`, the
/// components standing between `/`; empty where that component is `..`
/// or where there is none.
pub open spec fn file_name(path: Seq<char>) -> Seq<char> {
    last_named(split_on(path, '/'))
}

pub open spec fn last_named(parts: Seq<Seq<char>>) -> Seq<char>
    decreases parts.len(),
{
    if parts.len() == 0 {
        Seq::empty()
    } else if parts.last().len() == 0 || parts.last() == seq!['.'] {
        last_named(parts.drop_last())
    } else if parts.last() == seq!['.', '.'] {
        Seq::empty()
    } else {
        parts.last()
    }
}

/// The records whose kind is `a` or `b`, in their order.
pub open spec fn select(exports: Seq<ExportView>, a: ExportKind, b: ExportKind) -> Seq<ExportView>
    decreases exports.len(),
{
    if exports.len() == 0 {
        Seq::empty()
    } else {
        let front = select(exports.drop_last(), a, b);
        if exports.last().kind == a || exports.last().kind == b {
            front.push(exports.last())
        } else {
            front
        }
    }
}

/// The records of kind `kind`, in their order.
pub open spec fn of_kind(exports: Seq<ExportView>, kind: ExportKind) -> Seq<ExportView> {
    select(exports, kind, kind)
}

/// The callout of a deprecated symbol.
pub open spec fn deprecated_part(notice: Option<Seq<char>>) -> Seq<char> {
    match notice {
        Some(d) => "> \u{26a0}\u{fe0f} **Deprecated:** "@ + d + "\n\n"@,
        None => Seq::empty(),
    }
}

pub open spec fn description_part(description: Option<Seq<char>>) -> Seq<char> {
    match description {
        Some(d) => d + "\n\n"@,
        None => Seq::empty(),
    }
}

/// The fenced block of a signature or of an example.
pub open spec fn fenced(code: Seq<char>) -> Seq<char> {
    "```typescript\n"@ + code + "\n```\n\n"@
}

pub open spec fn signature_part(signature: Option<Seq<char>>) -> Seq<char> {
    match signature {
        Some(s) => fenced(s),
        None => Seq::empty(),
    }
}

/// The line that says where a symbol is defined.
pub open spec fn location_part(e: ExportView) -> Seq<char> {
    "*Defined in [`"@ + file_name(e.source_file) + "`]("@ + e.source_file + ":"@ + decimal(e.line)
        + ")*\n\n"@
}

/// One row of the parameters table.
pub open spec fn param_row(p: ParameterView) -> Seq<char> {
    "| `"@ + p.name + "` | `"@ + p.type_annotation + "` | "@ + (if p.optional {
        "No"@
    } else {
        "Yes"@
    }) + " | "@ + (match p.description {
        Some(d) => d,
        None => "-"@,
    }) + " |\n"@
}

pub open spec fn param_rows(params: Seq<ParameterView>) -> Seq<char>
    decreases params.len(),
{
    if params.len() == 0 {
        Seq::empty()
    } else {
        param_rows(params.drop_last()) + param_row(params.last())
    }
}

/// The parameters table; nothing for a symbol without parameters.
pub open spec fn params_table(params: Seq<ParameterView>) -> Seq<char> {
    if params.len() == 0 {
        Seq::empty()
    } else {
        "**Parameters:**\n\n"@ + "| Name | Type | Required | Description |\n"@
            + "|------|------|----------|-------------|\n"@ + param_rows(params) + "\n"@
    }
}

pub open spec fn returns_part(returns: Option<Seq<char>>) -> Seq<char> {
    match returns {
        Some(r) => "**Returns:** `"@ + r + "`\n\n"@,
        None => Seq::empty(),
    }
}

pub open spec fn fenced_all(examples: Seq<Seq<char>>) -> Seq<char>
    decreases examples.len(),
{
    if examples.len() == 0 {
        Seq::empty()
    } else {
        fenced_all(examples.drop_last()) + fenced(examples.last())
    }
}

/// The examples under the given title; nothing without examples.
pub open spec fn examples_part(title: Seq<char>, examples: Seq<Seq<char>>) -> Seq<char> {
    if examples.len() == 0 {
        Seq::empty()
    } else {
        title + fenced_all(examples)
    }
}

/// The block of one symbol on a reference page: heading, deprecation
/// callout, description, signature, place of definition, parameters
/// table, returns line, examples, and a rule.
pub open spec fn export_block(e: ExportView) -> Seq<char> {
    "### `"@ + e.name + "`\n\n"@ + deprecated_part(e.deprecated) + description_part(e.description)
        + signature_part(e.signature) + location_part(e) + params_table(e.params) + returns_part(
        e.returns,
    ) + examples_part("**Example:**\n\n"@, e.examples) + "---\n\n"@
}

pub open spec fn export_blocks(exports: Seq<ExportView>) -> Seq<char>
    decreases exports.len(),
{
    if exports.len() == 0 {
        Seq::empty()
    } else {
        export_blocks(exports.drop_last()) + export_block(exports.last())
    }
}

/// A titled section of blocks; nothing for an empty bucket.
pub open spec fn section(title: Seq<char>, exports: Seq<ExportView>) -> Seq<char> {
    if exports.len() == 0 {
        Seq::empty()
    } else {
        title + export_blocks(exports)
    }
}

/// One entry of a plain parameter list.
pub open spec fn plain_param(p: ParameterView) -> Seq<char> {
    "- `"@ + p.name + "`: `"@ + p.type_annotation + "`"@ + (if p.optional {
        " (optional)"@
    } else {
        Seq::empty()
    }) + "\n"@ + (match p.description {
        Some(d) => "  - "@ + d + "\n"@,
        None => Seq::empty(),
    })
}

pub open spec fn plain_params(params: Seq<ParameterView>) -> Seq<char>
    decreases params.len(),
{
    if params.len() == 0 {
        Seq::empty()
    } else {
        plain_params(params.drop_last()) + plain_param(params.last())
    }
}

pub open spec fn plain_params_part(params: Seq<ParameterView>) -> Seq<char> {
    if params.len() == 0 {
        Seq::empty()
    } else {
        "**Parameters:**\n\n"@ + plain_params(params) + "\n"@
    }
}

/// The block of one symbol on a page of a single file: heading,
/// description, signature, parameter list, returns line, examples,
/// deprecation callout, and a rule.
pub open spec fn plain_block(e: ExportView) -> Seq<char> {
    "### `"@ + e.name + "`\n\n"@ + description_part(e.description) + signature_part(e.signature)
        + plain_params_part(e.params) + returns_part(e.returns) + examples_part(
        "**Examples:**\n\n"@,
        e.examples,
    ) + deprecated_part(e.deprecated) + "---\n\n"@
}

pub open spec fn plain_blocks(exports: Seq<ExportView>) -> Seq<char>
    decreases exports.len(),
{
    if exports.len() == 0 {
        Seq::empty()
    } else {
        plain_blocks(exports.drop_last()) + plain_block(exports.last())
    }
}

pub open spec fn plain_section(title: Seq<char>, exports: Seq<ExportView>) -> Seq<char> {
    if exports.len() == 0 {
        Seq::empty()
    } else {
        title + plain_blocks(exports)
    }
}

/// The page of the symbols of one source file, grouped by kind.
pub open spec fn file_page(source: Seq<char>, exports: Seq<ExportView>) -> Seq<char> {
    "# Types from "@ + source + "\n\n"@ + plain_section(
        "## Interfaces\n\n"@,
        of_kind(exports, ExportKind::Interface),
    ) + plain_section("## Types\n\n"@, of_kind(exports, ExportKind::Type)) + plain_section(
        "## Functions\n\n"@,
        of_kind(exports, ExportKind::Function),
    ) + plain_section("## Classes\n\n"@, of_kind(exports, ExportKind::Class)) + plain_section(
        "## Enums\n\n"@,
        of_kind(exports, ExportKind::Enum),
    ) + plain_section(
        "## Constants\n\n"@,
        select(exports, ExportKind::Const, ExportKind::Variable),
    )
}

/// The types page of a package: interfaces, type aliases, enums and
/// classes, each section only where it has a symbol.
pub open spec fn types_page(docs: ExtractedDocsView) -> Seq<char> {
    let exports = docs.package.exports;
    "# "@ + docs.package.name + " - Types\n\n"@ + section(
        "## Interfaces\n\n"@,
        of_kind(exports, ExportKind::Interface),
    ) + section("## Type Aliases\n\n"@, of_kind(exports, ExportKind::Type)) + section(
        "## Enums\n\n"@,
        of_kind(exports, ExportKind::Enum),
    ) + section("## Classes\n\n"@, of_kind(exports, ExportKind::Class))
}

/// The functions page of a package.
pub open spec fn functions_page(functions: Seq<ExportView>, package_name: Seq<char>) -> Seq<char> {
    "# "@ + package_name + " - Functions\n\n"@ + export_blocks(functions)
}

/// One row of the summary table; nothing for an empty bucket.
pub open spec fn count_row(label: Seq<char>, count: nat) -> Seq<char> {
    if count == 0 {
        Seq::empty()
    } else {
        "| "@ + label + " | "@ + decimal(count) + " |\n"@
    }
}

/// The readme without its first line and the white space behind it,
/// where that line repeats the package name: taken without the `#` in
/// front of it and trimmed, the line holds the name or is held by it. The
/// line need not be a heading, and an empty one is held by every name. The
/// readme as it is otherwise.
pub open spec fn without_duplicate_heading(readme: Seq<char>, package_name: Seq<char>) -> Seq<
    char,
> {
    let ls = lines(readme);
    if ls.len() == 0 {
        readme
    } else {
        let heading = trim(strip_leading(ls[0], '#'));
        if contains_seq(heading, package_name) || contains_seq(package_name, heading) {
            trim_start(join(ls.drop_first(), "\n"@))
        } else {
            readme
        }
    }
}

pub open spec fn readme_part(readme: Option<Seq<char>>, package_name: Seq<char>) -> Seq<char> {
    match readme {
        Some(r) => "---\n\n"@ + without_duplicate_heading(r, package_name),
        None => Seq::empty(),
    }
}

/// The link from the index page to the functions page.
pub open spec fn functions_link() -> Seq<char> {
    "- [Functions Reference](./functions.md)\n"@
}

/// The links section of the index page.
pub open spec fn links_part(has_functions: bool) -> Seq<char> {
    "## Documentation\n\n"@ + "- [Types Reference](./types.md)\n"@ + (if has_functions {
        functions_link()
    } else {
        Seq::empty()
    }) + "\n"@
}

/// The description paragraph of the index page; nothing for an empty
/// description.
pub open spec fn summary_part(description: Seq<char>) -> Seq<char> {
    if description.len() > 0 {
        description + "\n\n"@
    } else {
        Seq::empty()
    }
}

/// What stands on the index page in front of the links section.
pub open spec fn index_head(docs: ExtractedDocsView) -> Seq<char> {
    let p = docs.package;
    "# "@ + p.name + "\n\n"@ + summary_part(p.description) + "**Version:** "@ + p.version + "\n\n"@ + "## Installation\n\n"@ + "```bash\n"@
        + "npm install "@ + p.name + "\n"@ + "# or\n"@ + "pnpm add "@ + p.name + "\n"@
        + "```\n\n"@ + "## Exports\n\n"@ + "| Category | Count |\n"@ + "|----------|-------|\n"@
        + count_row("Interfaces"@, of_kind(p.exports, ExportKind::Interface).len()) + count_row(
        "Types"@,
        of_kind(p.exports, ExportKind::Type).len(),
    ) + count_row("Functions"@, of_kind(p.exports, ExportKind::Function).len()) + count_row(
        "Classes"@,
        of_kind(p.exports, ExportKind::Class).len(),
    ) + "\n"@
}

/// The index page of a package.
pub open spec fn package_index(docs: ExtractedDocsView) -> Seq<char> {
    index_head(docs) + links_part(of_kind(docs.package.exports, ExportKind::Function).len() > 0)
        + readme_part(docs.readme, docs.package.name)
}

/// The pages of a package, each with its file name: always the index
/// page, the types page where the package has a symbol, the functions
/// page where it has a function.
pub open spec fn package_pages(docs: ExtractedDocsView) -> Seq<(Seq<char>, Seq<char>)> {
    let exports = docs.package.exports;
    let functions = of_kind(exports, ExportKind::Function);
    seq![("index.md"@, package_index(docs))] + (if exports.len() > 0 {
        seq![("types.md"@, types_page(docs))]
    } else {
        Seq::empty()
    }) + (if functions.len() > 0 {
        seq![("functions.md"@, functions_page(functions, docs.package.name))]
    } else {
        Seq::empty()
    })
}

/// The name under which a package is linked: without the scope prefix,
/// and with `_` for `-`.
pub open spec fn link_slug(name: Seq<char>) -> Seq<char> {
    replace_all(replace_all(name, "@acedergren/"@, Seq::empty()), "-"@, "_"@)
}

pub open spec fn package_link(name: Seq<char>) -> Seq<char> {
    "- ["@ + name + "](./"@ + link_slug(name) + "/)\n"@
}

/// The links of the packages of kind `kind`, in their order.
pub open spec fn package_links(packages: Seq<PackageConfigView>, kind: PackageKind) -> Seq<char>
    decreases packages.len(),
{
    if packages.len() == 0 {
        Seq::empty()
    } else {
        package_links(packages.drop_last(), kind) + (if packages.last().kind == kind {
            package_link(packages.last().name)
        } else {
            Seq::empty()
        })
    }
}

/// Whether some package is of kind `kind`.
pub open spec fn has_package(packages: Seq<PackageConfigView>, kind: PackageKind) -> bool {
    exists|i: int| 0 <= i < packages.len() && (#[trigger] packages[i]).kind == kind
}

pub open spec fn api_section(title: Seq<char>, packages: Seq<PackageConfigView>, kind: PackageKind) -> Seq<
    char,
> {
    if has_package(packages, kind) {
        title + package_links(packages, kind) + "\n"@
    } else {
        Seq::empty()
    }
}

/// The API index page: the packages by kind, in the order core, adapter,
/// frontend, mobile; a section only where it has a package.
pub open spec fn api_index(config: DocgenConfigView) -> Seq<char> {
    "# API Reference\n\n"@ + "Complete API documentation for the Apple Auth Kit packages.\n\n"@
        + api_section("## Core Packages\n\n"@, config.packages, PackageKind::Core) + api_section(
        "## Database Adapters\n\n"@,
        config.packages,
        PackageKind::Adapter,
    ) + api_section("## Frontend SDKs\n\n"@, config.packages, PackageKind::Frontend)
        + api_section("## Mobile SDKs\n\n"@, config.packages, PackageKind::Mobile)
}

/// A package without a function has no functions page.
pub proof fn lemma_no_functions_no_page(docs: ExtractedDocsView)
    requires
        of_kind(docs.package.exports, ExportKind::Function).len() == 0,
    ensures
        forall|i: int|
            0 <= i < package_pages(docs).len() ==> (#[trigger] package_pages(docs)[i]).0
                != "functions.md"@,
{
    reveal_strlit("index.md");
    reveal_strlit("types.md");
    reveal_strlit("functions.md");
    let pages = package_pages(docs);
    assert forall|i: int| 0 <= i < pages.len() implies (#[trigger] pages[i]).0
        != "functions.md"@ by {
        assert(pages[i].0.len() == 8);
    }
}

/// A package with a function has a functions page, and its index page
/// links to it.
pub proof fn lemma_functions_are_linked(docs: ExtractedDocsView)
    requires
        of_kind(docs.package.exports, ExportKind::Function).len() > 0,
    ensures
        exists|i: int|
            0 <= i < package_pages(docs).len() && (#[trigger] package_pages(docs)[i]).0
                == "functions.md"@,
        contains_seq(package_index(docs), functions_link()),
{
    let pages = package_pages(docs);
    assert(pages[pages.len() - 1].0 == "functions.md"@);
    lemma_part_occurs(
        index_head(docs),
        "## Documentation\n\n"@ + "- [Types Reference](./types.md)\n"@,
        functions_link(),
        "\n"@,
        readme_part(docs.readme, docs.package.name),
    );
}

/// A part of a text occurs in it.
proof fn lemma_part_occurs(
    head: Seq<char>,
    before: Seq<char>,
    part: Seq<char>,
    after: Seq<char>,
    tail: Seq<char>,
)
    ensures
        contains_seq(head + (before + part + after) + tail, part),
{
    let whole = head + (before + part + after) + tail;
    let at = head.len() + before.len();
    assert(whole.subrange(at as int, at as int + part.len()) =~= part);
    assert(crate::text::occurs_at(whole, part, at as int));
}

fn append_chars(out: &mut String, chars: &[char])
    ensures
        final(out)@ == old(out)@ + chars@,
{
    let s: String = string_of(chars);
    out.append(s.as_str());
}

/// The file name of `path`.
pub fn file_name_of(path: &str) -> (r: Vec<char>)
    ensures
        r@ == file_name(path@),
{
    let chars: Vec<char> = chars_of(path);
    let parts: Vec<Vec<char>> = split_all(chars.as_slice(), '/');
    let mut i: usize = parts.len();
    proof {
        assert(texts(parts@).take(i as int) =~= texts(parts@));
    }
    while i > 0
        invariant
            i <= parts.len(),
            file_name(path@) == last_named(texts(parts@).take(i as int)),
        decreases i,
    {
        let part: &Vec<char> = &parts[i - 1];
        proof {
            assert(texts(parts@).take(i as int).drop_last() =~= texts(parts@).take(i - 1));
            assert(texts(parts@).take(i as int).last() == part@);
        }
        if part.len() == 0 || (part.len() == 1 && part[0] == '.') {
            proof {
                if part.len() == 1 {
                    assert(part@ =~= seq!['.']);
                }
            }
            i -= 1;
        } else if part.len() == 2 && part[0] == '.' && part[1] == '.' {
            proof {
                assert(part@ =~= seq!['.', '.']);
            }
            return Vec::new();
        } else {
            proof {
                assert(part@ != seq!['.']) by {
                    if part@ == seq!['.'] {
                        assert(part@.len() == 1 && part@[0] == '.');
                    }
                }
                assert(part@ != seq!['.', '.']) by {
                    if part@ == seq!['.', '.'] {
                        assert(part@.len() == 2 && part@[0] == '.' && part@[1] == '.');
                    }
                }
            }
            return crate::text::to_vec(part.as_slice());
        }
    }
    Vec::new()
}

fn write_fenced(out: &mut String, code: &str)
    ensures
        final(out)@ == old(out)@ + fenced(code@),
{
    out.append("```typescript\n");
    out.append(code);
    out.append("\n```\n\n");
    proof {
        assert(out@ =~= old(out)@ + fenced(code@));
    }
}

fn write_deprecated(out: &mut String, notice: &Option<String>)
    ensures
        final(out)@ == old(out)@ + deprecated_part(notice.deep_view()),
{
    match notice {
        Some(d) => {
            out.append("> \u{26a0}\u{fe0f} **Deprecated:** ");
            out.append(d.as_str());
            out.append("\n\n");
        },
        None => {},
    }
    proof {
        assert(out@ =~= old(out)@ + deprecated_part(notice.deep_view()));
    }
}

fn write_description(out: &mut String, description: &Option<String>)
    ensures
        final(out)@ == old(out)@ + description_part(description.deep_view()),
{
    match description {
        Some(d) => {
            out.append(d.as_str());
            out.append("\n\n");
        },
        None => {},
    }
    proof {
        assert(out@ =~= old(out)@ + description_part(description.deep_view()));
    }
}

fn write_signature(out: &mut String, signature: &Option<String>)
    ensures
        final(out)@ == old(out)@ + signature_part(signature.deep_view()),
{
    match signature {
        Some(s) => {
            write_fenced(out, s.as_str());
        },
        None => {},
    }
    proof {
        assert(out@ =~= old(out)@ + signature_part(signature.deep_view()));
    }
}

fn write_location(out: &mut String, export: &Export)
    ensures
        final(out)@ == old(out)@ + location_part(export@),
{
    let name: Vec<char> = file_name_of(export.source_file.as_str());
    let line: Vec<char> = decimal_chars(export.line);
    out.append("*Defined in [`");
    append_chars(out, name.as_slice());
    out.append("`](");
    out.append(export.source_file.as_str());
    out.append(":");
    append_chars(out, line.as_slice());
    out.append(")*\n\n");
    proof {
        assert(out@ =~= old(out)@ + location_part(export@));
    }
}

fn write_param_row(out: &mut String, param: &Parameter)
    ensures
        final(out)@ == old(out)@ + param_row(param@),
{
    out.append("| `");
    out.append(param.name.as_str());
    out.append("` | `");
    out.append(param.type_annotation.as_str());
    out.append("` | ");
    if param.optional {
        out.append("No");
    } else {
        out.append("Yes");
    }
    out.append(" | ");
    match &param.description {
        Some(d) => {
            out.append(d.as_str());
        },
        None => {
            out.append("-");
        },
    }
    out.append(" |\n");
    proof {
        assert(out@ =~= old(out)@ + param_row(param@));
    }
}

fn write_params_table(out: &mut String, params: &Vec<Parameter>)
    ensures
        final(out)@ == old(out)@ + params_table(params.deep_view()),
{
    if params.len() == 0 {
        proof {
            assert(out@ =~= old(out)@ + params_table(params.deep_view()));
        }
        return ;
    }
    out.append("**Parameters:**\n\n");
    out.append("| Name | Type | Required | Description |\n");
    out.append("|------|------|----------|-------------|\n");
    let ghost start = out@;
    let mut i: usize = 0;
    proof {
        assert(out@ =~= start + param_rows(params.deep_view().take(0)));
    }
    while i < params.len()
        invariant
            i <= params.len(),
            out@ == start + param_rows(params.deep_view().take(i as int)),
        decreases params.len() - i,
    {
        proof {
            assert(params.deep_view().take(i + 1).drop_last() =~= params.deep_view().take(
                i as int,
            ));
        }
        let ghost prev = out@;
        write_param_row(out, &params[i]);
        proof {
            assert(out@ =~= start + param_rows(params.deep_view().take(i + 1)));
        }
        i += 1;
    }
    out.append("\n");
    proof {
        assert(params.deep_view().take(params.len() as int) =~= params.deep_view());
        assert(out@ =~= old(out)@ + params_table(params.deep_view()));
    }
}

fn write_returns(out: &mut String, returns_text: &Option<String>)
    ensures
        final(out)@ == old(out)@ + returns_part(returns_text.deep_view()),
{
    match returns_text {
        Some(r) => {
            out.append("**Returns:** `");
            out.append(r.as_str());
            out.append("`\n\n");
        },
        None => {},
    }
    proof {
        assert(out@ =~= old(out)@ + returns_part(returns_text.deep_view()));
    }
}

fn write_examples(out: &mut String, title: &str, examples: &Vec<String>)
    ensures
        final(out)@ == old(out)@ + examples_part(title@, examples.deep_view()),
{
    if examples.len() == 0 {
        proof {
            assert(out@ =~= old(out)@ + examples_part(title@, examples.deep_view()));
        }
        return ;
    }
    out.append(title);
    let ghost start = out@;
    let mut i: usize = 0;
    proof {
        assert(out@ =~= start + fenced_all(examples.deep_view().take(0)));
    }
    while i < examples.len()
        invariant
            i <= examples.len(),
            out@ == start + fenced_all(examples.deep_view().take(i as int)),
        decreases examples.len() - i,
    {
        proof {
            assert(examples.deep_view().take(i + 1).drop_last() =~= examples.deep_view().take(
                i as int,
            ));
        }
        write_fenced(out, examples[i].as_str());
        proof {
            assert(out@ =~= start + fenced_all(examples.deep_view().take(i + 1)));
        }
        i += 1;
    }
    proof {
        assert(examples.deep_view().take(examples.len() as int) =~= examples.deep_view());
        assert(out@ =~= old(out)@ + examples_part(title@, examples.deep_view()));
    }
}

/// Appends the block of `export` to a reference page.
pub fn write_export(content: &mut String, export: &Export)
    ensures
        final(content)@ == old(content)@ + export_block(export@),
{
    let ghost base = content@;
    let ghost mut acc = Seq::<char>::empty();
    proof {
        assert(content@ =~= base + acc);
    }
    content.append("### `");
    proof {
        crate::text::lemma_concat_assoc(base, acc, "### `"@);
        acc = acc + "### `"@;
    }
    content.append(export.name.as_str());
    proof {
        crate::text::lemma_concat_assoc(base, acc, export.name@);
        acc = acc + export.name@;
    }
    content.append("`\n\n");
    proof {
        crate::text::lemma_concat_assoc(base, acc, "`\n\n"@);
        acc = acc + "`\n\n"@;
    }
    write_deprecated(content, &export.deprecated);
    proof {
        crate::text::lemma_concat_assoc(base, acc, deprecated_part(export@.deprecated));
        acc = acc + deprecated_part(export@.deprecated);
    }
    write_description(content, &export.description);
    proof {
        crate::text::lemma_concat_assoc(base, acc, description_part(export@.description));
        acc = acc + description_part(export@.description);
    }
    write_signature(content, &export.signature);
    proof {
        crate::text::lemma_concat_assoc(base, acc, signature_part(export@.signature));
        acc = acc + signature_part(export@.signature);
    }
    write_location(content, export);
    proof {
        crate::text::lemma_concat_assoc(base, acc, location_part(export@));
        acc = acc + location_part(export@);
    }
    write_params_table(content, &export.params);
    proof {
        crate::text::lemma_concat_assoc(base, acc, params_table(export@.params));
        acc = acc + params_table(export@.params);
    }
    write_returns(content, &export.returns);
    proof {
        crate::text::lemma_concat_assoc(base, acc, returns_part(export@.returns));
        acc = acc + returns_part(export@.returns);
    }
    write_examples(content, "**Example:**\n\n", &export.examples);
    proof {
        crate::text::lemma_concat_assoc(base, acc, examples_part("**Example:**\n\n"@, export@.examples));
        acc = acc + examples_part("**Example:**\n\n"@, export@.examples);
    }
    content.append("---\n\n");
    proof {
        crate::text::lemma_concat_assoc(base, acc, "---\n\n"@);
        acc = acc + "---\n\n"@;
    }
    proof {
        assert(acc =~= export_block(export@));
    }
}

fn write_plain_param(out: &mut String, param: &Parameter)
    ensures
        final(out)@ == old(out)@ + plain_param(param@),
{
    out.append("- `");
    out.append(param.name.as_str());
    out.append("`: `");
    out.append(param.type_annotation.as_str());
    out.append("`");
    if param.optional {
        out.append(" (optional)");
    }
    out.append("\n");
    match &param.description {
        Some(d) => {
            out.append("  - ");
            out.append(d.as_str());
            out.append("\n");
        },
        None => {},
    }
    proof {
        assert(out@ =~= old(out)@ + plain_param(param@));
    }
}

fn write_plain_params(out: &mut String, params: &Vec<Parameter>)
    ensures
        final(out)@ == old(out)@ + plain_params_part(params.deep_view()),
{
    if params.len() == 0 {
        proof {
            assert(out@ =~= old(out)@ + plain_params_part(params.deep_view()));
        }
        return ;
    }
    out.append("**Parameters:**\n\n");
    let ghost start = out@;
    let mut i: usize = 0;
    proof {
        assert(out@ =~= start + plain_params(params.deep_view().take(0)));
    }
    while i < params.len()
        invariant
            i <= params.len(),
            out@ == start + plain_params(params.deep_view().take(i as int)),
        decreases params.len() - i,
    {
        proof {
            assert(params.deep_view().take(i + 1).drop_last() =~= params.deep_view().take(
                i as int,
            ));
        }
        write_plain_param(out, &params[i]);
        proof {
            assert(out@ =~= start + plain_params(params.deep_view().take(i + 1)));
        }
        i += 1;
    }
    out.append("\n");
    proof {
        assert(params.deep_view().take(params.len() as int) =~= params.deep_view());
        assert(out@ =~= old(out)@ + plain_params_part(params.deep_view()));
    }
}

/// Appends the block of `export` to the page of a single file.
pub fn write_export_markdown(md: &mut String, export: &Export)
    ensures
        final(md)@ == old(md)@ + plain_block(export@),
{
    let ghost base = md@;
    let ghost mut acc = Seq::<char>::empty();
    proof {
        assert(md@ =~= base + acc);
    }
    md.append("### `");
    proof {
        crate::text::lemma_concat_assoc(base, acc, "### `"@);
        acc = acc + "### `"@;
    }
    md.append(export.name.as_str());
    proof {
        crate::text::lemma_concat_assoc(base, acc, export.name@);
        acc = acc + export.name@;
    }
    md.append("`\n\n");
    proof {
        crate::text::lemma_concat_assoc(base, acc, "`\n\n"@);
        acc = acc + "`\n\n"@;
    }
    write_description(md, &export.description);
    proof {
        crate::text::lemma_concat_assoc(base, acc, description_part(export@.description));
        acc = acc + description_part(export@.description);
    }
    write_signature(md, &export.signature);
    proof {
        crate::text::lemma_concat_assoc(base, acc, signature_part(export@.signature));
        acc = acc + signature_part(export@.signature);
    }
    write_plain_params(md, &export.params);
    proof {
        crate::text::lemma_concat_assoc(base, acc, plain_params_part(export@.params));
        acc = acc + plain_params_part(export@.params);
    }
    write_returns(md, &export.returns);
    proof {
        crate::text::lemma_concat_assoc(base, acc, returns_part(export@.returns));
        acc = acc + returns_part(export@.returns);
    }
    write_examples(md, "**Examples:**\n\n", &export.examples);
    proof {
        crate::text::lemma_concat_assoc(base, acc, examples_part("**Examples:**\n\n"@, export@.examples));
        acc = acc + examples_part("**Examples:**\n\n"@, export@.examples);
    }
    write_deprecated(md, &export.deprecated);
    proof {
        crate::text::lemma_concat_assoc(base, acc, deprecated_part(export@.deprecated));
        acc = acc + deprecated_part(export@.deprecated);
    }
    md.append("---\n\n");
    proof {
        crate::text::lemma_concat_assoc(base, acc, "---\n\n"@);
        acc = acc + "---\n\n"@;
    }
    proof {
        assert(acc =~= plain_block(export@));
    }
}

/// The number of records whose kind is `a` or `b`.
pub fn count_selected(exports: &Vec<Export>, a: ExportKind, b: ExportKind) -> (r: usize)
    ensures
        r == select(exports.deep_view(), a, b).len(),
{
    let mut count: usize = 0;
    let mut i: usize = 0;
    while i < exports.len()
        invariant
            i <= exports.len(),
            count <= i,
            count == select(exports.deep_view().take(i as int), a, b).len(),
        decreases exports.len() - i,
    {
        proof {
            assert(exports.deep_view().take(i + 1).drop_last() =~= exports.deep_view().take(
                i as int,
            ));
        }
        if exports[i].kind == a || exports[i].kind == b {
            count += 1;
        }
        i += 1;
    }
    proof {
        assert(exports.deep_view().take(exports.len() as int) =~= exports.deep_view());
    }
    count
}

fn write_section(out: &mut String, title: &str, exports: &Vec<Export>, kind: ExportKind)
    ensures
        final(out)@ == old(out)@ + section(title@, of_kind(exports.deep_view(), kind)),
{
    if count_selected(exports, kind, kind) == 0 {
        proof {
            assert(out@ =~= old(out)@ + section(title@, of_kind(exports.deep_view(), kind)));
        }
        return ;
    }
    out.append(title);
    let ghost start = out@;
    let mut i: usize = 0;
    proof {
        assert(out@ =~= start + export_blocks(select(exports.deep_view().take(0), kind, kind)));
    }
    while i < exports.len()
        invariant
            i <= exports.len(),
            out@ == start + export_blocks(select(exports.deep_view().take(i as int), kind, kind)),
        decreases exports.len() - i,
    {
        proof {
            assert(exports.deep_view().take(i + 1).drop_last() =~= exports.deep_view().take(
                i as int,
            ));
        }
        if exports[i].kind == kind {
            let ghost chosen = select(exports.deep_view().take(i as int), kind, kind);
            write_export(out, &exports[i]);
            proof {
                assert(chosen.push(exports[i as int]@).drop_last() =~= chosen);
                assert(out@ =~= start + export_blocks(chosen.push(exports[i as int]@)));
            }
        }
        i += 1;
    }
    proof {
        assert(exports.deep_view().take(exports.len() as int) =~= exports.deep_view());
        assert(out@ =~= old(out)@ + section(title@, of_kind(exports.deep_view(), kind)));
    }
}

fn write_plain_section(
    out: &mut String,
    title: &str,
    exports: &Vec<Export>,
    a: ExportKind,
    b: ExportKind,
)
    ensures
        final(out)@ == old(out)@ + plain_section(title@, select(exports.deep_view(), a, b)),
{
    if count_selected(exports, a, b) == 0 {
        proof {
            assert(out@ =~= old(out)@ + plain_section(title@, select(exports.deep_view(), a, b)));
        }
        return ;
    }
    out.append(title);
    let ghost start = out@;
    let mut i: usize = 0;
    proof {
        assert(out@ =~= start + plain_blocks(select(exports.deep_view().take(0), a, b)));
    }
    while i < exports.len()
        invariant
            i <= exports.len(),
            out@ == start + plain_blocks(select(exports.deep_view().take(i as int), a, b)),
        decreases exports.len() - i,
    {
        proof {
            assert(exports.deep_view().take(i + 1).drop_last() =~= exports.deep_view().take(
                i as int,
            ));
        }
        if exports[i].kind == a || exports[i].kind == b {
            let ghost chosen = select(exports.deep_view().take(i as int), a, b);
            write_export_markdown(out, &exports[i]);
            proof {
                assert(chosen.push(exports[i as int]@).drop_last() =~= chosen);
                assert(out@ =~= start + plain_blocks(chosen.push(exports[i as int]@)));
            }
        }
        i += 1;
    }
    proof {
        assert(exports.deep_view().take(exports.len() as int) =~= exports.deep_view());
        assert(out@ =~= old(out)@ + plain_section(title@, select(exports.deep_view(), a, b)));
    }
}

/// Renders the page of the symbols of the source file `source`.
pub fn render_file_page(source: &str, exports: &Vec<Export>) -> (r: String)
    ensures
        r@ == file_page(source@, exports.deep_view()),
{
    let mut md: String = "# Types from ".to_owned();
    md.append(source);
    md.append("\n\n");
    write_plain_section(
        &mut md,
        "## Interfaces\n\n",
        exports,
        ExportKind::Interface,
        ExportKind::Interface,
    );
    write_plain_section(&mut md, "## Types\n\n", exports, ExportKind::Type, ExportKind::Type);
    write_plain_section(
        &mut md,
        "## Functions\n\n",
        exports,
        ExportKind::Function,
        ExportKind::Function,
    );
    write_plain_section(&mut md, "## Classes\n\n", exports, ExportKind::Class, ExportKind::Class);
    write_plain_section(&mut md, "## Enums\n\n", exports, ExportKind::Enum, ExportKind::Enum);
    write_plain_section(
        &mut md,
        "## Constants\n\n",
        exports,
        ExportKind::Const,
        ExportKind::Variable,
    );
    proof {
        assert(md@ =~= file_page(source@, exports.deep_view()));
    }
    md
}

/// Scans the text `content` of the source file `source` and renders the
/// page of its symbols. Fails where the scan fails.
pub fn extract_to_markdown(source: &str, content: &str) -> (r: Result<String, ScanError>)
    ensures
        r is Ok <==> patterns_valid(),
        r matches Ok(page) ==> page@ == file_page(source@, scan_exports(source@, content@)),
{
    match extract_file(source, content) {
        Ok(exports) => Ok(render_file_page(source, &exports)),
        Err(e) => Err(e),
    }
}

/// Renders the types page of a package.
pub fn generate_types_doc(docs: &ExtractedDocs) -> (r: String)
    ensures
        r@ == types_page(docs@),
{
    let mut content: String = "# ".to_owned();
    content.append(docs.package.name.as_str());
    content.append(" - Types\n\n");
    let exports: &Vec<Export> = &docs.package.exports;
    write_section(&mut content, "## Interfaces\n\n", exports, ExportKind::Interface);
    write_section(&mut content, "## Type Aliases\n\n", exports, ExportKind::Type);
    write_section(&mut content, "## Enums\n\n", exports, ExportKind::Enum);
    write_section(&mut content, "## Classes\n\n", exports, ExportKind::Class);
    proof {
        assert(content@ =~= types_page(docs@));
    }
    content
}

/// Renders the functions page of a package from its function records.
pub fn generate_functions_doc(functions: &[&Export], package_name: &str) -> (r: String)
    ensures
        r@ == functions_page(functions.deep_view(), package_name@),
{
    let mut content: String = "# ".to_owned();
    content.append(package_name);
    content.append(" - Functions\n\n");
    let ghost start = content@;
    let mut i: usize = 0;
    proof {
        assert(content@ =~= start + export_blocks(functions.deep_view().take(0)));
    }
    while i < functions.len()
        invariant
            i <= functions.len(),
            content@ == start + export_blocks(functions.deep_view().take(i as int)),
        decreases functions.len() - i,
    {
        proof {
            assert(functions.deep_view().take(i + 1).drop_last() =~= functions.deep_view().take(
                i as int,
            ));
        }
        write_export(&mut content, functions[i]);
        proof {
            assert(content@ =~= start + export_blocks(functions.deep_view().take(i + 1)));
        }
        i += 1;
    }
    proof {
        assert(functions.deep_view().take(functions.len() as int) =~= functions.deep_view());
    }
    content
}

/// Drops the first line of a readme, heading or not, where it repeats
/// the package name.
pub fn skip_duplicate_heading(readme: &str, package_name: &str) -> (r: String)
    ensures
        r@ == without_duplicate_heading(readme@, package_name@),
{
    let chars: Vec<char> = chars_of(readme);
    let name: Vec<char> = chars_of(package_name);
    let mut ls: Vec<Vec<char>> = split_lines(chars.as_slice());
    if ls.len() == 0 {
        return readme.to_owned();
    }
    let heading: &[char] = trimmed(without_leading(ls[0].as_slice(), '#'));
    if contains(heading, name.as_slice()) || contains(name.as_slice(), heading) {
        let ghost all = texts(ls@);
        ls.remove(0);
        proof {
            assert(texts(ls@) =~= all.drop_first());
        }
        let feed: Vec<char> = chars_of("\n");
        let rest: Vec<char> = joined(&ls, feed.as_slice());
        string_of(trimmed_start(rest.as_slice()))
    } else {
        readme.to_owned()
    }
}

fn write_count_row(out: &mut String, label: &str, count: usize)
    ensures
        final(out)@ == old(out)@ + count_row(label@, count as nat),
{
    if count > 0 {
        let digits: Vec<char> = decimal_chars(count);
        out.append("| ");
        out.append(label);
        out.append(" | ");
        append_chars(out, digits.as_slice());
        out.append(" |\n");
    }
    proof {
        assert(out@ =~= old(out)@ + count_row(label@, count as nat));
    }
}

fn write_summary(out: &mut String, description: &str)
    ensures
        final(out)@ == old(out)@ + summary_part(description@),
{
    if !description.is_empty() {
        out.append(description);
        out.append("\n\n");
    }
    proof {
        assert(out@ =~= old(out)@ + summary_part(description@));
    }
}

fn write_index_head(out: &mut String, docs: &ExtractedDocs)
    ensures
        final(out)@ == old(out)@ + index_head(docs@),
{
    let p = &docs.package;
    let exports: &Vec<Export> = &p.exports;
    let ghost base = out@;
    let ghost mut acc = Seq::<char>::empty();
    proof {
        assert(out@ =~= base + acc);
    }
    out.append("# ");
    proof {
        crate::text::lemma_concat_assoc(base, acc, "# "@);
        acc = acc + "# "@;
    }
    out.append(p.name.as_str());
    proof {
        crate::text::lemma_concat_assoc(base, acc, p.name@);
        acc = acc + p.name@;
    }
    out.append("\n\n");
    proof {
        crate::text::lemma_concat_assoc(base, acc, "\n\n"@);
        acc = acc + "\n\n"@;
    }
    write_summary(out, p.description.as_str());
    proof {
        crate::text::lemma_concat_assoc(base, acc, summary_part(p.description@));
        acc = acc + summary_part(p.description@);
    }
    out.append("**Version:** ");
    proof {
        crate::text::lemma_concat_assoc(base, acc, "**Version:** "@);
        acc = acc + "**Version:** "@;
    }
    out.append(p.version.as_str());
    proof {
        crate::text::lemma_concat_assoc(base, acc, p.version@);
        acc = acc + p.version@;
    }
    out.append("\n\n");
    proof {
        crate::text::lemma_concat_assoc(base, acc, "\n\n"@);
        acc = acc + "\n\n"@;
    }
    out.append("## Installation\n\n");
    proof {
        crate::text::lemma_concat_assoc(base, acc, "## Installation\n\n"@);
        acc = acc + "## Installation\n\n"@;
    }
    out.append("```bash\n");
    proof {
        crate::text::lemma_concat_assoc(base, acc, "```bash\n"@);
        acc = acc + "```bash\n"@;
    }
    out.append("npm install ");
    proof {
        crate::text::lemma_concat_assoc(base, acc, "npm install "@);
        acc = acc + "npm install "@;
    }
    out.append(p.name.as_str());
    proof {
        crate::text::lemma_concat_assoc(base, acc, p.name@);
        acc = acc + p.name@;
    }
    out.append("\n");
    proof {
        crate::text::lemma_concat_assoc(base, acc, "\n"@);
        acc = acc + "\n"@;
    }
    out.append("# or\n");
    proof {
        crate::text::lemma_concat_assoc(base, acc, "# or\n"@);
        acc = acc + "# or\n"@;
    }
    out.append("pnpm add ");
    proof {
        crate::text::lemma_concat_assoc(base, acc, "pnpm add "@);
        acc = acc + "pnpm add "@;
    }
    out.append(p.name.as_str());
    proof {
        crate::text::lemma_concat_assoc(base, acc, p.name@);
        acc = acc + p.name@;
    }
    out.append("\n");
    proof {
        crate::text::lemma_concat_assoc(base, acc, "\n"@);
        acc = acc + "\n"@;
    }
    out.append("```\n\n");
    proof {
        crate::text::lemma_concat_assoc(base, acc, "```\n\n"@);
        acc = acc + "```\n\n"@;
    }
    out.append("## Exports\n\n");
    proof {
        crate::text::lemma_concat_assoc(base, acc, "## Exports\n\n"@);
        acc = acc + "## Exports\n\n"@;
    }
    out.append("| Category | Count |\n");
    proof {
        crate::text::lemma_concat_assoc(base, acc, "| Category | Count |\n"@);
        acc = acc + "| Category | Count |\n"@;
    }
    out.append("|----------|-------|\n");
    proof {
        crate::text::lemma_concat_assoc(base, acc, "|----------|-------|\n"@);
        acc = acc + "|----------|-------|\n"@;
    }
    write_count_row(out, "Interfaces", count_selected(exports, ExportKind::Interface, ExportKind::Interface));
    proof {
        crate::text::lemma_concat_assoc(base, acc, count_row("Interfaces"@, of_kind(exports.deep_view(), ExportKind::Interface).len()));
        acc = acc + count_row("Interfaces"@, of_kind(exports.deep_view(), ExportKind::Interface).len());
    }
    write_count_row(out, "Types", count_selected(exports, ExportKind::Type, ExportKind::Type));
    proof {
        crate::text::lemma_concat_assoc(base, acc, count_row("Types"@, of_kind(exports.deep_view(), ExportKind::Type).len()));
        acc = acc + count_row("Types"@, of_kind(exports.deep_view(), ExportKind::Type).len());
    }
    write_count_row(out, "Functions", count_selected(exports, ExportKind::Function, ExportKind::Function));
    proof {
        crate::text::lemma_concat_assoc(base, acc, count_row("Functions"@, of_kind(exports.deep_view(), ExportKind::Function).len()));
        acc = acc + count_row("Functions"@, of_kind(exports.deep_view(), ExportKind::Function).len());
    }
    write_count_row(out, "Classes", count_selected(exports, ExportKind::Class, ExportKind::Class));
    proof {
        crate::text::lemma_concat_assoc(base, acc, count_row("Classes"@, of_kind(exports.deep_view(), ExportKind::Class).len()));
        acc = acc + count_row("Classes"@, of_kind(exports.deep_view(), ExportKind::Class).len());
    }
    out.append("\n");
    proof {
        crate::text::lemma_concat_assoc(base, acc, "\n"@);
        acc = acc + "\n"@;
    }
    proof {
        assert(acc =~= index_head(docs@));
    }
}

/// Renders the index page of a package.
pub fn generate_package_index(docs: &ExtractedDocs) -> (r: String)
    ensures
        r@ == package_index(docs@),
{
    let mut content: String = String::new();
    write_index_head(&mut content, docs);
    let has_functions: bool = count_selected(
        &docs.package.exports,
        ExportKind::Function,
        ExportKind::Function,
    ) > 0;
    write_links(&mut content, has_functions);
    write_readme(&mut content, &docs.readme, docs.package.name.as_str());
    proof {
        assert(content@ =~= package_index(docs@));
    }
    content
}

fn write_links(out: &mut String, has_functions: bool)
    ensures
        final(out)@ == old(out)@ + links_part(has_functions),
{
    out.append("## Documentation\n\n");
    out.append("- [Types Reference](./types.md)\n");
    if has_functions {
        out.append("- [Functions Reference](./functions.md)\n");
    }
    out.append("\n");
    proof {
        assert(out@ =~= old(out)@ + links_part(has_functions));
    }
}

fn write_readme(out: &mut String, readme: &Option<String>, package_name: &str)
    ensures
        final(out)@ == old(out)@ + readme_part(readme.deep_view(), package_name@),
{
    match readme {
        Some(text) => {
            let kept: String = skip_duplicate_heading(text.as_str(), package_name);
            out.append("---\n\n");
            out.append(kept.as_str());
        },
        None => {},
    }
    proof {
        assert(out@ =~= old(out)@ + readme_part(readme.deep_view(), package_name@));
    }
}

/// The function records of `exports`, in their order.
pub fn functions_of(exports: &Vec<Export>) -> (r: Vec<&Export>)
    ensures
        r.deep_view() == of_kind(exports.deep_view(), ExportKind::Function),
{
    let mut out: Vec<&Export> = Vec::new();
    let mut i: usize = 0;
    proof {
        assert(out.deep_view() =~= Seq::<ExportView>::empty());
    }
    while i < exports.len()
        invariant
            i <= exports.len(),
            out.deep_view() == of_kind(exports.deep_view().take(i as int), ExportKind::Function),
        decreases exports.len() - i,
    {
        proof {
            assert(exports.deep_view().take(i + 1).drop_last() =~= exports.deep_view().take(
                i as int,
            ));
        }
        if exports[i].kind == ExportKind::Function {
            let ghost before = out.deep_view();
            out.push(&exports[i]);
            proof {
                assert(out.deep_view() =~= before.push(exports[i as int]@));
            }
        }
        i += 1;
    }
    proof {
        assert(exports.deep_view().take(exports.len() as int) =~= exports.deep_view());
    }
    out
}

/// Renders the pages of a package, each with the name of its file.
pub fn generate_package_docs(docs: &ExtractedDocs) -> (r: Vec<(String, String)>)
    ensures
        r.deep_view() == package_pages(docs@),
{
    let mut pages: Vec<(String, String)> = Vec::new();
    pages.push(("index.md".to_owned(), generate_package_index(docs)));
    if docs.package.exports.len() > 0 {
        pages.push(("types.md".to_owned(), generate_types_doc(docs)));
    }
    let functions: Vec<&Export> = functions_of(&docs.package.exports);
    if functions.len() > 0 {
        pages.push(
            (
                "functions.md".to_owned(),
                generate_functions_doc(functions.as_slice(), docs.package.name.as_str()),
            ),
        );
    }
    proof {
        assert(pages.deep_view() =~= package_pages(docs@));
    }
    pages
}

/// The name under which the package `name` is linked.
pub fn slug_of(name: &str) -> (r: String)
    ensures
        r@ == link_slug(name@),
{
    let chars: Vec<char> = chars_of(name);
    let scope: Vec<char> = chars_of("@acedergren/");
    let hyphen: Vec<char> = chars_of("-");
    let underscore: Vec<char> = chars_of("_");
    let nothing: Vec<char> = Vec::new();
    let unscoped: Vec<char> = replaced(chars.as_slice(), scope.as_slice(), nothing.as_slice());
    proof {
        assert(nothing@ =~= Seq::<char>::empty());
    }
    string_of(replaced(unscoped.as_slice(), hyphen.as_slice(), underscore.as_slice()).as_slice())
}

fn write_api_section(out: &mut String, title: &str, packages: &Vec<PackageConfig>, kind: PackageKind)
    ensures
        final(out)@ == old(out)@ + api_section(title@, packages.deep_view(), kind),
{
    let mut links: String = String::new();
    let mut any: bool = false;
    let mut i: usize = 0;
    while i < packages.len()
        invariant
            i <= packages.len(),
            links@ == package_links(packages.deep_view().take(i as int), kind),
            any == has_package(packages.deep_view().take(i as int), kind),
        decreases packages.len() - i,
    {
        proof {
            assert(packages.deep_view().take(i + 1).drop_last() =~= packages.deep_view().take(
                i as int,
            ));
        }
        let ghost seen = packages.deep_view().take(i as int);
        let ghost grown = packages.deep_view().take(i + 1);
        if packages[i].kind == kind {
            let slug: String = slug_of(packages[i].name.as_str());
            links.append("- [");
            links.append(packages[i].name.as_str());
            links.append("](./");
            links.append(slug.as_str());
            links.append("/)\n");
            any = true;
            proof {
                assert(grown[i as int].kind == kind);
                assert(links@ =~= package_links(grown, kind));
            }
        } else {
            proof {
                assert(links@ =~= package_links(grown, kind));
                if has_package(grown, kind) {
                    let j = choose|j: int| 0 <= j < grown.len() && (#[trigger] grown[j]).kind == kind;
                    assert(seen[j].kind == kind);
                }
                if has_package(seen, kind) {
                    let j = choose|j: int| 0 <= j < seen.len() && (#[trigger] seen[j]).kind == kind;
                    assert(grown[j].kind == kind);
                }
            }
        }
        i += 1;
    }
    proof {
        assert(packages.deep_view().take(packages.len() as int) =~= packages.deep_view());
    }
    if any {
        out.append(title);
        out.append(links.as_str());
        out.append("\n");
    }
    proof {
        assert(out@ =~= old(out)@ + api_section(title@, packages.deep_view(), kind));
    }
}

/// Renders the API index page.
pub fn generate_index(config: &DocgenConfig) -> (r: String)
    ensures
        r@ == api_index(config@),
{
    let mut content: String = "# API Reference\n\n".to_owned();
    content.append("Complete API documentation for the Apple Auth Kit packages.\n\n");
    write_api_section(&mut content, "## Core Packages\n\n", &config.packages, PackageKind::Core);
    write_api_section(
        &mut content,
        "## Database Adapters\n\n",
        &config.packages,
        PackageKind::Adapter,
    );
    write_api_section(
        &mut content,
        "## Frontend SDKs\n\n",
        &config.packages,
        PackageKind::Frontend,
    );
    write_api_section(&mut content, "## Mobile SDKs\n\n", &config.packages, PackageKind::Mobile);
    proof {
        assert(content@ =~= api_index(config@));
    }
    content
}

} // verus!
