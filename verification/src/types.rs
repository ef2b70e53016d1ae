//! The data model: packages, exported symbols, configuration and
//! validation results, each with its mathematical view.
//!
//! Paths are held as text, with `/` between components.

use vstd::prelude::*;

verus! {

/// Kind of package.
#[derive(Debug, Clone, Copy, PartialEq, Eq, Structural)]
pub enum PackageKind {
    /// Core backend package
    Core,
    /// Database adapter
    Adapter,
    /// Frontend integration
    Frontend,
    /// Mobile SDK
    Mobile,
}

/// Kind of exported symbol.
#[derive(Debug, Clone, Copy, PartialEq, Eq, Structural)]
pub enum ExportKind {
    Function,
    Class,
    Interface,
    Type,
    Enum,
    Const,
    Variable,
}

/// Issue severity level.
#[derive(Debug, Clone, Copy, PartialEq, Eq, Structural)]
pub enum IssueSeverity {
    Error,
    Warning,
    Info,
}

/// Function parameter.
#[derive(Debug, Clone)]
pub struct Parameter {
    /// Parameter name
    pub name: String,
    /// Declared type, or `unknown`
    pub type_annotation: String,
    /// Description from the doc comment
    pub description: Option<String>,
    /// Whether the parameter is optional
    pub optional: bool,
    /// Default value if any
    pub default: Option<String>,
}

pub struct ParameterView {
    pub name: Seq<char>,
    pub type_annotation: Seq<char>,
    pub description: Option<Seq<char>>,
    pub optional: bool,
    pub default: Option<Seq<char>>,
}

impl View for Parameter {
    type V = ParameterView;

    open spec fn view(&self) -> ParameterView {
        ParameterView {
            name: self.name@,
            type_annotation: self.type_annotation@,
            description: self.description.deep_view(),
            optional: self.optional,
            default: self.default.deep_view(),
        }
    }
}

impl DeepView for Parameter {
    type V = ParameterView;

    open spec fn deep_view(&self) -> ParameterView {
        self@
    }
}

/// An exported symbol of a source file.
#[derive(Debug, Clone)]
pub struct Export {
    /// Symbol name
    pub name: String,
    /// Symbol kind
    pub kind: ExportKind,
    /// Description from the doc comment
    pub description: Option<String>,
    /// Source file path
    pub source_file: String,
    /// Line of the declaration, counted from 1
    pub line: usize,
    /// Signature text
    pub signature: Option<String>,
    /// Parameters (functions only)
    pub params: Vec<Parameter>,
    /// Return type (functions only)
    pub returns: Option<String>,
    /// Example code
    pub examples: Vec<String>,
    /// Deprecation notice
    pub deprecated: Option<String>,
}

pub struct ExportView {
    pub name: Seq<char>,
    pub kind: ExportKind,
    pub description: Option<Seq<char>>,
    pub source_file: Seq<char>,
    pub line: nat,
    pub signature: Option<Seq<char>>,
    pub params: Seq<ParameterView>,
    pub returns: Option<Seq<char>>,
    pub examples: Seq<Seq<char>>,
    pub deprecated: Option<Seq<char>>,
}

impl ExportView {
    /// An export record names its symbol.
    pub open spec fn well_formed(self) -> bool {
        self.name.len() > 0
    }
}

impl View for Export {
    type V = ExportView;

    open spec fn view(&self) -> ExportView {
        ExportView {
            name: self.name@,
            kind: self.kind,
            description: self.description.deep_view(),
            source_file: self.source_file@,
            line: self.line as nat,
            signature: self.signature.deep_view(),
            params: self.params.deep_view(),
            returns: self.returns.deep_view(),
            examples: self.examples.deep_view(),
            deprecated: self.deprecated.deep_view(),
        }
    }
}

impl DeepView for Export {
    type V = ExportView;

    open spec fn deep_view(&self) -> ExportView {
        self@
    }
}

/// A package of the monorepo.
#[derive(Debug, Clone)]
pub struct Package {
    /// Package name
    pub name: String,
    /// Package version
    pub version: String,
    /// Short description
    pub description: String,
    /// Path of the package root
    pub path: String,
    /// Package kind
    pub kind: PackageKind,
    /// Dependencies on other packages of the monorepo
    pub internal_deps: Vec<String>,
    /// Exported symbols
    pub exports: Vec<Export>,
}

pub struct PackageView {
    pub name: Seq<char>,
    pub version: Seq<char>,
    pub description: Seq<char>,
    pub path: Seq<char>,
    pub kind: PackageKind,
    pub internal_deps: Seq<Seq<char>>,
    pub exports: Seq<ExportView>,
}

impl View for Package {
    type V = PackageView;

    open spec fn view(&self) -> PackageView {
        PackageView {
            name: self.name@,
            version: self.version@,
            description: self.description@,
            path: self.path@,
            kind: self.kind,
            internal_deps: self.internal_deps.deep_view(),
            exports: self.exports.deep_view(),
        }
    }
}

impl DeepView for Package {
    type V = PackageView;

    open spec fn deep_view(&self) -> PackageView {
        self@
    }
}

/// Documentation extracted from one package.
#[derive(Debug, Clone)]
pub struct ExtractedDocs {
    /// Package information
    pub package: Package,
    /// The exports of each scanned file, by path
    pub files: Vec<(String, Vec<Export>)>,
    /// README text if there is one
    pub readme: Option<String>,
    /// CHANGELOG text if there is one
    pub changelog: Option<String>,
}

pub struct ExtractedDocsView {
    pub package: PackageView,
    pub files: Seq<(Seq<char>, Seq<ExportView>)>,
    pub readme: Option<Seq<char>>,
    pub changelog: Option<Seq<char>>,
}

impl View for ExtractedDocs {
    type V = ExtractedDocsView;

    open spec fn view(&self) -> ExtractedDocsView {
        ExtractedDocsView {
            package: self.package@,
            files: self.files.deep_view(),
            readme: self.readme.deep_view(),
            changelog: self.changelog.deep_view(),
        }
    }
}

impl DeepView for ExtractedDocs {
    type V = ExtractedDocsView;

    open spec fn deep_view(&self) -> ExtractedDocsView {
        self@
    }
}

/// Configuration for a single package.
#[derive(Debug, Clone)]
pub struct PackageConfig {
    /// Package name
    pub name: String,
    /// Package path
    pub path: String,
    /// Kind of package
    pub kind: PackageKind,
    /// Entry points to document, relative to the package path
    pub entry_points: Vec<String>,
    /// Glob patterns of files to leave out
    pub exclude: Vec<String>,
}

pub struct PackageConfigView {
    pub name: Seq<char>,
    pub path: Seq<char>,
    pub kind: PackageKind,
    pub entry_points: Seq<Seq<char>>,
    pub exclude: Seq<Seq<char>>,
}

impl View for PackageConfig {
    type V = PackageConfigView;

    open spec fn view(&self) -> PackageConfigView {
        PackageConfigView {
            name: self.name@,
            path: self.path@,
            kind: self.kind,
            entry_points: self.entry_points.deep_view(),
            exclude: self.exclude.deep_view(),
        }
    }
}

impl DeepView for PackageConfig {
    type V = PackageConfigView;

    open spec fn deep_view(&self) -> PackageConfigView {
        self@
    }
}

/// Output configuration.
#[derive(Debug, Clone)]
pub struct OutputConfig {
    /// Output directory
    pub dir: String,
    /// Generate API reference
    pub api_reference: bool,
    /// Generate changelog
    pub changelog: bool,
    /// Generate package readmes
    pub package_readme: bool,
}

pub struct OutputConfigView {
    pub dir: Seq<char>,
    pub api_reference: bool,
    pub changelog: bool,
    pub package_readme: bool,
}

impl View for OutputConfig {
    type V = OutputConfigView;

    open spec fn view(&self) -> OutputConfigView {
        OutputConfigView {
            dir: self.dir@,
            api_reference: self.api_reference,
            changelog: self.changelog,
            package_readme: self.package_readme,
        }
    }
}

/// Configuration for documentation generation.
#[derive(Debug, Clone)]
pub struct DocgenConfig {
    /// Packages to document
    pub packages: Vec<PackageConfig>,
    /// Output configuration
    pub output: OutputConfig,
    /// Templates directory
    pub templates: Option<String>,
}

pub struct DocgenConfigView {
    pub packages: Seq<PackageConfigView>,
    pub output: OutputConfigView,
    pub templates: Option<Seq<char>>,
}

impl View for DocgenConfig {
    type V = DocgenConfigView;

    open spec fn view(&self) -> DocgenConfigView {
        DocgenConfigView {
            packages: self.packages.deep_view(),
            output: self.output@,
            templates: self.templates.deep_view(),
        }
    }
}

/// A validation issue.
#[derive(Debug, Clone)]
pub struct ValidationIssue {
    /// Issue severity
    pub severity: IssueSeverity,
    /// Issue message
    pub message: String,
    /// File where the issue was found
    pub file: Option<String>,
    /// Line number
    pub line: Option<usize>,
    /// Suggested fix
    pub suggestion: Option<String>,
}

pub struct ValidationIssueView {
    pub severity: IssueSeverity,
    pub message: Seq<char>,
    pub file: Option<Seq<char>>,
    pub line: Option<usize>,
    pub suggestion: Option<Seq<char>>,
}

impl View for ValidationIssue {
    type V = ValidationIssueView;

    open spec fn view(&self) -> ValidationIssueView {
        ValidationIssueView {
            severity: self.severity,
            message: self.message@,
            file: self.file.deep_view(),
            line: self.line,
            suggestion: self.suggestion.deep_view(),
        }
    }
}

impl DeepView for ValidationIssue {
    type V = ValidationIssueView;

    open spec fn deep_view(&self) -> ValidationIssueView {
        self@
    }
}

/// Documentation validation result.
#[derive(Debug, Clone)]
pub struct ValidationResult {
    /// Whether validation passed
    pub passed: bool,
    /// Errors found
    pub errors: Vec<ValidationIssue>,
    /// Warnings found
    pub warnings: Vec<ValidationIssue>,
    /// Info messages
    pub info: Vec<String>,
}

pub struct ValidationResultView {
    pub passed: bool,
    pub errors: Seq<ValidationIssueView>,
    pub warnings: Seq<ValidationIssueView>,
    pub info: Seq<Seq<char>>,
}

impl View for ValidationResult {
    type V = ValidationResultView;

    open spec fn view(&self) -> ValidationResultView {
        ValidationResultView {
            passed: self.passed,
            errors: self.errors.deep_view(),
            warnings: self.warnings.deep_view(),
            info: self.info.deep_view(),
        }
    }
}

} // verus!

verus! {

/// A copy of `text`.
pub fn copy_text(text: &Option<String>) -> (r: Option<String>)
    ensures
        r.deep_view() == text.deep_view(),
{
    match text {
        Some(s) => Some(s.clone()),
        None => None,
    }
}

/// A copy of `texts`.
pub fn copy_texts(texts: &Vec<String>) -> (r: Vec<String>)
    ensures
        r.deep_view() == texts.deep_view(),
{
    let mut out: Vec<String> = Vec::new();
    let mut i: usize = 0;
    while i < texts.len()
        invariant
            i <= texts.len(),
            out.deep_view() == texts.deep_view().take(i as int),
        decreases texts.len() - i,
    {
        let ghost before = out.deep_view();
        let copy: String = texts[i].clone();
        out.push(copy);
        proof {
            assert(out.deep_view() =~= before.push(texts[i as int]@));
            assert(texts.deep_view().take(i + 1) =~= before.push(texts[i as int]@));
        }
        i += 1;
    }
    proof {
        assert(texts.deep_view().take(texts.len() as int) =~= texts.deep_view());
    }
    out
}

impl Parameter {
    /// A copy of this parameter.
    pub fn duplicate(&self) -> (r: Parameter)
        ensures
            r@ == self@,
    {
        Parameter {
            name: self.name.clone(),
            type_annotation: self.type_annotation.clone(),
            description: copy_text(&self.description),
            optional: self.optional,
            default: copy_text(&self.default),
        }
    }
}

impl Export {
    /// A copy of this record.
    pub fn duplicate(&self) -> (r: Export)
        ensures
            r@ == self@,
    {
        let mut params: Vec<Parameter> = Vec::new();
        let mut i: usize = 0;
        while i < self.params.len()
            invariant
                i <= self.params.len(),
                params.deep_view() == self.params.deep_view().take(i as int),
            decreases self.params.len() - i,
        {
            let ghost before = params.deep_view();
            let copy: Parameter = self.params[i].duplicate();
            params.push(copy);
            proof {
                assert(params.deep_view() =~= before.push(self.params[i as int]@));
                assert(self.params.deep_view().take(i + 1) =~= before.push(
                    self.params[i as int]@,
                ));
            }
            i += 1;
        }
        proof {
            assert(self.params.deep_view().take(self.params.len() as int)
                =~= self.params.deep_view());
        }
        Export {
            name: self.name.clone(),
            kind: self.kind,
            description: copy_text(&self.description),
            source_file: self.source_file.clone(),
            line: self.line,
            signature: copy_text(&self.signature),
            params,
            returns: copy_text(&self.returns),
            examples: copy_texts(&self.examples),
            deprecated: copy_text(&self.deprecated),
        }
    }
}

/// Appends copies of the records of `exports` to `out`.
pub fn append_copies(out: &mut Vec<Export>, exports: &Vec<Export>)
    ensures
        final(out).deep_view() == old(out).deep_view() + exports.deep_view(),
{
    let mut i: usize = 0;
    proof {
        assert(out.deep_view() =~= old(out).deep_view() + exports.deep_view().take(0));
    }
    while i < exports.len()
        invariant
            i <= exports.len(),
            out.deep_view() == old(out).deep_view() + exports.deep_view().take(i as int),
        decreases exports.len() - i,
    {
        let ghost before = out.deep_view();
        let copy: Export = exports[i].duplicate();
        out.push(copy);
        proof {
            assert(out.deep_view() =~= before.push(exports[i as int]@));
            assert(exports.deep_view().take(i + 1) =~= exports.deep_view().take(i as int).push(
                exports[i as int]@,
            ));
            assert(out.deep_view() =~= old(out).deep_view() + exports.deep_view().take(i + 1));
        }
        i += 1;
    }
    proof {
        assert(exports.deep_view().take(exports.len() as int) =~= exports.deep_view());
    }
}

} // verus!

verus! {

impl DeepView for IssueSeverity {
    type V = IssueSeverity;

    open spec fn deep_view(&self) -> IssueSeverity {
        *self
    }
}

} // verus!
