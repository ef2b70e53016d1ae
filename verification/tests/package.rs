use docgen::package::{
    any_set, collect_exports, contains_path, exclusion_answers, extension_of, extract_package,
    insert_file, is_excluded, is_source_path, keep_sources, metadata_from_fields,
    package_from_files, read_metadata, relation_of, source_paths, Relation, SourceFile,
};
use docgen::paths::joined_path;
use docgen::types::{Export, ExportKind, PackageConfig, PackageKind};

fn chars(s: &str) -> Vec<char> {
    s.chars().collect()
}

fn file(path: &str, content: &str) -> SourceFile {
    SourceFile { path: path.to_string(), content: content.to_string() }
}

fn config() -> PackageConfig {
    PackageConfig {
        name: "pkg".to_string(),
        path: "packages/pkg".to_string(),
        kind: PackageKind::Adapter,
        entry_points: vec!["src/index.ts".to_string()],
        exclude: Vec::new(),
    }
}

fn export(name: &str) -> Export {
    Export {
        name: name.to_string(),
        kind: ExportKind::Const,
        description: None,
        source_file: "f.ts".to_string(),
        line: 1,
        signature: None,
        params: Vec::new(),
        returns: None,
        examples: Vec::new(),
        deprecated: None,
    }
}

#[test]
fn package_without_manifest_has_the_default_metadata() {
    let entries = vec![file("packages/pkg/src/index.ts", "export const a = 1;")];
    let docs =
        extract_package("packages/pkg", &config(), &entries, &Vec::new(), None, None, None)
            .unwrap();
    assert_eq!(docs.package.version, "0.0.0");
    assert_eq!(docs.package.name, "unknown");
    assert_eq!(docs.package.description, "");
    assert_eq!(docs.package.path, "packages/pkg");
    assert_eq!(docs.package.kind, PackageKind::Adapter);
    assert!(docs.package.internal_deps.is_empty());
    assert_eq!(docs.package.exports.len(), 1);
    assert_eq!(docs.package.exports[0].name, "a");
    assert_eq!(docs.readme, None);
    assert_eq!(docs.changelog, None);
}

#[test]
fn metadata_is_read_from_the_manifest() {
    let manifest = "{\"name\": \"@scope/pkg\", \"version\": \"2.1.0\", \"description\": \"Does things.\", \"private\": true}";
    assert_eq!(
        read_metadata(Some(manifest)),
        ("@scope/pkg".to_string(), "2.1.0".to_string(), "Does things.".to_string())
    );
    assert_eq!(
        read_metadata(Some("{\"name\": 7, \"version\": \"1.0.0\"}")),
        ("unknown".to_string(), "1.0.0".to_string(), String::new())
    );
    assert_eq!(
        read_metadata(Some("[1, 2]")),
        ("unknown".to_string(), "0.0.0".to_string(), String::new())
    );
}

#[test]
fn malformed_manifest_has_the_default_metadata() {
    assert_eq!(
        read_metadata(Some("{ not json")),
        ("unknown".to_string(), "0.0.0".to_string(), String::new())
    );
    assert_eq!(read_metadata(None), ("unknown".to_string(), "0.0.0".to_string(), String::new()));
    assert_eq!(
        metadata_from_fields(Some("n".to_string()), None, Some("d".to_string())),
        ("n".to_string(), "0.0.0".to_string(), "d".to_string())
    );
}

#[test]
fn files_are_kept_in_the_order_of_their_paths() {
    let entries = vec![
        file("p/src/z.ts", "export const z = 1;"),
        file("p/src/index.ts", "export const i = 1;\nexport function f() {"),
    ];
    let tree = vec![
        file("p/src/m.ts", "export const m = 1;"),
        file("p/src/a.tsx", "export class A {"),
        file("p/src/index.ts", "export const other = 1;"),
        file("p/src/empty.ts", "const nothing = 1;"),
        file("p/src/notes.md", "export const md = 1;"),
        file("p/src/types.d.ts", "export type T = number;"),
    ];
    let docs = extract_package(
        "p",
        &config(),
        &entries,
        &tree,
        Some("{\"name\":\"p\"}"),
        Some("readme".to_string()),
        Some("changes".to_string()),
    )
    .unwrap();
    let paths: Vec<&str> = docs.files.iter().map(|f| f.0.as_str()).collect();
    assert_eq!(
        paths,
        vec!["p/src/a.tsx", "p/src/index.ts", "p/src/m.ts", "p/src/types.d.ts", "p/src/z.ts"]
    );
    let names: Vec<&str> = docs.package.exports.iter().map(|e| e.name.as_str()).collect();
    assert_eq!(names, vec!["A", "f", "i", "m", "T", "z"]);
    assert_eq!(docs.files[1].1.len(), 2);
    assert_eq!(docs.package.name, "p");
    assert_eq!(docs.readme.as_deref(), Some("readme"));
    assert_eq!(docs.changelog.as_deref(), Some("changes"));
}

#[test]
fn entry_point_without_exports_keeps_its_entry() {
    let entries = vec![file("p/src/index.ts", "// nothing here")];
    let tree = vec![file("p/src/index.ts", "export const late = 1;")];
    let docs = extract_package("p", &config(), &entries, &tree, None, None, None).unwrap();
    assert_eq!(docs.files.len(), 1);
    assert_eq!(docs.files[0].0, "p/src/index.ts");
    assert!(docs.files[0].1.is_empty());
    assert!(docs.package.exports.is_empty());
}

#[test]
fn entry_point_given_twice_keeps_its_last_scan() {
    let entries =
        vec![file("p/a.ts", "export const one = 1;"), file("p/a.ts", "export const two = 2;")];
    let docs = extract_package("p", &config(), &entries, &Vec::new(), None, None, None).unwrap();
    assert_eq!(docs.files.len(), 1);
    assert_eq!(docs.package.exports.len(), 1);
    assert_eq!(docs.package.exports[0].name, "two");
}

#[test]
fn package_without_files_is_empty() {
    let docs =
        extract_package("p", &config(), &Vec::new(), &Vec::new(), None, None, None).unwrap();
    assert!(docs.files.is_empty());
    assert!(docs.package.exports.is_empty());
}

#[test]
fn source_files_are_told_by_their_extension() {
    assert!(is_source_path("src/a.ts"));
    assert!(is_source_path("a.tsx"));
    assert!(is_source_path("dir.d/x.test.ts"));
    assert!(!is_source_path("a.js"));
    assert!(is_source_path("a.ts/"));
    assert!(!is_source_path("ts"));
    assert!(!is_source_path(".ts"));
    assert!(!is_source_path("a.ts.bak"));
    assert!(!is_source_path("a.TS"));
    assert!(!is_source_path(""));
    assert_eq!(extension_of("a/b.tar.gz"), Some(chars("gz")));
    assert_eq!(extension_of("a/b."), Some(chars("")));
    assert_eq!(extension_of("a/.hidden"), None);
    assert_eq!(extension_of("a.b/c"), None);
}

#[test]
fn exclusion_patterns_are_globs() {
    let patterns = vec!["**/*.test.ts".to_string(), "**/tests/**".to_string()];
    assert!(is_excluded("src/a.test.ts", &patterns));
    assert!(is_excluded("pkg/tests/helper.ts", &patterns));
    assert!(!is_excluded("src/a.ts", &patterns));
    assert!(!is_excluded("src/a.test.ts", &Vec::new()));
    // a pattern that is no glob matches nothing
    assert!(!is_excluded("a**b", &vec!["a**b".to_string()]));
    assert!(is_excluded("abc", &vec!["[".to_string(), "a?c".to_string()]));
}

fn texts(items: &[&str]) -> Vec<String> {
    items.iter().map(|s| s.to_string()).collect()
}

#[test]
fn walked_paths_to_read_are_the_source_files_not_excluded() {
    let walked = texts(&[
        "p/src",
        "p/src/z.ts",
        "p/src/a.test.ts",
        "p/src/notes.md",
        "p/src/tests/helper.ts",
        "p/src/view.tsx",
        "p/src/a.ts",
    ]);
    let patterns = texts(&["**/*.test.ts", "**/tests/**"]);
    assert_eq!(
        source_paths(&walked, &patterns),
        texts(&["p/src/z.ts", "p/src/view.tsx", "p/src/a.ts"])
    );
    assert_eq!(
        exclusion_answers(&walked, &patterns),
        vec![false, false, true, false, true, false, false]
    );
    // a pattern that matches a file that is no source file excludes nothing
    assert_eq!(exclusion_answers(&walked, &texts(&["**/*.md"])), vec![false; 7]);
    assert!(source_paths(&Vec::new(), &patterns).is_empty());
}

#[test]
fn without_patterns_every_source_path_is_read() {
    let walked = texts(&["p/src/a.test.ts", "p/src/b.js", "p/src/tests/c.tsx", "p/src/d.ts"]);
    assert_eq!(
        source_paths(&walked, &Vec::new()),
        texts(&["p/src/a.test.ts", "p/src/tests/c.tsx", "p/src/d.ts"])
    );
    assert_eq!(exclusion_answers(&walked, &Vec::new()), vec![false; 4]);
}

#[test]
fn sources_are_kept_by_the_answers() {
    let walked = texts(&["a.ts", "b.ts", "c.md", "d.tsx"]);
    assert_eq!(keep_sources(&walked, &vec![false, true, false, false]), texts(&["a.ts", "d.tsx"]));
    assert_eq!(keep_sources(&walked, &vec![true, true, true, true]), Vec::<String>::new());
    // a path without an answer is kept
    assert_eq!(keep_sources(&walked, &vec![true]), texts(&["b.ts", "d.tsx"]));
    assert_eq!(keep_sources(&walked, &Vec::new()), texts(&["a.ts", "b.ts", "d.tsx"]));
}

#[test]
fn excluded_files_of_the_tree_are_left_out() {
    let mut cfg = config();
    cfg.exclude = texts(&["**/*.test.ts", "**/node_modules/**"]);
    let entries = vec![file("p/src/index.ts", "export const i = 1;")];
    let tree = vec![
        file("p/src/a.ts", "export const a = 1;"),
        file("p/src/a.test.ts", "export const hidden = 1;"),
        file("p/src/node_modules/x/y.ts", "export const vendored = 1;"),
        file("p/src/b.ts", "export const b = 1;"),
    ];
    let docs = extract_package("p", &cfg, &entries, &tree, None, None, None).unwrap();
    let paths: Vec<&str> = docs.files.iter().map(|f| f.0.as_str()).collect();
    assert_eq!(paths, vec!["p/src/a.ts", "p/src/b.ts", "p/src/index.ts"]);
    let names: Vec<&str> = docs.package.exports.iter().map(|e| e.name.as_str()).collect();
    assert_eq!(names, vec!["a", "b", "i"]);

    // without patterns the same files are all scanned
    let all = extract_package("p", &config(), &entries, &tree, None, None, None).unwrap();
    assert_eq!(all.files.len(), 5);
}

#[test]
fn excluded_entry_point_is_still_scanned() {
    let mut cfg = config();
    cfg.exclude = texts(&["**/index.ts"]);
    let entries = vec![file("p/src/index.ts", "export const i = 1;")];
    let tree = vec![file("p/src/index.ts", "export const i = 1;")];
    let docs = extract_package("p", &cfg, &entries, &tree, None, None, None).unwrap();
    assert_eq!(docs.files.len(), 1);
    assert_eq!(docs.package.exports.len(), 1);
}

#[test]
fn package_is_built_from_the_files_that_the_answers_keep() {
    let entries = vec![file("p/src/index.ts", "// nothing")];
    let tree = vec![
        file("p/src/a.ts", "export const a = 1;"),
        file("p/src/b.ts", "export const b = 1;"),
        file("p/src/c.ts", "export const c = 1;"),
    ];
    let docs = package_from_files(
        "p",
        &config(),
        &entries,
        &tree,
        &vec![false, true],
        None,
        None,
        None,
    )
    .unwrap();
    let paths: Vec<&str> = docs.files.iter().map(|f| f.0.as_str()).collect();
    assert_eq!(paths, vec!["p/src/a.ts", "p/src/c.ts", "p/src/index.ts"]);
    let names: Vec<&str> = docs.package.exports.iter().map(|e| e.name.as_str()).collect();
    assert_eq!(names, vec!["a", "c"]);
}

#[test]
fn entry_point_written_with_a_dot_is_the_walked_file() {
    let entry_path = joined_path("p", "./src/index.ts");
    assert_eq!(entry_path, "p/src/index.ts");
    let entries = vec![file(&entry_path, "export const i = 1;")];
    let tree = vec![file("p/src/index.ts", "export const i = 1;")];
    let docs = extract_package("p", &config(), &entries, &tree, None, None, None).unwrap();
    assert_eq!(docs.files.len(), 1);
    assert_eq!(docs.package.exports.len(), 1);
}

#[test]
fn every_entry_point_has_an_entry() {
    let entries = vec![
        file("p/src/index.ts", "// nothing"),
        file("p/src/extra.ts", "export const e = 1;"),
        file("p/README.md", "not a source file"),
    ];
    let tree = vec![file("p/src/other.ts", "export const o = 1;")];
    let docs = extract_package("p", &config(), &entries, &tree, None, None, None).unwrap();
    for f in &entries {
        assert!(contains_path(&docs.files, &f.path));
    }
    assert_eq!(docs.files.len(), 4);
}

#[test]
fn any_set_finds_a_set_flag() {
    assert!(!any_set(&Vec::new()));
    assert!(!any_set(&vec![false, false]));
    assert!(any_set(&vec![false, true, false]));
}

#[test]
fn paths_are_ordered_by_their_characters() {
    assert_eq!(relation_of(&chars("a"), &chars("b")), Relation::Before);
    assert_eq!(relation_of(&chars("b"), &chars("a")), Relation::After);
    assert_eq!(relation_of(&chars("ab"), &chars("ab")), Relation::Same);
    assert_eq!(relation_of(&chars("a"), &chars("ab")), Relation::Before);
    assert_eq!(relation_of(&chars("ab"), &chars("a")), Relation::After);
    assert_eq!(relation_of(&chars(""), &chars("")), Relation::Same);
    assert_eq!(relation_of(&chars(""), &chars("a")), Relation::Before);
    assert_eq!(relation_of(&chars("Z"), &chars("a")), Relation::Before);
    assert_eq!(relation_of(&chars("a\u{e9}"), &chars("az")), Relation::After);
}

#[test]
fn insert_places_and_replaces_entries() {
    let mut files: Vec<(String, Vec<Export>)> = Vec::new();
    insert_file(&mut files, "m".to_string(), vec![export("m1")]);
    insert_file(&mut files, "z".to_string(), vec![export("z1")]);
    insert_file(&mut files, "a".to_string(), vec![export("a1"), export("a2")]);
    insert_file(&mut files, "n".to_string(), Vec::new());
    insert_file(&mut files, "m".to_string(), vec![export("m2")]);
    let paths: Vec<&str> = files.iter().map(|f| f.0.as_str()).collect();
    assert_eq!(paths, vec!["a", "m", "n", "z"]);
    assert_eq!(files[1].1.len(), 1);
    assert_eq!(files[1].1[0].name, "m2");
    assert!(contains_path(&files, "n"));
    assert!(!contains_path(&files, "b"));
    assert!(!contains_path(&Vec::new(), "a"));
    let names: Vec<String> = collect_exports(&files).into_iter().map(|e| e.name).collect();
    assert_eq!(names, vec!["a1", "a2", "m2", "z1"]);
}
