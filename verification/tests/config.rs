use docgen::config::{
    api_index_path, default_config, default_exclude_patterns, entry_points_from, infer_kind,
    package_config_from, package_root, pages_dir_of, parse_package_json, select_packages,
    ManifestError,
};
use docgen::paths::{is_absolute_path, joined_path, plain_path_of};
use docgen::types::{PackageConfig, PackageKind};

fn chars(s: &str) -> Vec<char> {
    s.chars().collect()
}

fn package(name: &str, path: &str) -> PackageConfig {
    PackageConfig {
        name: name.to_string(),
        path: path.to_string(),
        kind: PackageKind::Core,
        entry_points: Vec::new(),
        exclude: Vec::new(),
    }
}

#[test]
fn kind_is_told_from_the_name() {
    assert_eq!(infer_kind("@acedergren/fastify-apple-auth"), PackageKind::Core);
    assert_eq!(infer_kind("auth-adapter-drizzle"), PackageKind::Adapter);
    assert_eq!(infer_kind("oracle"), PackageKind::Adapter);
    assert_eq!(infer_kind("x-mongodb-y"), PackageKind::Adapter);
    assert_eq!(infer_kind("sveltekit-apple"), PackageKind::Frontend);
    assert_eq!(infer_kind("my-frontend"), PackageKind::Frontend);
    assert_eq!(infer_kind("swift-sdk"), PackageKind::Mobile);
    assert_eq!(infer_kind("ios"), PackageKind::Mobile);
    assert_eq!(infer_kind("apple-auth-kit"), PackageKind::Mobile);
    // the first group that holds decides
    assert_eq!(infer_kind("sveltekit-adapter"), PackageKind::Adapter);
    assert_eq!(infer_kind("sveltekit"), PackageKind::Frontend);
    assert_eq!(infer_kind(""), PackageKind::Core);
}

#[test]
fn entry_points_start_with_the_index_file() {
    assert_eq!(entry_points_from(&Vec::new()), vec!["src/index.ts"]);
    let imports = vec![
        Some("./dist/index.js".to_string()),
        None,
        Some("src/index.ts".to_string()),
        Some("./dist/index.js".to_string()),
        Some("dist/index.js".to_string()),
        Some("./a/./b.js".to_string()),
    ];
    assert_eq!(
        entry_points_from(&imports),
        vec!["src/index.ts", "dist/index.js", "dist/index.js", "a/b.js"]
    );
}

#[test]
fn manifest_gives_the_package_configuration() {
    let manifest = "{\"name\": \"@acedergren/drizzle-adapter\", \"exports\": {\".\": {\"import\": \"./dist/index.js\", \"types\": \"./dist/index.d.ts\"}, \"./extra\": {\"import\": \"./dist/extra.js\"}, \"./raw\": \"./raw.js\"}}";
    let c = parse_package_json("packages/drizzle", manifest).unwrap().unwrap();
    assert_eq!(c.name, "@acedergren/drizzle-adapter");
    assert_eq!(c.path, "packages/drizzle");
    assert_eq!(c.kind, PackageKind::Adapter);
    assert_eq!(c.entry_points, vec!["src/index.ts", "dist/index.js", "dist/extra.js"]);
    assert_eq!(c.exclude, vec!["**/*.test.ts", "**/*.spec.ts", "**/test/**", "**/tests/**"]);
    assert_eq!(c.exclude, default_exclude_patterns());
}

#[test]
fn manifest_without_a_name_gives_no_package() {
    assert!(parse_package_json("p", "{\"version\": \"1\"}").unwrap().is_none());
    assert!(parse_package_json("p", "{\"name\": \"\"}").unwrap().is_none());
    assert!(parse_package_json("p", "[]").unwrap().is_none());
    let plain = parse_package_json("p", "{\"name\": \"core\"}").unwrap().unwrap();
    assert_eq!(plain.entry_points, vec!["src/index.ts"]);
    assert_eq!(plain.kind, PackageKind::Core);
}

#[test]
fn manifest_that_is_not_json_is_refused() {
    assert_eq!(parse_package_json("p", "{ name: ").err(), Some(ManifestError::NotJson));
    assert_eq!(parse_package_json("p", "").err(), Some(ManifestError::NotJson));
}

#[test]
fn configuration_is_built_from_name_and_imports() {
    assert!(package_config_from("p", None, &Vec::new()).is_none());
    assert!(package_config_from("p", Some(String::new()), &Vec::new()).is_none());
    let c = package_config_from("p", Some("ios-kit".to_string()), &vec![Some("./m.js".to_string())])
        .unwrap();
    assert_eq!(c.kind, PackageKind::Mobile);
    assert_eq!(c.entry_points, vec!["src/index.ts", "m.js"]);
}

#[test]
fn packages_are_chosen_by_the_filter() {
    let packages = vec![package("core-auth", "a"), package("adapter", "b"), package("auth-ui", "c")];
    assert_eq!(select_packages(&packages, None), vec![0, 1, 2]);
    assert_eq!(select_packages(&packages, Some("auth")), vec![0, 2]);
    assert_eq!(select_packages(&packages, Some("")), vec![0, 1, 2]);
    assert!(select_packages(&packages, Some("none")).is_empty());
    assert!(select_packages(&Vec::new(), None).is_empty());
}

#[test]
fn default_configuration_writes_under_docs() {
    let c = default_config("repo", vec![package("a", "packages/a")]);
    assert_eq!(c.packages.len(), 1);
    assert_eq!(c.output.dir, "repo/docs");
    assert!(c.output.api_reference);
    assert!(c.output.changelog);
    assert!(c.output.package_readme);
    assert_eq!(c.templates, None);
}

#[test]
fn paths_are_joined_with_one_separator() {
    assert_eq!(joined_path("a", "b"), "a/b");
    assert_eq!(joined_path("a/", "b"), "a/b");
    assert_eq!(joined_path("", "b"), "b");
    assert_eq!(joined_path("a", ""), "a/");
    assert_eq!(joined_path("a", "/b"), "/b");
    assert_eq!(joined_path(".", "docs"), "./docs");
    assert!(is_absolute_path("/x"));
    assert!(!is_absolute_path("x/"));
    assert!(!is_absolute_path(""));
}

#[test]
fn dot_components_are_dropped_when_joining() {
    assert_eq!(joined_path("p", "./src/index.ts"), "p/src/index.ts");
    assert_eq!(joined_path("p", "src/./index.ts"), "p/src/index.ts");
    assert_eq!(joined_path("p", "src//index.ts"), "p/src/index.ts");
    assert_eq!(joined_path("p", "././src/"), "p/src");
    assert_eq!(joined_path("p", "."), "p/");
    assert_eq!(joined_path("p", "../q/./r.md"), "p/../q/r.md");
    assert_eq!(joined_path("p", ".hidden/.x"), "p/.hidden/.x");
    assert_eq!(joined_path("./p", "a"), "./p/a");
    assert_eq!(joined_path("p", "/./a"), "/./a");
    assert_eq!(plain_path_of(&chars("a/./b//c/.")), chars("a/b/c"));
    assert_eq!(plain_path_of(&chars("")), chars(""));
}

#[test]
fn package_directories_are_taken_from_the_root() {
    assert_eq!(package_root("repo", &package("a", "packages/a")), "repo/packages/a");
    assert_eq!(package_root("repo", &package("a", "/abs/a")), "/abs/a");
    assert_eq!(pages_dir_of("docs", "@acedergren/fastify-apple-auth"), "docs/api/fastify_apple_auth");
    assert_eq!(pages_dir_of("out/", "x"), "out/api/x");
    assert_eq!(api_index_path("docs"), "docs/api/index.md");
}
