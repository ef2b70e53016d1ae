use docgen::scanner::{
    count_lines, export_from_match, exports_from_matches, extract_file, pattern_text,
    CaptureGroup, DeclKind, RawMatch,
};
use docgen::types::ExportKind;

fn group(start: usize, text: &str) -> Option<CaptureGroup> {
    Some(CaptureGroup { start, text: text.to_string() })
}

#[test]
fn round_trip_documented_function() {
    let source = "/** Adds two numbers.\n * @param a first number\n * @param b second number\n * @returns the sum\n */\nexport function add(a: number, b: number): number {";
    let exports = extract_file("src/math.ts", source).unwrap();
    assert_eq!(exports.len(), 1);
    let e = &exports[0];
    assert_eq!(e.kind, ExportKind::Function);
    assert_eq!(e.name, "add");
    assert_eq!(e.params.len(), 2);
    assert_eq!(e.params[0].name, "a");
    assert_eq!(e.params[0].type_annotation, "number");
    assert!(!e.params[0].optional);
    assert_eq!(e.params[0].description.as_deref(), Some("first number"));
    assert_eq!(e.params[0].default, None);
    assert_eq!(e.params[1].name, "b");
    assert_eq!(e.params[1].type_annotation, "number");
    assert!(!e.params[1].optional);
    assert_eq!(e.params[1].description.as_deref(), Some("second number"));
    assert_eq!(e.returns.as_deref(), Some("number"));
    assert_eq!(e.description.as_deref(), Some("Adds two numbers."));
    assert_eq!(e.signature.as_deref(), Some("function add(a: number, b: number)"));
    assert_eq!(e.line, 6);
    assert_eq!(e.source_file, "src/math.ts");
    assert!(e.examples.is_empty());
    assert_eq!(e.deprecated, None);
}

#[test]
fn text_without_declarations_has_no_exports() {
    let text = "const x = 1;\nfunction f() {}\n// export nothing\n  export const indented = 2;\n";
    assert!(extract_file("a.ts", text).unwrap().is_empty());
    assert!(extract_file("a.ts", "").unwrap().is_empty());
}

#[test]
fn minimal_interface() {
    let exports = extract_file("a.ts", "export interface Shape { area: number }").unwrap();
    assert_eq!(exports.len(), 1);
    assert_eq!(exports[0].kind, ExportKind::Interface);
    assert_eq!(exports[0].name, "Shape");
    assert_eq!(exports[0].signature.as_deref(), Some("interface Shape"));
    assert_eq!(exports[0].line, 1);
    assert!(exports[0].params.is_empty());
    assert_eq!(exports[0].returns, None);
}

#[test]
fn minimal_type_alias() {
    let exports = extract_file("a.ts", "export type Id =  string | number ;").unwrap();
    assert_eq!(exports.len(), 1);
    assert_eq!(exports[0].kind, ExportKind::Type);
    assert_eq!(exports[0].name, "Id");
    assert_eq!(exports[0].signature.as_deref(), Some("type Id = string | number"));
}

#[test]
fn minimal_function() {
    let exports = extract_file("a.ts", "export function run() {").unwrap();
    assert_eq!(exports.len(), 1);
    assert_eq!(exports[0].kind, ExportKind::Function);
    assert_eq!(exports[0].name, "run");
    assert_eq!(exports[0].signature.as_deref(), Some("function run()"));
    assert!(exports[0].params.is_empty());
    assert_eq!(exports[0].returns, None);
}

#[test]
fn minimal_const() {
    let exports = extract_file("a.ts", "export const LIMIT = 10;").unwrap();
    assert_eq!(exports.len(), 1);
    assert_eq!(exports[0].kind, ExportKind::Const);
    assert_eq!(exports[0].name, "LIMIT");
    assert_eq!(exports[0].signature, None);
}

#[test]
fn const_with_type_annotation() {
    let exports = extract_file("a.ts", "export const LIMIT : number  = 10;").unwrap();
    assert_eq!(exports.len(), 1);
    assert_eq!(exports[0].signature.as_deref(), Some("const LIMIT: number"));
}

#[test]
fn minimal_class() {
    let exports =
        extract_file("a.ts", "export class Store extends Base implements Disposable {").unwrap();
    assert_eq!(exports.len(), 1);
    assert_eq!(exports[0].kind, ExportKind::Class);
    assert_eq!(exports[0].name, "Store");
    assert_eq!(exports[0].signature.as_deref(), Some("class Store"));
}

#[test]
fn minimal_enum() {
    let exports = extract_file("a.ts", "export enum Color { Red }").unwrap();
    assert_eq!(exports.len(), 1);
    assert_eq!(exports[0].kind, ExportKind::Enum);
    assert_eq!(exports[0].name, "Color");
    assert_eq!(exports[0].signature.as_deref(), Some("enum Color"));
}

#[test]
fn const_enum_is_an_enum_only() {
    let exports = extract_file("a.ts", "export const enum Mode { On }").unwrap();
    assert_eq!(exports.len(), 1);
    assert_eq!(exports[0].kind, ExportKind::Enum);
    assert_eq!(exports[0].name, "Mode");
}

#[test]
fn async_function_is_a_function() {
    let exports =
        extract_file("a.ts", "export async function load(id?: string): Promise<void> {").unwrap();
    assert_eq!(exports.len(), 1);
    assert_eq!(exports[0].kind, ExportKind::Function);
    assert_eq!(exports[0].name, "load");
    assert_eq!(exports[0].signature.as_deref(), Some("function load(id?: string)"));
    assert_eq!(exports[0].params.len(), 1);
    assert_eq!(exports[0].params[0].name, "id");
    assert!(exports[0].params[0].optional);
    assert_eq!(exports[0].returns.as_deref(), Some("Promise<void>"));
}

#[test]
fn interface_and_type_of_one_name_are_two_records() {
    let text = "export interface User { id: string }\nexport type User = { id: string };\n";
    let exports = extract_file("a.ts", text).unwrap();
    assert_eq!(exports.len(), 2);
    assert_eq!(exports[0].kind, ExportKind::Interface);
    assert_eq!(exports[0].name, "User");
    assert_eq!(exports[0].line, 1);
    assert_eq!(exports[1].kind, ExportKind::Type);
    assert_eq!(exports[1].name, "User");
    assert_eq!(exports[1].line, 2);
}

#[test]
fn passes_run_in_the_order_of_kinds() {
    let text = "export enum E { A }\nexport class C {\n}\nexport const K = 1;\nexport function f() {\n}\nexport type T = number;\nexport interface I { }\nexport function g() {\n}\n";
    let exports = extract_file("a.ts", text).unwrap();
    let names: Vec<&str> = exports.iter().map(|e| e.name.as_str()).collect();
    assert_eq!(names, vec!["I", "T", "f", "g", "K", "C", "E"]);
    let lines: Vec<usize> = exports.iter().map(|e| e.line).collect();
    assert_eq!(lines, vec![8, 7, 5, 9, 4, 2, 1]);
}

#[test]
fn nearest_comment_in_front_is_attached() {
    let text = "/** First. */\nexport const A = 1;\n\n/**\n * Second.\n * @deprecated use A\n */\nexport const B = 2;\n";
    let exports = extract_file("a.ts", text).unwrap();
    assert_eq!(exports.len(), 2);
    assert_eq!(exports[0].name, "A");
    assert_eq!(exports[0].description.as_deref(), Some("First."));
    assert_eq!(exports[0].line, 2);
    assert_eq!(exports[0].deprecated, None);
    assert_eq!(exports[1].name, "B");
    assert_eq!(exports[1].description.as_deref(), Some("Second."));
    assert_eq!(exports[1].deprecated.as_deref(), Some("use A"));
    assert_eq!(exports[1].line, 8);
}

#[test]
fn text_in_front_of_a_declaration_may_hold_any_characters() {
    let text = "// caf\u{e9} \u{1f600}\n/** D\u{e9}j\u{e0}. */\nexport const N = 1;";
    let exports = extract_file("a.ts", text).unwrap();
    assert_eq!(exports.len(), 1);
    assert_eq!(exports[0].description.as_deref(), Some("D\u{e9}j\u{e0}."));
    assert_eq!(exports[0].line, 3);
}

#[test]
fn count_lines_counts_line_feeds() {
    assert_eq!(count_lines(""), 0);
    assert_eq!(count_lines("abc"), 0);
    assert_eq!(count_lines("a\nb\n"), 2);
    assert_eq!(count_lines("\u{e9}\n\r\n"), 2);
}

#[test]
fn record_is_built_from_the_groups_of_a_match() {
    let content = "/** Doc. */\nexport function f(a, b?: T): R {";
    let m = RawMatch {
        groups: vec![
            group(0, content),
            group(12, "export"),
            group(28, "f"),
            group(30, "a, b?: T"),
            group(41, "R "),
        ],
    };
    let e = export_from_match(DeclKind::Function, "p.ts", content, &m).unwrap();
    assert_eq!(e.name, "f");
    assert_eq!(e.kind, ExportKind::Function);
    assert_eq!(e.line, 2);
    assert_eq!(e.description.as_deref(), Some("Doc."));
    assert_eq!(e.signature.as_deref(), Some("function f(a, b?: T)"));
    assert_eq!(e.params.len(), 2);
    assert_eq!(e.params[0].type_annotation, "unknown");
    assert_eq!(e.params[1].name, "b");
    assert!(e.params[1].optional);
    assert_eq!(e.returns.as_deref(), Some("R"));
}

#[test]
fn match_without_keyword_or_name_gives_no_record() {
    let content = "export const x = 1;";
    let no_name = RawMatch { groups: vec![group(0, content), group(0, "export"), None] };
    assert!(export_from_match(DeclKind::Const, "p.ts", content, &no_name).is_none());
    let empty_name =
        RawMatch { groups: vec![group(0, content), group(0, "export"), group(13, "")] };
    assert!(export_from_match(DeclKind::Const, "p.ts", content, &empty_name).is_none());
    let no_keyword = RawMatch { groups: vec![group(0, content), None, group(13, "x")] };
    assert!(export_from_match(DeclKind::Const, "p.ts", content, &no_keyword).is_none());
    let short = RawMatch { groups: vec![group(0, content)] };
    assert!(export_from_match(DeclKind::Const, "p.ts", content, &short).is_none());
}

#[test]
fn match_inside_a_character_gives_no_record() {
    let content = "\u{e9}export const x = 1;";
    let m = RawMatch { groups: vec![group(1, "x"), group(1, "export"), group(15, "x")] };
    assert!(export_from_match(DeclKind::Const, "p.ts", content, &m).is_none());
    let beyond = RawMatch { groups: vec![group(0, "x"), group(99, "export"), group(15, "x")] };
    assert!(export_from_match(DeclKind::Const, "p.ts", content, &beyond).is_none());
}

#[test]
fn records_keep_the_order_of_the_matches() {
    let content = "export class A {\nexport class B {";
    let matches = vec![
        RawMatch { groups: vec![group(17, ""), group(17, "export"), group(30, "B")] },
        RawMatch { groups: vec![group(0, ""), group(0, "export"), None] },
        RawMatch { groups: vec![group(0, ""), group(0, "export"), group(13, "A")] },
    ];
    let exports = exports_from_matches(DeclKind::Class, "p.ts", content, &matches);
    assert_eq!(exports.len(), 2);
    assert_eq!(exports[0].name, "B");
    assert_eq!(exports[0].line, 2);
    assert_eq!(exports[1].name, "A");
    assert_eq!(exports[1].line, 1);
    assert_eq!(exports[1].signature.as_deref(), Some("class A"));
}

#[test]
fn every_kind_has_its_pattern() {
    let kinds = [
        DeclKind::Interface,
        DeclKind::Type,
        DeclKind::Function,
        DeclKind::Const,
        DeclKind::Class,
        DeclKind::Enum,
    ];
    for k in kinds {
        assert!(pattern_text(k).contains("(export)"));
        assert_eq!(DeclKind::to_export_kind(k) == ExportKind::Function, k == DeclKind::Function);
    }
}
