use docgen::jsdoc::{
    chars_before, empty_jsdoc, extract_jsdoc, parse_comment_body, parse_doc_comment, same_chars,
    without_type,
};

fn chars(s: &str) -> Vec<char> {
    s.chars().collect()
}

fn pairs(doc: &docgen::jsdoc::JsDoc) -> Vec<(&str, &str)> {
    doc.params.iter().map(|(k, v)| (k.as_str(), v.as_str())).collect()
}

#[test]
fn no_comment_gives_the_empty_result() {
    let doc = extract_jsdoc("export const a = 1;", 0);
    assert_eq!(doc.description, None);
    assert!(doc.params.is_empty());
    assert_eq!(doc.returns, None);
    assert!(doc.examples.is_empty());
    assert_eq!(doc.deprecated, None);
    let none = empty_jsdoc();
    assert_eq!(none.description, None);
    assert!(none.params.is_empty());
}

#[test]
fn unterminated_comment_gives_the_empty_result() {
    let text = "/** never closed\nexport const a = 1;";
    let doc = extract_jsdoc(text, 17);
    assert_eq!(doc.description, None);
    let only_close = " closed */ export";
    assert_eq!(extract_jsdoc(only_close, 11).description, None);
    // the opening must stand in front of the closing
    assert_eq!(extract_jsdoc("*/ /** export", 7).description, None);
}

#[test]
fn comment_need_not_be_adjacent() {
    let text = "/** Far away. */\nconst x = 1;\nlet y = 2;\nexport const a = 1;";
    let at = text.find("export").unwrap();
    assert_eq!(extract_jsdoc(text, at).description.as_deref(), Some("Far away."));
}

#[test]
fn only_the_text_in_front_of_the_offset_counts() {
    let text = "/** One. */ export const a = 1; /** Two. */ export const b = 2;";
    let first = text.find("export").unwrap();
    let second = text.rfind("export").unwrap();
    assert_eq!(extract_jsdoc(text, first).description.as_deref(), Some("One."));
    assert_eq!(extract_jsdoc(text, second).description.as_deref(), Some("Two."));
    assert_eq!(extract_jsdoc(text, 3).description, None);
}

#[test]
fn offset_inside_a_character_gives_the_empty_result() {
    let text = "/** Doc. */\u{e9}export";
    assert_eq!(extract_jsdoc(text, 12).description, None);
    assert_eq!(extract_jsdoc(text, 13).description.as_deref(), Some("Doc."));
    assert_eq!(extract_jsdoc(text, 500).description, None);
    assert_eq!(chars_before(text, 12), None);
    assert_eq!(chars_before("a\u{e9}b", 3), Some(vec!['a', '\u{e9}']));
    assert_eq!(chars_before("ab", 2), Some(vec!['a', 'b']));
}

#[test]
fn description_lines_are_joined_with_spaces() {
    let doc = parse_comment_body(&chars("\n * First line\n *   second line  \n *\n * third\n "));
    assert_eq!(doc.description.as_deref(), Some("First line second line third"));
}

#[test]
fn param_lines_give_name_and_description() {
    let doc = parse_comment_body(&chars(
        "\n * @param a first number\n * @param {string} b the name\n * @param lonely\n * @param  c  spaced out\n",
    ));
    assert_eq!(
        pairs(&doc),
        vec![("a", "first number"), ("b", "the name"), ("c", " spaced out")]
    );
    assert_eq!(doc.description, None);
    assert_eq!(doc.description_of(&chars("a")).as_deref(), Some("first number"));
    assert_eq!(doc.description_of(&chars("lonely")), None);
    assert_eq!(doc.description_of(&chars("")), None);
}

#[test]
fn type_in_braces_is_passed_over() {
    let content = "/**\n * @param {string} name the name\n */\n";
    let doc = extract_jsdoc(content, content.len());
    assert_eq!(pairs(&doc), vec![("name", "the name")]);
    assert_eq!(doc.description_of(&chars("name")).as_deref(), Some("the name"));
    assert_eq!(doc.description_of(&chars("string")), None);

    let doc = parse_comment_body(&chars(
        "@param {Map<string, number>}   table  the table\n@param {T}x glued\n@param {T} alone\n@param {} y empty type",
    ));
    assert_eq!(pairs(&doc), vec![("table", " the table"), ("x", "glued"), ("y", "empty type")]);
}

#[test]
fn parameter_type_is_skipped_through_the_first_closing_brace() {
    assert_eq!(without_type(&chars("{string} name the name")), &chars("name the name")[..]);
    assert_eq!(without_type(&chars("{T}\t x")), &chars("x")[..]);
    assert_eq!(without_type(&chars("{T}")), &chars("")[..]);
    assert_eq!(without_type(&chars("name {T} d")), &chars("name {T} d")[..]);
    assert_eq!(without_type(&chars("{open name d")), &chars("{open name d")[..]);
    assert_eq!(without_type(&chars("{{a: T}} x d")), &chars("} x d")[..]);
    assert_eq!(without_type(&chars("")), &chars("")[..]);
}

#[test]
fn braces_around_a_name_without_a_type_are_dropped() {
    let doc = parse_comment_body(&chars("@param {open the rest\n@param name} closes"));
    assert_eq!(pairs(&doc), vec![("open", "the rest"), ("name", "closes")]);
}

#[test]
fn later_param_of_one_name_wins() {
    let doc = parse_comment_body(&chars("@param a one\n@param b two\n@param a three"));
    assert_eq!(doc.description_of(&chars("a")).as_deref(), Some("three"));
    assert_eq!(doc.description_of(&chars("b")).as_deref(), Some("two"));
}

#[test]
fn return_tag_sets_the_return_description() {
    let doc = parse_comment_body(&chars(" * @returns the sum\n"));
    assert_eq!(doc.returns.as_deref(), Some("the sum"));
    let short = parse_comment_body(&chars(" * @return the sum\n"));
    assert_eq!(short.returns.as_deref(), Some("the sum"));
    let last = parse_comment_body(&chars("@returns one\n@returns two"));
    assert_eq!(last.returns.as_deref(), Some("two"));
    let bare = parse_comment_body(&chars("@return"));
    assert_eq!(bare.returns.as_deref(), Some(""));
}

#[test]
fn deprecated_tag_sets_the_notice() {
    let doc = parse_comment_body(&chars(" * Old.\n * @deprecated  use `next`  \n"));
    assert_eq!(doc.deprecated.as_deref(), Some("use `next`"));
    assert_eq!(doc.description.as_deref(), Some("Old."));
    let bare = parse_comment_body(&chars("@deprecated"));
    assert_eq!(bare.deprecated.as_deref(), Some(""));
}

#[test]
fn open_example_is_closed_at_the_end_of_the_comment() {
    let doc = parse_comment_body(&chars(
        "\n * Runs.\n * @example\n * const x = run();\n *\n * use(x);\n ",
    ));
    assert_eq!(doc.examples, vec!["const x = run();\n\nuse(x);".to_string()]);
    assert_eq!(doc.description.as_deref(), Some("Runs."));
}

#[test]
fn each_example_tag_gives_its_own_entry() {
    let doc = parse_comment_body(&chars(
        "@example\nfirst();\n@example\nsecond();\n@returns done\nnot code",
    ));
    assert_eq!(doc.examples, vec!["first();".to_string(), "second();".to_string()]);
    assert_eq!(doc.returns.as_deref(), Some("done"));
    assert_eq!(doc.description.as_deref(), Some("not code"));
}

#[test]
fn unknown_tag_closes_an_example_and_adds_nothing() {
    let doc = parse_comment_body(&chars("Text.\n@example\ncode();\n@since 1.0\nafter"));
    assert_eq!(doc.examples, vec!["code();".to_string()]);
    assert_eq!(doc.description.as_deref(), Some("Text. after"));
    assert_eq!(doc.returns, None);
    assert!(doc.params.is_empty());
}

#[test]
fn example_without_lines_gives_no_entry() {
    let doc = parse_comment_body(&chars("@example"));
    assert!(doc.examples.is_empty());
    let closed = parse_comment_body(&chars("@example\n@since 2"));
    assert!(closed.examples.is_empty());
    let blank = parse_comment_body(&chars("@example\n\n"));
    assert_eq!(blank.examples, vec![String::new()]);
}

#[test]
fn parsing_the_same_text_twice_gives_the_same_result() {
    let text = "/**\n * Twice.\n * @param x the x\n * @returns it\n * @example\n * f(1)\n * @deprecated no\n */\nexport";
    let at = text.find("export").unwrap();
    let a = extract_jsdoc(text, at);
    let b = extract_jsdoc(text, at);
    assert_eq!(a.description, b.description);
    assert_eq!(a.params, b.params);
    assert_eq!(a.returns, b.returns);
    assert_eq!(a.examples, b.examples);
    assert_eq!(a.deprecated, b.deprecated);
    assert_eq!(a.description.as_deref(), Some("Twice."));
    assert_eq!(a.examples, vec!["f(1)".to_string()]);
}

#[test]
fn nearest_comment_is_the_last_one() {
    let before = chars("/** a */ x /** b */ y");
    assert_eq!(parse_doc_comment(&before).description.as_deref(), Some("b"));
    assert_eq!(parse_doc_comment(&chars("/***/")).description, None);
    assert_eq!(parse_doc_comment(&chars("/**/")).description, None);
    assert_eq!(parse_doc_comment(&chars("")).description, None);
}

#[test]
fn same_chars_compares_texts() {
    assert!(same_chars(&chars("abc"), &chars("abc")));
    assert!(!same_chars(&chars("abc"), &chars("abd")));
    assert!(!same_chars(&chars("abc"), &chars("ab")));
    assert!(same_chars(&chars(""), &chars("")));
}
