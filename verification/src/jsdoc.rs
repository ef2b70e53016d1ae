//! The doc-comment parser.
//!
//! Given the text in front of a declaration, the parser takes the nearest
//! block comment that opens with `/**` and closes with `*/` before the
//! declaration, and reads description, parameter descriptions, return
//! description, examples and deprecation notice from its lines.

use crate::text::{
    chars_of, find_char, find_last, first_index, has_char, has_prefix, join, joined,
    lemma_find_last, lemma_first_index, lemma_has_char,
    lemma_texts_push, lines, matches_at, push_all, rfind, skip_chars, skipped, split_lines,
    starts_with, string_of, strip_leading, strip_trailing, texts, to_vec, trim, trim_start, trimmed, trimmed_start,
    without_leading, without_trailing,
};
use vstd::prelude::*;
use vstd::slice::slice_subrange;
use vstd::utf8::{decode_utf8, encode_utf8, is_char_boundary};

verus! {

/// What a doc comment says.
#[derive(Debug, Clone)]
pub struct JsDoc {
    /// The description paragraph
    pub description: Option<String>,
    /// Parameter names with their descriptions, in the order of the
    /// comment; of two entries with one name the later one counts
    pub params: Vec<(String, String)>,
    /// The description of the returned value
    pub returns: Option<String>,
    /// Example bodies
    pub examples: Vec<String>,
    /// The deprecation notice
    pub deprecated: Option<String>,
}

#[verifier::ext_equal]
pub struct JsDocView {
    pub description: Option<Seq<char>>,
    pub params: Map<Seq<char>, Seq<char>>,
    pub returns: Option<Seq<char>>,
    pub examples: Seq<Seq<char>>,
    pub deprecated: Option<Seq<char>>,
}

/// The mapping that a list of entries stands for: a later entry replaces
/// an earlier one of the same name.
pub open spec fn entries_map(entries: Seq<(Seq<char>, Seq<char>)>) -> Map<Seq<char>, Seq<char>>
    decreases entries.len(),
{
    if entries.len() == 0 {
        Map::empty()
    } else {
        entries_map(entries.drop_last()).insert(entries.last().0, entries.last().1)
    }
}

/// The value of `m` at `key`, if it has one.
pub open spec fn lookup(m: Map<Seq<char>, Seq<char>>, key: Seq<char>) -> Option<Seq<char>> {
    if m.contains_key(key) {
        Some(m[key])
    } else {
        None
    }
}

impl View for JsDoc {
    type V = JsDocView;

    open spec fn view(&self) -> JsDocView {
        JsDocView {
            description: self.description.deep_view(),
            params: entries_map(self.params.deep_view()),
            returns: self.returns.deep_view(),
            examples: self.examples.deep_view(),
            deprecated: self.deprecated.deep_view(),
        }
    }
}

/// The parser's state between two lines of a comment.
#[verifier::ext_equal]
pub struct DocState {
    /// Description lines read so far
    pub description: Seq<Seq<char>>,
    pub params: Map<Seq<char>, Seq<char>>,
    pub returns: Option<Seq<char>>,
    /// Examples closed so far
    pub examples: Seq<Seq<char>>,
    pub deprecated: Option<Seq<char>>,
    /// Whether an example is open
    pub in_example: bool,
    /// The text of the open example
    pub current: Seq<char>,
}

pub open spec fn initial_state() -> DocState {
    DocState {
        description: Seq::empty(),
        params: Map::empty(),
        returns: None,
        examples: Seq::empty(),
        deprecated: None,
        in_example: false,
        current: Seq::empty(),
    }
}

/// The result for a declaration without a doc comment.
pub open spec fn empty_doc() -> JsDocView {
    JsDocView {
        description: None,
        params: Map::empty(),
        returns: None,
        examples: Seq::empty(),
        deprecated: None,
    }
}

/// A comment line without surrounding white space and without the run of
/// `*` that continues the comment.
pub open spec fn clean_line(raw: Seq<char>) -> Seq<char> {
    trim(strip_leading(trim(raw), '*'))
}

/// Whether a cleaned line begins with the tag marker.
pub open spec fn is_tag_line(line: Seq<char>) -> bool {
    line.len() > 0 && line[0] == '@'
}

/// What follows the type of a parameter: where `rest` begins with `{` and
/// holds a `}`, the text behind the first `}` and the white space after
/// it. A text without such a type is left as it is.
pub open spec fn skip_type(rest: Seq<char>) -> Seq<char> {
    let close = first_index(rest, '}');
    if rest.len() > 0 && rest[0] == '{' && close < rest.len() {
        trim_start(skip_chars(rest, close + 1))
    } else {
        rest
    }
}

/// The parameter name that the word in front of the description gives:
/// braces around it are dropped.
pub open spec fn param_key(word: Seq<char>) -> Seq<char> {
    strip_trailing(strip_leading(word, '{'), '}')
}

/// Ends example capture. An open example with text becomes an entry,
/// trimmed; an open example without text leaves none.
pub open spec fn close_example(st: DocState) -> DocState {
    DocState {
        examples: if st.in_example && st.current.len() > 0 {
            st.examples.push(trim(st.current))
        } else {
            st.examples
        },
        in_example: false,
        current: Seq::empty(),
        ..st
    }
}

/// The effect of a tag line, example capture being closed already. Of a
/// `@param` line the type in braces is passed over; the word behind it is
/// the name, and what follows the first space after the name is the
/// description. A line without that space records nothing.
pub open spec fn apply_tag(st: DocState, line: Seq<char>) -> DocState {
    if starts_with(line, "@param"@) {
        let rest = skip_type(trim(skip_chars(line, "@param"@.len())));
        let i = first_index(rest, ' ');
        if i < rest.len() {
            DocState {
                params: st.params.insert(
                    param_key(rest.subrange(0, i as int)),
                    rest.subrange(i as int + 1, rest.len() as int),
                ),
                ..st
            }
        } else {
            st
        }
    } else if starts_with(line, "@return"@) {
        DocState { returns: Some(trim(skip_chars(line, "@returns"@.len()))), ..st }
    } else if starts_with(line, "@example"@) {
        DocState { in_example: true, ..st }
    } else if starts_with(line, "@deprecated"@) {
        DocState { deprecated: Some(trim(skip_chars(line, "@deprecated"@.len()))), ..st }
    } else {
        st
    }
}

/// The effect of one raw comment line.
pub open spec fn doc_step(st: DocState, raw: Seq<char>) -> DocState {
    let line = clean_line(raw);
    if is_tag_line(line) {
        apply_tag(close_example(st), line)
    } else if st.in_example {
        DocState { current: st.current + line + seq!['\n'], ..st }
    } else if line.len() > 0 {
        DocState { description: st.description.push(line), ..st }
    } else {
        st
    }
}

/// The state after the given lines, read in order from `st`.
pub open spec fn doc_fold(st: DocState, raw_lines: Seq<Seq<char>>) -> DocState
    decreases raw_lines.len(),
{
    if raw_lines.len() == 0 {
        st
    } else {
        doc_step(doc_fold(st, raw_lines.drop_last()), raw_lines.last())
    }
}

/// The result at the end of the comment: an example still open is closed,
/// and the description lines become one paragraph.
pub open spec fn doc_finish(st: DocState) -> JsDocView {
    JsDocView {
        description: if st.description.len() > 0 {
            Some(join(st.description, " "@))
        } else {
            None
        },
        params: st.params,
        returns: st.returns,
        examples: close_example(st).examples,
        deprecated: st.deprecated,
    }
}

/// What the comment with the given body says.
pub open spec fn parse_comment(body: Seq<char>) -> JsDocView {
    doc_finish(doc_fold(initial_state(), lines(body)))
}

/// The body of the nearest doc comment in `before`: the text between the
/// last `/**` that stands before the last `*/`, and that `*/`.
pub open spec fn comment_body(before: Seq<char>) -> Option<Seq<char>> {
    match find_last(before, "*/"@) {
        None => None,
        Some(end) => match find_last(before.subrange(0, end), "/**"@) {
            None => None,
            Some(start) => Some(before.subrange(start + "/**"@.len(), end)),
        },
    }
}

/// What the nearest doc comment in `before` says; nothing where there is
/// no such comment.
pub open spec fn doc_comment_before(before: Seq<char>) -> JsDocView {
    match comment_body(before) {
        Some(body) => parse_comment(body),
        None => empty_doc(),
    }
}

/// The text of `content` in front of the byte offset `offset` of its
/// UTF-8 encoding, where that offset stands between two characters.
pub open spec fn text_before(content: Seq<char>, offset: int) -> Option<Seq<char>> {
    if is_char_boundary(encode_utf8(content), offset) {
        Some(decode_utf8(encode_utf8(content).subrange(0, offset)))
    } else {
        None
    }
}

/// A type in braces in front of a parameter's name is passed over: the
/// text behind it is read as it would be without the type.
pub proof fn lemma_type_is_passed_over(ty: Seq<char>, rest: Seq<char>)
    requires
        !has_char(ty, '}'),
    ensures
        skip_type(seq!['{'] + ty + seq!['}'] + rest) == trim_start(rest),
{
    let s = seq!['{'] + ty + seq!['}'] + rest;
    let close = first_index(s, '}');
    lemma_first_index(s, '}');
    lemma_has_char(ty, '}');
    assert(s[ty.len() as int + 1] == '}');
    assert(close == ty.len() + 1) by {
        if close < ty.len() + 1 {
            if close > 0 {
                assert(s[close as int] == ty[close - 1]);
            }
        }
    }
    assert(skip_chars(s, close + 1) =~= rest);
}

/// The text that example capture gathers from the given lines: each line
/// cleaned, with a line feed behind it.
pub open spec fn captured(code: Seq<Seq<char>>) -> Seq<char>
    decreases code.len(),
{
    if code.len() == 0 {
        Seq::empty()
    } else {
        captured(code.drop_last()) + clean_line(code.last()) + seq!['\n']
    }
}

/// While an example is open, lines that are no tag lines are gathered and
/// change nothing else.
pub proof fn lemma_capture(st: DocState, code: Seq<Seq<char>>)
    requires
        st.in_example,
        forall|i: int| 0 <= i < code.len() ==> !is_tag_line(clean_line(#[trigger] code[i])),
    ensures
        doc_fold(st, code) == (DocState { current: st.current + captured(code), ..st }),
    decreases code.len(),
{
    if code.len() == 0 {
        assert(st.current + captured(code) =~= st.current);
    } else {
        let front = code.drop_last();
        assert forall|i: int| 0 <= i < front.len() implies !is_tag_line(
            clean_line(#[trigger] front[i]),
        ) by {
            assert(front[i] == code[i]);
        }
        lemma_capture(st, front);
        assert(!is_tag_line(clean_line(code[code.len() - 1])));
        assert(st.current + captured(front) + clean_line(code.last()) + seq!['\n'] =~= st.current
            + captured(code));
    }
}

/// An example that is still open at the end of the comment is closed
/// there: after an example tag, lines that are no tag lines give one more
/// example entry, which holds those lines, trimmed.
pub proof fn lemma_open_example_closes_at_end(st: DocState, tag_line: Seq<char>, code: Seq<Seq<char>>)
    requires
        starts_with(clean_line(tag_line), "@example"@),
        code.len() > 0,
        forall|i: int| 0 <= i < code.len() ==> !is_tag_line(clean_line(#[trigger] code[i])),
    ensures
        doc_finish(doc_fold(doc_step(st, tag_line), code)).examples == close_example(
            st,
        ).examples.push(trim(captured(code))),
        st.examples.len() == 0 && !st.in_example ==> doc_finish(
            doc_fold(doc_step(st, tag_line), code),
        ).examples.len() == 1,
{
    reveal_strlit("@example");
    reveal_strlit("@param");
    reveal_strlit("@return");
    let line = clean_line(tag_line);
    assert(line[0] == "@example"@[0]) by {
        assert(line.subrange(0, 8)[0] == line[0]);
    }
    assert(!starts_with(line, "@param"@)) by {
        if starts_with(line, "@param"@) {
            assert(line.subrange(0, 6)[1] == line[1]);
            assert(line.subrange(0, 8)[1] == line[1]);
        }
    }
    assert(!starts_with(line, "@return"@)) by {
        if starts_with(line, "@return"@) {
            assert(line.subrange(0, 7)[1] == line[1]);
            assert(line.subrange(0, 8)[1] == line[1]);
        }
    }
    let opened = doc_step(st, tag_line);
    assert(opened == (DocState { in_example: true, ..close_example(st) }));
    lemma_capture(opened, code);
    assert(opened.current + captured(code) =~= captured(code));
    assert(captured(code).len() > 0);
}

/// What the doc comment of the declaration at byte offset `offset` of
/// `content` says: that of the nearest comment in front of the offset,
/// nothing where the offset does not stand between two characters.
pub open spec fn doc_comment_at(content: Seq<char>, offset: int) -> JsDocView {
    match text_before(content, offset) {
        Some(before) => doc_comment_before(before),
        None => empty_doc(),
    }
}

/// Parsing is a function of the text: two results for one text and one
/// offset agree field for field.
pub proof fn lemma_parse_is_repeatable(a: JsDoc, b: JsDoc, content: Seq<char>, offset: int)
    requires
        a@ == doc_comment_at(content, offset),
        b@ == doc_comment_at(content, offset),
    ensures
        a@.description == b@.description,
        a@.params == b@.params,
        a@.returns == b@.returns,
        a@.examples == b@.examples,
        a@.deprecated == b@.deprecated,
{
}

/// Whether `a` and `b` hold the same characters.
pub fn same_chars(a: &[char], b: &[char]) -> (r: bool)
    ensures
        r == (a@ == b@),
{
    proof {
        assert(a@.subrange(0, a@.len() as int) =~= a@);
    }
    a.len() == b.len() && matches_at(a, b, 0)
}

/// The characters of `content` in front of the byte offset `offset`.
pub fn chars_before(content: &str, offset: usize) -> (r: Option<Vec<char>>)
    ensures
        r.deep_view() == text_before(content@, offset as int),
{
    if content.is_char_boundary(offset) {
        let (before, _) = content.split_at(offset);
        let out: Vec<char> = chars_of(before);
        proof {
            vstd::utf8::encode_utf8_decode_utf8(before@);
            assert(out.deep_view() =~= out@);
        }
        Some(out)
    } else {
        None
    }
}

/// Passes over the type in braces at the front of `rest`.
pub fn without_type<'a>(rest: &'a [char]) -> (r: &'a [char])
    ensures
        r@ == skip_type(rest@),
{
    if rest.len() > 0 && rest[0] == '{' {
        proof {
            assert(rest@.subrange(0, rest@.len() as int) =~= rest@);
        }
        let close: usize = find_char(rest, 0, '}');
        if close < rest.len() {
            return trimmed_start(skipped(rest, close + 1));
        }
    }
    rest
}

struct DocBuilder {
    description: Vec<Vec<char>>,
    params: Vec<(String, String)>,
    returns: Option<String>,
    examples: Vec<String>,
    deprecated: Option<String>,
    in_example: bool,
    current: Vec<char>,
}

impl DocBuilder {
    spec fn state(&self) -> DocState {
        DocState {
            description: texts(self.description@),
            params: entries_map(self.params.deep_view()),
            returns: self.returns.deep_view(),
            examples: self.examples.deep_view(),
            deprecated: self.deprecated.deep_view(),
            in_example: self.in_example,
            current: self.current@,
        }
    }

    fn new() -> (r: Self)
        ensures
            r.state() == initial_state(),
    {
        let r = DocBuilder {
            description: Vec::new(),
            params: Vec::new(),
            returns: None,
            examples: Vec::new(),
            deprecated: None,
            in_example: false,
            current: Vec::new(),
        };
        proof {
            assert(r.state() =~= initial_state());
        }
        r
    }

    fn close_example(&mut self)
        ensures
            final(self).state() == close_example(old(self).state()),
    {
        if self.in_example && self.current.len() > 0 {
            let entry: String = string_of(trimmed(self.current.as_slice()));
            let ghost text = entry@;
            self.examples.push(entry);
            proof {
                assert(self.examples.deep_view() =~= old(self).examples.deep_view().push(text));
            }
        }
        self.in_example = false;
        self.current = Vec::new();
        proof {
            assert(self.state() =~= close_example(old(self).state()));
        }
    }

    fn apply_tag(&mut self, line: &[char])
        ensures
            final(self).state() == apply_tag(old(self).state(), line@),
    {
        let param_tag: Vec<char> = chars_of("@param");
        let return_tag: Vec<char> = chars_of("@return");
        let returns_tag: Vec<char> = chars_of("@returns");
        let example_tag: Vec<char> = chars_of("@example");
        let deprecated_tag: Vec<char> = chars_of("@deprecated");
        if has_prefix(line, param_tag.as_slice()) {
            let rest: &[char] = without_type(trimmed(skipped(line, param_tag.len())));
            proof {
                assert(rest@.subrange(0, rest@.len() as int) =~= rest@);
            }
            let i: usize = find_char(rest, 0, ' ');
            if i < rest.len() {
                let key: String = string_of(
                    without_trailing(without_leading(slice_subrange(rest, 0, i), '{'), '}'),
                );
                let value: String = string_of(slice_subrange(rest, i + 1, rest.len()));
                let ghost entries = self.params.deep_view();
                let ghost (k, v) = (key@, value@);
                self.params.push((key, value));
                proof {
                    let grown = self.params.deep_view();
                    assert(grown =~= entries.push((k, v)));
                    assert(grown.drop_last() =~= entries);
                }
            }
        } else if has_prefix(line, return_tag.as_slice()) {
            self.returns = Some(string_of(trimmed(skipped(line, returns_tag.len()))));
        } else if has_prefix(line, example_tag.as_slice()) {
            self.in_example = true;
        } else if has_prefix(line, deprecated_tag.as_slice()) {
            self.deprecated = Some(string_of(trimmed(skipped(line, deprecated_tag.len()))));
        }
        proof {
            assert(self.state() =~= apply_tag(old(self).state(), line@));
        }
    }

    fn feed(&mut self, raw: &[char])
        ensures
            final(self).state() == doc_step(old(self).state(), raw@),
    {
        let line: &[char] = trimmed(without_leading(trimmed(raw), '*'));
        if line.len() > 0 && line[0] == '@' {
            self.close_example();
            self.apply_tag(line);
        } else if self.in_example {
            push_all(&mut self.current, line);
            self.current.push('\n');
            proof {
                assert(self.current@ =~= old(self).current@ + line@ + seq!['\n']);
                assert(self.state() =~= doc_step(old(self).state(), raw@));
            }
        } else if line.len() > 0 {
            let kept: Vec<char> = to_vec(line);
            proof {
                lemma_texts_push(self.description@, kept);
            }
            self.description.push(kept);
            proof {
                assert(self.state() =~= doc_step(old(self).state(), raw@));
            }
        }
    }

    fn finish(self) -> (r: JsDoc)
        ensures
            r@ == doc_finish(self.state()),
    {
        let mut b = self;
        let description: Option<String> = if b.description.len() > 0 {
            let space: Vec<char> = chars_of(" ");
            Some(string_of(joined(&b.description, space.as_slice()).as_slice()))
        } else {
            None
        };
        b.close_example();
        let r = JsDoc {
            description,
            params: b.params,
            returns: b.returns,
            examples: b.examples,
            deprecated: b.deprecated,
        };
        proof {
            assert(r@ =~= doc_finish(self.state()));
        }
        r
    }
}

/// Reads the body of a doc comment.
pub fn parse_comment_body(body: &[char]) -> (r: JsDoc)
    ensures
        r@ == parse_comment(body@),
{
    let raw_lines: Vec<Vec<char>> = split_lines(body);
    let mut b = DocBuilder::new();
    let mut i: usize = 0;
    while i < raw_lines.len()
        invariant
            i <= raw_lines.len(),
            b.state() == doc_fold(initial_state(), texts(raw_lines@).take(i as int)),
        decreases raw_lines.len() - i,
    {
        proof {
            assert(texts(raw_lines@).take(i + 1).drop_last() =~= texts(raw_lines@).take(
                i as int,
            ));
        }
        b.feed(raw_lines[i].as_slice());
        i += 1;
    }
    proof {
        assert(texts(raw_lines@).take(raw_lines.len() as int) =~= texts(raw_lines@));
    }
    b.finish()
}

/// Finds and reads the nearest doc comment in `before`, the text in front
/// of a declaration.
pub fn parse_doc_comment(before: &[char]) -> (r: JsDoc)
    ensures
        r@ == doc_comment_before(before@),
{
    let close: Vec<char> = chars_of("*/");
    let open: Vec<char> = chars_of("/**");
    match rfind(before, close.as_slice()) {
        None => empty_jsdoc(),
        Some(end) => {
            proof {
                lemma_find_last(before@, close@);
            }
            let head: &[char] = slice_subrange(before, 0, end);
            match rfind(head, open.as_slice()) {
                None => empty_jsdoc(),
                Some(start) => {
                    proof {
                        lemma_find_last(head@, open@);
                        assert(head@.subrange(start + open@.len(), end as int)
                            =~= before@.subrange(start + open@.len(), end as int));
                    }
                    let body: &[char] = slice_subrange(head, start + open.len(), end);
                    parse_comment_body(body)
                },
            }
        },
    }
}

/// The result for a declaration without a doc comment.
pub fn empty_jsdoc() -> (r: JsDoc)
    ensures
        r@ == empty_doc(),
{
    let r = JsDoc {
        description: None,
        params: Vec::new(),
        returns: None,
        examples: Vec::new(),
        deprecated: None,
    };
    proof {
        assert(r@ =~= empty_doc());
    }
    r
}

/// Finds and reads the doc comment of the declaration that begins at byte
/// offset `export_start` of `content`: the nearest one in front of that
/// offset. An offset that does not stand between two characters has no
/// text in front of it, and gives the empty result.
pub fn extract_jsdoc(content: &str, export_start: usize) -> (r: JsDoc)
    ensures
        r@ == doc_comment_at(content@, export_start as int),
{
    match chars_before(content, export_start) {
        Some(before) => {
            proof {
                assert(before.deep_view() =~= before@);
            }
            parse_doc_comment(before.as_slice())
        },
        None => empty_jsdoc(),
    }
}

impl JsDoc {
    /// The description recorded for the parameter `name`.
    pub fn description_of(&self, name: &[char]) -> (r: Option<String>)
        ensures
            r.deep_view() == lookup(self@.params, name@),
    {
        let mut found: Option<String> = None;
        let mut i: usize = 0;
        while i < self.params.len()
            invariant
                i <= self.params.len(),
                found.deep_view() == lookup(
                    entries_map(self.params.deep_view().take(i as int)),
                    name@,
                ),
            decreases self.params.len() - i,
        {
            proof {
                assert(self.params.deep_view().take(i + 1).drop_last()
                    =~= self.params.deep_view().take(i as int));
            }
            let key: Vec<char> = chars_of(self.params[i].0.as_str());
            if same_chars(key.as_slice(), name) {
                found = Some(self.params[i].1.clone());
            }
            i += 1;
        }
        proof {
            assert(self.params.deep_view().take(self.params.len() as int)
                =~= self.params.deep_view());
        }
        found
    }
}

} // verus!
