//! The content of the page: markdown rendered as HTML, its code blocks
//! highlighted, its Mermaid diagrams put into the markup that the Mermaid
//! script looks for.
//!
//! A code block is `<pre><code class="language-LANG">CODE</code></pre>`,
//! where `LANG` is one or more characters other than `"` and `CODE` ends
//! at the first `</code></pre>`. Blocks are taken from left to right and do
//! not overlap. A block whose code is longer than `HIGHLIGHT_LIMIT`
//! characters is not handed to the highlighter and stays as it is.

use vstd::prelude::*;
use crate::text::{chars_of, contains, find_char, find_char_in, find_from, first_occurrence, includes, lemma_find_char, lemma_first_occurrence_occurs, lines, occurs_at, matches_at, push_range, replace, replace_all, same_chars, split_lines, string_of};

verus! {

/// How a code block begins, up to the name of its language.
pub const BLOCK_OPEN: &'static str = "<pre><code class=\"language-";

/// How a code block ends.
pub const BLOCK_CLOSE: &'static str = "</code></pre>";

/// The language of a diagram.
pub const MERMAID: &'static str = "mermaid";

/// How the code block of a diagram begins.
pub const MERMAID_OPEN: &'static str = "<pre><code class=\"language-mermaid\">";

/// How a code block without language begins whose first word is
/// `mermaid`.
pub const MERMAID_BARE_OPEN: &'static str = "<pre><code>mermaid";

/// How a diagram begins in the page.
pub const MERMAID_DIV: &'static str = "<div class=\"mermaid\">";

/// How a diagram ends in the page.
pub const DIV_CLOSE: &'static str = "</div>";

/// How a highlighted block begins, up to the name of its language.
pub const HIGHLIGHT_OPEN: &'static str = "<pre class=\"syntax-highlight language-";

/// What stands between the name of the language and the highlighted code.
pub const HIGHLIGHT_MID: &'static str = "\">";

/// How a highlighted block ends.
pub const HIGHLIGHT_CLOSE: &'static str = "</pre>";

/// The longest code, in characters, that is handed to the highlighter. A
/// longer block is left as it is.
pub const HIGHLIGHT_LIMIT: usize = 10000;

/// The HTML that the `pulldown_cmark` crate renders `markdown` to, with
/// tables, footnotes, strikethrough and task lists enabled.
pub uninterp spec fn markdown_html(markdown: Seq<char>) -> Seq<char>;

/// `text` with its HTML entities decoded, as the `html_escape` crate
/// decodes them.
pub uninterp spec fn decoded_entities(text: Seq<char>) -> Seq<char>;

/// The highlighted HTML for `code` in the language `lang`, as the
/// `syntect` crate makes it from its default syntaxes and the theme
/// `base16-ocean.dark`; `None` where it knows no syntax by the name
/// `lang`, or fails on the code.
pub uninterp spec fn highlighted_html(lang: Seq<char>, code: Seq<char>) -> Option<Seq<char>>;

/// `pulldown_cmark::html::push_html` on a `pulldown_cmark::Parser` with
/// the options for tables, footnotes, strikethrough and task lists: the
/// HTML for the markdown text. The result depends on the text alone;
/// nothing else is claimed of it.
#[verifier::external_body]
fn render_markdown(markdown: &str) -> (html: String)
    ensures
        html@ == markdown_html(markdown@),
{
    let mut options = pulldown_cmark::Options::empty();
    options.insert(pulldown_cmark::Options::ENABLE_TABLES);
    options.insert(pulldown_cmark::Options::ENABLE_FOOTNOTES);
    options.insert(pulldown_cmark::Options::ENABLE_STRIKETHROUGH);
    options.insert(pulldown_cmark::Options::ENABLE_TASKLISTS);
    let mut html = String::new();
    pulldown_cmark::html::push_html(&mut html, pulldown_cmark::Parser::new_ext(markdown, options));
    html
}

/// `html_escape::decode_html_entities`: the text with named and numeric
/// character references replaced by what they stand for. The result
/// depends on the text alone; nothing else is claimed of it.
#[verifier::external_body]
fn decode_entities(text: &str) -> (decoded: String)
    ensures
        decoded@ == decoded_entities(text@),
{
    html_escape::decode_html_entities(text).into_owned()
}

/// `syntect::html::highlighted_html_for_string`, on the syntax that
/// `SyntaxSet::find_syntax_by_token` finds for `lang` among the default
/// syntaxes, with the default theme `base16-ocean.dark`. The defaults are
/// built into the crate, so the result depends on `lang` and `code` alone;
/// nothing else is claimed of it.
///
/// The code is bounded: some syntaxes build a pattern out of text that
/// they matched in the code, and the crate panics when such a pattern
/// grows beyond what its pattern compiler takes.
#[verifier::external_body]
fn highlight(lang: &str, code: &str) -> (html: Option<String>)
    requires
        code@.len() <= HIGHLIGHT_LIMIT,
    ensures
        match html {
            Some(h) => highlighted_html(lang@, code@) == Some(h@),
            None => highlighted_html(lang@, code@) is None,
        },
{
    let syntaxes = syntect::parsing::SyntaxSet::load_defaults_newlines();
    let themes = syntect::highlighting::ThemeSet::load_defaults();
    let theme = &themes.themes["base16-ocean.dark"];
    match syntaxes.find_syntax_by_token(lang) {
        Some(syntax) => syntect::html::highlighted_html_for_string(code, &syntaxes, syntax, theme).ok(),
        None => None,
    }
}

/// Where a code block stands in a text.
#[derive(Clone, Copy, PartialEq, Eq, Debug, Structural)]
pub struct CodeBlock {
    /// Where the block begins.
    pub start: usize,
    /// Where the name of the language ends: the index of the `"` behind
    /// it.
    pub lang_end: usize,
    /// Where the code ends: the index at which `</code></pre>` begins.
    pub code_end: usize,
}

/// Where a code block stands in a text, as plain values.
pub struct Span {
    /// Where the block begins.
    pub start: int,
    /// Where the name of the language ends.
    pub lang_end: int,
    /// Where the code ends.
    pub code_end: int,
}

impl View for CodeBlock {
    type V = Span;

    open spec fn view(&self) -> Span {
        Span { start: self.start as int, lang_end: self.lang_end as int, code_end: self.code_end as int }
    }
}

impl Span {
    /// Where the name of the language begins.
    pub open spec fn lang_start(self) -> int {
        self.start + BLOCK_OPEN@.len()
    }

    /// Where the code begins: behind `">`.
    pub open spec fn code_start(self) -> int {
        self.lang_end + 2
    }

    /// Where the block ends.
    pub open spec fn end(self) -> int {
        self.code_end + BLOCK_CLOSE@.len()
    }

    /// The block lies in `html`, its parts in order.
    pub open spec fn within(self, html: Seq<char>) -> bool {
        self.lang_start() < self.lang_end && self.code_start() <= self.code_end && self.end()
            <= html.len()
    }

    /// The name of the language.
    pub open spec fn lang(self, html: Seq<char>) -> Seq<char> {
        html.subrange(self.lang_start(), self.lang_end)
    }

    /// The code.
    pub open spec fn code(self, html: Seq<char>) -> Seq<char> {
        html.subrange(self.code_start(), self.code_end)
    }

    /// The whole block, from `<pre>` to `</pre>`.
    pub open spec fn whole(self, html: Seq<char>) -> Seq<char> {
        html.subrange(self.start, self.end())
    }
}

/// The code block that begins at the index `at` of `html`, if one begins
/// there.
pub open spec fn block_at(html: Seq<char>, at: int) -> Option<Span> {
    if !occurs_at(html, BLOCK_OPEN@, at) {
        None
    } else {
        let lang_start = at + BLOCK_OPEN@.len();
        match find_char(html.skip(lang_start), '"') {
            None => None,
            Some(n) => {
                let lang_end = lang_start + n;
                if n == 0 || lang_end + 1 >= html.len() || html[lang_end + 1] != '>' {
                    None
                } else {
                    match first_occurrence(html.skip(lang_end + 2), BLOCK_CLOSE@) {
                        None => None,
                        Some(m) => Some(
                            Span { start: at, lang_end, code_end: lang_end + 2 + m },
                        ),
                    }
                }
            },
        }
    }
}

/// A block that begins at `at` lies in the text and ends behind `at`.
pub proof fn lemma_block_at(html: Seq<char>, at: int)
    ensures
        match block_at(html, at) {
            Some(block) => block.start == at && block.within(html) && block.end() > at,
            None => true,
        },
{
    if occurs_at(html, BLOCK_OPEN@, at) {
        let lang_start = at + BLOCK_OPEN@.len();
        lemma_find_char(html.skip(lang_start), '"');
        match find_char(html.skip(lang_start), '"') {
            None => {},
            Some(n) => {
                let lang_end = lang_start + n;
                if !(n == 0 || lang_end + 1 >= html.len() || html[lang_end + 1] != '>') {
                    let rest = html.skip(lang_end + 2);
                    lemma_first_occurrence_occurs(rest, BLOCK_CLOSE@);
                }
            },
        }
    }
}

/// The code blocks of `html` from the index `from` on, from left to
/// right.
pub open spec fn blocks(html: Seq<char>, from: int) -> Seq<Span>
    decreases html.len() - from,
{
    if from < 0 || from >= html.len() {
        Seq::empty()
    } else {
        match block_at(html, from) {
            Some(block) => {
                proof {
                    lemma_block_at(html, from);
                }
                seq![block] + blocks(html, block.end())
            },
            None => blocks(html, from + 1),
        }
    }
}

/// What takes the place of a block in the language `lang` whose
/// highlighted code is `highlighted`.
pub open spec fn highlighted_block(lang: Seq<char>, highlighted: Seq<char>) -> Seq<char> {
    HIGHLIGHT_OPEN@ + lang + HIGHLIGHT_MID@ + highlighted + HIGHLIGHT_CLOSE@
}

/// `text` with the block `block` of `html` replaced, wherever it stands in
/// `text`, by its highlighted form.
pub open spec fn with_block_replaced(
    html: Seq<char>,
    block: Span,
    text: Seq<char>,
    highlighted: Seq<char>,
) -> Seq<char> {
    replace_all(text, block.whole(html), highlighted_block(block.lang(html), highlighted))
}

/// `text` after the block `block` of `html` has been dealt with: a diagram
/// is left alone, and so is a block whose code, with its entities decoded,
/// is longer than `HIGHLIGHT_LIMIT`; any other block whose language is
/// known is replaced, wherever it stands in `text`, by its highlighted
/// form.
pub open spec fn with_block_highlighted(html: Seq<char>, block: Span, text: Seq<char>) -> Seq<
    char,
> {
    let lang = block.lang(html);
    let code = decoded_entities(block.code(html));
    if lang == MERMAID@ || code.len() > HIGHLIGHT_LIMIT {
        text
    } else {
        match highlighted_html(lang, code) {
            Some(highlighted) => with_block_replaced(html, block, text, highlighted),
            None => text,
        }
    }
}

/// `text` after the blocks `found` of `html` have been dealt with, one
/// after the other.
pub open spec fn with_blocks_highlighted(
    html: Seq<char>,
    found: Seq<Span>,
    text: Seq<char>,
) -> Seq<char>
    decreases found.len(),
{
    if found.len() == 0 {
        text
    } else {
        with_blocks_highlighted(
            html,
            found.drop_first(),
            with_block_highlighted(html, found.first(), text),
        )
    }
}

/// `text` with the openings of diagrams replaced by the opening of the
/// diagram markup.
pub open spec fn with_diagrams_opened(text: Seq<char>) -> Seq<char> {
    replace_all(
        replace_all(text, MERMAID_OPEN@, MERMAID_DIV@),
        MERMAID_BARE_OPEN@,
        MERMAID_DIV@,
    )
}

/// The lines `rest`, each with a line feed behind it, with the diagrams
/// closed: behind the opening of a diagram, the first line that holds the
/// end of a code block has that end replaced by the end of the diagram
/// markup. `open` tells whether a diagram is open when `rest` begins.
pub open spec fn with_diagrams_closed(rest: Seq<Seq<char>>, open: bool) -> Seq<char>
    decreases rest.len(),
{
    if rest.len() == 0 {
        Seq::empty()
    } else {
        let line = rest.first();
        if contains(line, MERMAID_DIV@) {
            line + seq!['\n'] + with_diagrams_closed(rest.drop_first(), true)
        } else if open && contains(line, BLOCK_CLOSE@) {
            replace_all(line, BLOCK_CLOSE@, DIV_CLOSE@) + seq!['\n'] + with_diagrams_closed(
                rest.drop_first(),
                false,
            )
        } else {
            line + seq!['\n'] + with_diagrams_closed(rest.drop_first(), open)
        }
    }
}

/// The HTML `html` made ready for the page: its code blocks highlighted,
/// its diagrams in diagram markup.
pub open spec fn processed(html: Seq<char>) -> Seq<char> {
    with_diagrams_closed(
        lines(with_diagrams_opened(with_blocks_highlighted(html, blocks(html, 0), html))),
        false,
    )
}

/// Finds the code block that begins at the index `at`, if one begins
/// there.
pub fn scan_block(html: &[char], at: usize) -> (found: Option<CodeBlock>)
    ensures
        match found {
            Some(block) => block_at(html@, at as int) == Some(block@),
            None => block_at(html@, at as int) is None,
        },
{
    let open = chars_of(BLOCK_OPEN);
    let close = chars_of(BLOCK_CLOSE);
    let total: usize = html.len();
    if !matches_at(html, open.as_slice(), at) {
        return None;
    }
    let lang_start: usize = at + open.len();
    proof {
        lemma_find_char(html@.skip(lang_start as int), '"');
        assert(html@.skip(lang_start as int) == html@.subrange(lang_start as int, total as int));
    }
    match find_char_in(html, lang_start, total, '"') {
        None => None,
        Some(n) => {
            let lang_end: usize = lang_start + n;
            if n == 0 || lang_end + 1 >= total || html[lang_end + 1] != '>' {
                None
            } else {
                match find_from(html, close.as_slice(), lang_end + 2) {
                    None => None,
                    Some(m) => Some(CodeBlock { start: at, lang_end, code_end: lang_end + 2 + m }),
                }
            }
        },
    }
}

/// The characters `text[from..to]` as a string.
fn part_of(text: &[char], from: usize, to: usize) -> (part: String)
    requires
        from <= to <= text@.len(),
    ensures
        part@ == text@.subrange(from as int, to as int),
{
    let mut chars: Vec<char> = Vec::new();
    push_range(&mut chars, text, from, to);
    assert(Seq::<char>::empty() + text@.subrange(from as int, to as int) == text@.subrange(
        from as int,
        to as int,
    ));
    string_of(chars.as_slice())
}

/// The name of the language of a block.
pub fn block_lang(html: &[char], block: CodeBlock) -> (lang: Vec<char>)
    requires
        block@.within(html@),
    ensures
        lang@ == block@.lang(html@),
{
    assert(html.len() == html@.len());
    let lang_start: usize = block.start + chars_of(BLOCK_OPEN).len();
    let mut lang: Vec<char> = Vec::new();
    push_range(&mut lang, html, lang_start, block.lang_end);
    assert(lang@ =~= block@.lang(html@));
    lang
}

/// Replaces the block `block` of `html`, wherever it stands in `text`, by
/// its highlighted form, made of the name of its language and the
/// highlighted code `highlighted`.
pub fn replace_block(html: &[char], block: CodeBlock, text: &[char], highlighted: &[char]) -> (out:
    Vec<char>)
    requires
        block@.within(html@),
    ensures
        out@ == with_block_replaced(html@, block@, text@, highlighted@),
{
    assert(html.len() == html@.len());
    let close_len: usize = chars_of(BLOCK_CLOSE).len();
    let lang = block_lang(html, block);
    let mut whole: Vec<char> = Vec::new();
    push_range(&mut whole, html, block.start, block.code_end + close_len);
    assert(whole@ =~= block@.whole(html@));
    let mut with = chars_of(HIGHLIGHT_OPEN);
    push_range(&mut with, lang.as_slice(), 0, lang.len());
    let mid = chars_of(HIGHLIGHT_MID);
    push_range(&mut with, mid.as_slice(), 0, mid.len());
    push_range(&mut with, highlighted, 0, highlighted.len());
    let tail = chars_of(HIGHLIGHT_CLOSE);
    push_range(&mut with, tail.as_slice(), 0, tail.len());
    assert(lang@.subrange(0, lang@.len() as int) == lang@);
    assert(mid@.subrange(0, mid@.len() as int) == mid@);
    assert(highlighted@.subrange(0, highlighted@.len() as int) == highlighted@);
    assert(tail@.subrange(0, tail@.len() as int) == tail@);
    assert(with@ =~= highlighted_block(lang@, highlighted@));
    replace(text, whole.as_slice(), with.as_slice())
}

/// Deals with one code block of `html`: replaces it in `text` by its
/// highlighted form, unless it is a diagram, its code is longer than
/// `HIGHLIGHT_LIMIT`, or its language is not known.
pub fn highlight_block(html: &[char], block: CodeBlock, text: Vec<char>) -> (out: Vec<char>)
    requires
        block@.within(html@),
    ensures
        out@ == with_block_highlighted(html@, block@, text@),
{
    let lang = block_lang(html, block);
    let mermaid = chars_of(MERMAID);
    if same_chars(lang.as_slice(), mermaid.as_slice()) {
        return text;
    }
    let code = part_of(html, block.lang_end + 2, block.code_end);
    let decoded = decode_entities(code.as_str());
    if chars_of(decoded.as_str()).len() > HIGHLIGHT_LIMIT {
        return text;
    }
    let lang_text = string_of(lang.as_slice());
    match highlight(lang_text.as_str(), decoded.as_str()) {
        None => text,
        Some(highlighted) => {
            let body = chars_of(highlighted.as_str());
            replace_block(html, block, text.as_slice(), body.as_slice())
        },
    }
}

/// Highlights the code blocks of `html`.
pub fn highlight_blocks(html: &[char]) -> (out: Vec<char>)
    ensures
        out@ == with_blocks_highlighted(html@, blocks(html@, 0), html@),
{
    let total: usize = html.len();
    let mut text: Vec<char> = Vec::new();
    push_range(&mut text, html, 0, total);
    assert(text@ =~= html@);
    let mut at: usize = 0;
    while at < total
        invariant
            at <= total,
            total == html@.len(),
            with_blocks_highlighted(html@, blocks(html@, 0), html@) == with_blocks_highlighted(
                html@,
                blocks(html@, at as int),
                text@,
            ),
        decreases total - at,
    {
        proof {
            lemma_block_at(html@, at as int);
        }
        let ghost before = text@;
        match scan_block(html, at) {
            None => {
                assert(blocks(html@, at as int) == blocks(html@, at + 1));
                at += 1;
            },
            Some(block) => {
                let close_len: usize = chars_of(BLOCK_CLOSE).len();
                assert(block@.within(html@) && block@.end() > at);
                let ghost rest = blocks(html@, block@.end());
                assert(blocks(html@, at as int) == seq![block@] + rest);
                assert((seq![block@] + rest).first() == block@);
                assert((seq![block@] + rest).drop_first() =~= rest);
                text = highlight_block(html, block, text);
                assert(with_blocks_highlighted(html@, seq![block@] + rest, before)
                    == with_blocks_highlighted(html@, rest, text@));
                at = block.code_end + close_len;
            },
        }
    }
    text
}

/// Puts the diagrams of `text` into diagram markup.
pub fn mark_diagrams(text: &[char]) -> (out: Vec<char>)
    ensures
        out@ == with_diagrams_closed(lines(with_diagrams_opened(text@)), false),
{
    let div = chars_of(MERMAID_DIV);
    let close = chars_of(BLOCK_CLOSE);
    let div_close = chars_of(DIV_CLOSE);
    let fenced = chars_of(MERMAID_OPEN);
    let bare = chars_of(MERMAID_BARE_OPEN);
    let first = replace(text, fenced.as_slice(), div.as_slice());
    let opened = replace(first.as_slice(), bare.as_slice(), div.as_slice());
    let parts = split_lines(opened.as_slice());
    let ghost all = lines(opened@);
    let mut out: Vec<char> = Vec::new();
    let mut open: bool = false;
    let mut i: usize = 0;
    assert(all.skip(0) == all);
    while i < parts.len()
        invariant
            i <= parts@.len(),
            all == lines(opened@),
            parts@.len() == all.len(),
            forall|k: int| 0 <= k < parts@.len() ==> (#[trigger] parts@[k])@ == all[k],
            div@ == MERMAID_DIV@,
            close@ == BLOCK_CLOSE@,
            div_close@ == DIV_CLOSE@,
            with_diagrams_closed(all, false) == out@ + with_diagrams_closed(all.skip(i as int), open),
        decreases parts@.len() - i,
    {
        let ghost rest = all.skip(i as int);
        let ghost done = out@;
        let line = &parts[i];
        assert(line@ == rest.first());
        assert(rest.drop_first() == all.skip(i + 1));
        if includes(line.as_slice(), div.as_slice()) {
            push_range(&mut out, line.as_slice(), 0, line.len());
            out.push('\n');
            open = true;
        } else if open && includes(line.as_slice(), close.as_slice()) {
            let closed = replace(line.as_slice(), close.as_slice(), div_close.as_slice());
            push_range(&mut out, closed.as_slice(), 0, closed.len());
            assert(closed@.subrange(0, closed@.len() as int) == closed@);
            out.push('\n');
            open = false;
        } else {
            push_range(&mut out, line.as_slice(), 0, line.len());
            out.push('\n');
        }
        assert(line@.subrange(0, line@.len() as int) == line@);
        i += 1;
        assert(with_diagrams_closed(all, false) =~= out@ + with_diagrams_closed(
            all.skip(i as int),
            open,
        ));
    }
    assert(all.skip(i as int).len() == 0);
    assert(out@ + Seq::<char>::empty() == out@);
    out
}

/// Makes rendered HTML ready for the page: highlights its code blocks and
/// puts its diagrams into diagram markup.
pub fn process_mermaid_diagrams(html: &str) -> (out: String)
    ensures
        out@ == processed(html@),
{
    let source = chars_of(html);
    let highlighted = highlight_blocks(source.as_slice());
    let marked = mark_diagrams(highlighted.as_slice());
    string_of(marked.as_slice())
}

/// Renders markdown as the content of the page: HTML with its code blocks
/// highlighted and its diagrams in diagram markup. The document around the
/// content is the caller's work.
pub fn markdown_to_html(markdown: &str) -> (content: String)
    ensures
        content@ == processed(markdown_html(markdown@)),
{
    let html = render_markdown(markdown);
    process_mermaid_diagrams(html.as_str())
}

} // verus!
