use marv::renderer::{
    block_lang, highlight_blocks, mark_diagrams, markdown_to_html, process_mermaid_diagrams,
    replace_block, scan_block, CodeBlock, HIGHLIGHT_LIMIT,
};
use marv::text::split_lines;

fn chars(s: &str) -> Vec<char> {
    s.chars().collect()
}

fn text(chars: Vec<char>) -> String {
    chars.into_iter().collect()
}

/// The same work, done with the crates themselves.
fn reference(html: &str) -> String {
    let ss = syntect::parsing::SyntaxSet::load_defaults_newlines();
    let ts = syntect::highlighting::ThemeSet::load_defaults();
    let theme = &ts.themes["base16-ocean.dark"];
    let mut intermediate = html.to_string();
    let re_code =
        regex::Regex::new(r#"<pre><code class="language-([^"]+)">([\s\S]*?)</code></pre>"#).unwrap();
    for cap in re_code.captures_iter(html) {
        let lang = cap.get(1).unwrap().as_str();
        let code = cap.get(2).unwrap().as_str();
        if lang == "mermaid" {
            continue;
        }
        let unescaped_code = html_escape::decode_html_entities(code).to_string();
        if unescaped_code.chars().count() > HIGHLIGHT_LIMIT {
            continue;
        }
        if let Some(syntax) = ss.find_syntax_by_token(lang) {
            if let Ok(highlighted) =
                syntect::html::highlighted_html_for_string(&unescaped_code, &ss, syntax, theme)
            {
                let replacement =
                    format!(r#"<pre class="syntax-highlight language-{}">{}</pre>"#, lang, highlighted);
                let full_match = cap.get(0).unwrap().as_str();
                intermediate = intermediate.replace(full_match, &replacement);
            }
        }
    }
    let intermediate = intermediate
        .replace("<pre><code class=\"language-mermaid\">", "<div class=\"mermaid\">")
        .replace("<pre><code>mermaid", "<div class=\"mermaid\">");
    let mut result = String::new();
    let mut in_mermaid = false;
    for line in intermediate.lines() {
        if line.contains("<div class=\"mermaid\">") {
            in_mermaid = true;
            result.push_str(line);
            result.push('\n');
        } else if in_mermaid && line.contains("</code></pre>") {
            in_mermaid = false;
            result.push_str(&line.replace("</code></pre>", "</div>"));
            result.push('\n');
        } else {
            result.push_str(line);
            result.push('\n');
        }
    }
    result
}

const SAMPLES: [&str; 16] = [
    "",
    "<p>plain</p>",
    "<p>plain</p>\n",
    "<h1>T</h1>\n<pre><code class=\"language-rust\">fn main() {\n    println!(&quot;hi&quot;);\n}\n</code></pre>\n<p>end</p>\n",
    "<pre><code class=\"language-mermaid\">graph TD;\n    A--&gt;B;\n</code></pre>\n",
    "<pre><code>mermaid\ngraph LR;\nA-->B\n</code></pre>\n<p>after</p></code></pre>\n",
    "<pre><code class=\"language-nosuchlanguage\">x = 1\n</code></pre>",
    "<pre><code class=\"language-python\">print(1)\n</code></pre>\n<pre><code class=\"language-python\">print(1)\n</code></pre>\n",
    "<pre><code class=\"language-\">x</code></pre>",
    "<pre><code class=\"language-js\" data-x=\"1\">x</code></pre>",
    "<pre><code class=\"language-js\">never closed",
    "a\r\nb\rc\n\nd",
    "<pre><code class=\"language-mermaid\">graph TD;</code></pre><pre><code class=\"language-c\">int x;</code></pre>",
    "<div class=\"mermaid\">x\n</code></pre></code></pre>\n</code></pre>\n",
    "<pre><code class=\"language-<pre><code class=\"language-sh\">ls</code></pre>",
    "<pre><code class=\"language-html\">&lt;b&gt;&amp;amp;&#65;&#x42;&lt;/b&gt;\n</code></pre>üδ\n",
];

#[test]
fn processing_agrees_with_the_crates() {
    for html in SAMPLES {
        assert_eq!(process_mermaid_diagrams(html), reference(html), "html {:?}", html);
    }
}

fn rendered(markdown: &str) -> String {
    let mut options = pulldown_cmark::Options::empty();
    options.insert(pulldown_cmark::Options::ENABLE_TABLES);
    options.insert(pulldown_cmark::Options::ENABLE_FOOTNOTES);
    options.insert(pulldown_cmark::Options::ENABLE_STRIKETHROUGH);
    options.insert(pulldown_cmark::Options::ENABLE_TASKLISTS);
    let mut html = String::new();
    pulldown_cmark::html::push_html(&mut html, pulldown_cmark::Parser::new_ext(markdown, options));
    html
}

#[test]
fn markdown_becomes_content() {
    assert_eq!(markdown_to_html("# A"), "<h1>A</h1>\n");
    assert_eq!(markdown_to_html(""), "");
    assert_eq!(markdown_to_html("a ~~b~~ c"), "<p>a <del>b</del> c</p>\n");
    assert_eq!(
        markdown_to_html("```mermaid\ngraph TD;\nA-->B;\n```\n"),
        "<div class=\"mermaid\">graph TD;\nA--&gt;B;\n</div>\n"
    );
}

#[test]
fn content_agrees_with_the_crates() {
    let documents = [
        "# Title\n\nText with `code` and a [link](http://x).\n",
        "| a | b |\n|---|---|\n| 1 | 2 |\n",
        "- [ ] open\n- [x] done\n",
        "```rust\nfn main() {}\n```\n\n```mermaid\ngraph LR;\nA-->B\n```\n\n```nosuch\nx\n```\n",
        "Footnote[^1].\n\n[^1]: The note.\n",
        "<div>raw</body> html</div>\n",
    ];
    for markdown in documents {
        assert_eq!(markdown_to_html(markdown), reference(&rendered(markdown)), "markdown {:?}", markdown);
    }
}

#[test]
fn code_is_highlighted() {
    let html = "<pre><code class=\"language-rust\">let x = 1;\n</code></pre>\n";
    let out = process_mermaid_diagrams(html);
    assert!(out.starts_with("<pre class=\"syntax-highlight language-rust\"><pre style=\"background-color:#2b303b;\">"));
    assert!(out.ends_with("</pre>\n</pre>\n"));
    assert!(!out.contains("<code"));
}

fn here_document(delimiter: &str, filler: usize) -> String {
    format!(
        "<pre><code class=\"language-rb\">x = &lt;&lt;{}\nbody\n{}\n{}</code></pre>\n",
        delimiter,
        delimiter,
        "#".repeat(filler)
    )
}

#[test]
fn highlight_limit() {
    assert_eq!(HIGHLIGHT_LIMIT, 10000);
}

#[test]
fn longest_code_is_highlighted() {
    let delimiter = "A".repeat(4990);
    let html = here_document(&delimiter, 7);
    let code_len = 2 * 4990 + "x = <<\nbody\n\n".len() + 7;
    assert_eq!(code_len, HIGHLIGHT_LIMIT);
    let out = process_mermaid_diagrams(&html);
    assert!(out.starts_with("<pre class=\"syntax-highlight language-rb\">"));
    assert_eq!(out, reference(&html));
}

#[test]
fn longest_code_of_wide_characters_is_highlighted() {
    let delimiter = "Ä".repeat(4990);
    let html = here_document(&delimiter, 0);
    let out = process_mermaid_diagrams(&html);
    assert!(out.starts_with("<pre class=\"syntax-highlight language-rb\">"));
    let wide = "\u{10400}".repeat(9990);
    let html = format!("<pre><code class=\"language-rb\">{}</code></pre>\n", wide);
    assert!(process_mermaid_diagrams(&html).starts_with("<pre class=\"syntax-highlight language-rb\">"));
}

#[test]
fn longer_code_is_left_alone() {
    let delimiter = "A".repeat(4990);
    let html = here_document(&delimiter, 8);
    assert_eq!(process_mermaid_diagrams(&html), html);
    let long = here_document(&"A".repeat(400000), 0);
    assert_eq!(process_mermaid_diagrams(&long), long);
}

#[test]
fn length_is_that_of_the_decoded_code() {
    let escaped = "&lt;".repeat(HIGHLIGHT_LIMIT);
    let html = format!("<pre><code class=\"language-txt\">{}</code></pre>\n", escaped);
    assert!(process_mermaid_diagrams(&html).starts_with("<pre class=\"syntax-highlight language-txt\">"));
    let html = format!("<pre><code class=\"language-txt\">{}x</code></pre>\n", escaped);
    assert_eq!(process_mermaid_diagrams(&html), html);
}

#[test]
fn entities_are_decoded_before_highlighting() {
    let html = "<pre><code class=\"language-txt\">a &lt; b &amp;&amp; c\n</code></pre>";
    let out = process_mermaid_diagrams(html);
    assert!(out.contains("a &lt; b &amp;&amp; c"));
    assert!(!out.contains("&amp;lt;"));
    assert!(!out.contains("&amp;amp;"));
}

#[test]
fn diagrams_get_diagram_markup() {
    let html = "<pre><code class=\"language-mermaid\">graph TD;\nA--&gt;B;\n</code></pre>\n<p>x</p>\n";
    assert_eq!(
        process_mermaid_diagrams(html),
        "<div class=\"mermaid\">graph TD;\nA--&gt;B;\n</div>\n<p>x</p>\n"
    );
}

#[test]
fn unknown_language_is_left_alone() {
    let html = "<pre><code class=\"language-nosuchlanguage\">x\n</code></pre>\n";
    assert_eq!(process_mermaid_diagrams(html), html);
}

#[test]
fn every_line_gets_a_line_feed() {
    assert_eq!(process_mermaid_diagrams("a\nb"), "a\nb\n");
    assert_eq!(process_mermaid_diagrams("a\r\nb\r\n"), "a\nb\n");
    assert_eq!(process_mermaid_diagrams(""), "");
    assert_eq!(process_mermaid_diagrams("\n"), "\n");
}

#[test]
fn code_end_outside_a_diagram_stays() {
    let html = "<p></code></pre></p>\n<div class=\"mermaid\">\n</code></pre>\n</code></pre>\n";
    assert_eq!(
        process_mermaid_diagrams(html),
        "<p></code></pre></p>\n<div class=\"mermaid\">\n</div>\n</code></pre>\n"
    );
}

#[test]
fn blocks_are_found_as_the_pattern_finds_them() {
    let re = regex::Regex::new(r#"<pre><code class="language-([^"]+)">([\s\S]*?)</code></pre>"#).unwrap();
    for html in SAMPLES {
        let source = chars(html);
        let mut found: Vec<(String, String, String)> = Vec::new();
        let mut at = 0;
        while at < source.len() {
            match scan_block(&source, at) {
                Some(block) => {
                    let end = block.code_end + "</code></pre>".len();
                    let lang_start = block.start + "<pre><code class=\"language-".len();
                    found.push((
                        source[block.start..end].iter().collect(),
                        source[lang_start..block.lang_end].iter().collect(),
                        source[block.lang_end + 2..block.code_end].iter().collect(),
                    ));
                    at = end;
                }
                None => at += 1,
            }
        }
        let expected: Vec<(String, String, String)> = re
            .captures_iter(html)
            .map(|cap| (cap[0].to_string(), cap[1].to_string(), cap[2].to_string()))
            .collect();
        assert_eq!(found, expected, "html {:?}", html);
    }
}

#[test]
fn block_positions() {
    let source = chars("ab<pre><code class=\"language-c\">int x;</code></pre>");
    assert_eq!(scan_block(&source, 0), None);
    assert_eq!(scan_block(&source, 2), Some(CodeBlock { start: 2, lang_end: 30, code_end: 38 }));
    assert_eq!(scan_block(&source, 3), None);
}

#[test]
fn block_is_replaced_wherever_it_stands() {
    let html = "<pre><code class=\"language-c\">x</code></pre>";
    let source = chars(html);
    let block = scan_block(&source, 0).unwrap();
    assert_eq!(text(block_lang(&source, block)), "c");
    let twice = chars(&format!("a{}b{}c", html, html));
    let out = replace_block(&source, block, &twice, &chars("<b>x</b>"));
    let form = "<pre class=\"syntax-highlight language-c\"><b>x</b></pre>";
    assert_eq!(text(out), format!("a{}b{}c", form, form));
    let elsewhere = replace_block(&source, block, &chars("no block here"), &chars("y"));
    assert_eq!(text(elsewhere), "no block here");
}

#[test]
fn scanning_past_the_end_finds_nothing() {
    let source = chars("<pre>");
    assert_eq!(scan_block(&source, 5), None);
    assert_eq!(scan_block(&source, 99), None);
    assert_eq!(scan_block(&[], 0), None);
}

#[test]
fn passes_compose() {
    for html in SAMPLES {
        let highlighted = highlight_blocks(&chars(html));
        let marked = mark_diagrams(&highlighted);
        assert_eq!(text(marked), process_mermaid_diagrams(html));
    }
}

#[test]
fn lines_are_the_standard_lines() {
    for s in ["", "a", "a\n", "a\nb", "a\r\nb", "a\rb", "\n", "\n\n", "\r\n", "a\r", "a\r\n\r\n", "\r", "ü\nδ\n"] {
        let parts: Vec<String> = split_lines(&chars(s)).into_iter().map(text).collect();
        let expected: Vec<String> = s.lines().map(|l| l.to_string()).collect();
        assert_eq!(parts, expected, "text {:?}", s);
    }
}
