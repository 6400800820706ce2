use marv::registry::{companion_path, is_record_file, read_server_info, ServerRecord};
use marv::renderer::scan_block;
use marv::text::{find, replace, split_lines, trim_bounds};

/// A small generator of repeatable pseudo-random numbers.
struct Numbers(u64);

impl Numbers {
    fn next(&mut self, below: usize) -> usize {
        self.0 = self.0.wrapping_mul(6364136223846793005).wrapping_add(1442695040888963407);
        ((self.0 >> 33) as usize) % below
    }

    fn text(&mut self, pieces: &[&str], most: usize) -> String {
        let count = self.next(most + 1);
        let mut text = String::new();
        for _ in 0..count {
            text.push_str(pieces[self.next(pieces.len())]);
        }
        text
    }
}

fn chars(s: &str) -> Vec<char> {
    s.chars().collect()
}

#[test]
fn blocks_agree_with_the_pattern_on_many_texts() {
    let re = regex::Regex::new(r#"<pre><code class="language-([^"]+)">([\s\S]*?)</code></pre>"#).unwrap();
    let pieces = [
        "<pre><code class=\"language-", "\"", ">", "\">", "</code></pre>", "rust", "mermaid", "x", "\n",
        "<pre>", "</code>", "</pre>", "ü", " ", "<pre><code>", "<pre><code class=\"language-c\">",
    ];
    let mut numbers = Numbers(7);
    for _ in 0..3000 {
        let html = numbers.text(&pieces, 12);
        let source = chars(&html);
        let mut found: Vec<(String, String, String)> = Vec::new();
        let mut at = 0;
        while at < source.len() {
            match scan_block(&source, at) {
                Some(block) => {
                    let end = block.code_end + 13;
                    found.push((
                        source[block.start..end].iter().collect(),
                        source[block.start + 27..block.lang_end].iter().collect(),
                        source[block.lang_end + 2..block.code_end].iter().collect(),
                    ));
                    at = end;
                }
                None => at += 1,
            }
        }
        let expected: Vec<(String, String, String)> = re
            .captures_iter(&html)
            .map(|cap| (cap[0].to_string(), cap[1].to_string(), cap[2].to_string()))
            .collect();
        assert_eq!(found, expected, "html {:?}", html);
    }
}

#[test]
fn replacing_agrees_with_the_standard_library_on_many_texts() {
    let pieces = ["a", "b", "ab", "ba", "</body>", "<", "ü", "\n"];
    let mut numbers = Numbers(11);
    for _ in 0..3000 {
        let text = numbers.text(&pieces, 10);
        let pat = numbers.text(&pieces, 2);
        let with = numbers.text(&pieces, 3);
        if pat.is_empty() {
            continue;
        }
        let out: String = replace(&chars(&text), &chars(&pat), &chars(&with)).into_iter().collect();
        assert_eq!(out, text.replace(&pat, &with), "{:?} {:?} {:?}", text, pat, with);
        let place = find(&chars(&text), &chars(&pat));
        let expected = text.find(&pat).map(|byte| text[..byte].chars().count());
        assert_eq!(place, expected, "{:?} {:?}", text, pat);
    }
}

#[test]
fn lines_and_trimming_agree_with_the_standard_library_on_many_texts() {
    let pieces = ["a", " ", "\n", "\r", "\r\n", "\t", "\u{a0}", "ü", "\u{2028}", "\u{85}", "b c"];
    let mut numbers = Numbers(13);
    for _ in 0..3000 {
        let text = numbers.text(&pieces, 10);
        let source = chars(&text);
        let parts: Vec<String> = split_lines(&source).into_iter().map(|l| l.into_iter().collect()).collect();
        let expected: Vec<String> = text.lines().map(|l| l.to_string()).collect();
        assert_eq!(parts, expected, "text {:?}", text);
        let (from, to) = trim_bounds(&source);
        let trimmed: String = source[from..to].iter().collect();
        assert_eq!(trimmed, text.trim(), "text {:?}", text);
    }
}

#[test]
fn companions_agree_with_the_standard_library_on_many_paths() {
    let pieces = [
        "/", "/", ".", "..", "a", "b.c", ".server", ".server", "server", ".x", "x.", " ", "ü", "./", "k.server",
    ];
    let mut numbers = Numbers(19);
    let mut with_companion = 0;
    for _ in 0..20000 {
        let path = numbers.text(&pieces, 6);
        if let Some(companion) = companion_path(&path) {
            let expected = std::path::Path::new(&path).with_extension("filepath");
            assert_eq!(companion, expected.to_string_lossy(), "path {:?}", path);
            assert!(path.ends_with(".server"));
            with_companion += 1;
        }
        let expected = std::path::Path::new(&path).extension().map(|e| e == "server").unwrap_or(false);
        if !path.contains('/') {
            assert_eq!(is_record_file(&path), expected, "name {:?}", path);
        }
    }
    assert!(with_companion > 1000);
}

#[test]
fn records_agree_with_the_standard_library_on_many_texts() {
    let pieces = ["0", "1", "4", "9", "65535", "6553", "42949", "67295", ":", "+", "-", " ", "\n", "x"];
    let mut numbers = Numbers(17);
    for _ in 0..5000 {
        let content = numbers.text(&pieces, 7);
        let parts: Vec<&str> = content.trim().split(':').collect();
        let expected = if parts.len() != 2 {
            None
        } else {
            match (parts[0].parse::<u16>(), parts[1].parse::<u32>()) {
                (Ok(port), Ok(pid)) => Some(ServerRecord { port, pid }),
                _ => None,
            }
        };
        assert_eq!(read_server_info(&content).ok(), expected, "content {:?}", content);
    }
}
