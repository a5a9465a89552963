use actions_core::{
    escape_data, escape_property, issue_command, make_delimiter, write_file_command,
    CommandProperties,
};

fn unescape(text: &str, property: bool) -> String {
    let chars: Vec<char> = text.chars().collect();
    let mut out = String::new();
    let mut i = 0;
    while i < chars.len() {
        if chars[i] == '%' && i + 2 < chars.len() {
            let code = match (chars[i + 1], chars[i + 2]) {
                ('2', '5') => Some('%'),
                ('0', 'D') => Some('\r'),
                ('0', 'A') => Some('\n'),
                ('3', 'A') if property => Some(':'),
                ('2', 'C') if property => Some(','),
                _ => None,
            };
            if let Some(c) = code {
                out.push(c);
                i += 3;
                continue;
            }
        }
        out.push(chars[i]);
        i += 1;
    }
    out
}

fn read_line(line: &str) -> (String, Vec<(String, String)>, String) {
    let rest = &line[2..];
    let close = rest.find(':').unwrap();
    let head = &rest[..close];
    let message = unescape(&rest[close + 2..], false);
    match head.find(' ') {
        None => (head.to_string(), Vec::new(), message),
        Some(space) => {
            let mut properties = Vec::new();
            for piece in head[space + 1..].split(',') {
                let eq = piece.find('=').unwrap();
                properties.push((piece[..eq].to_string(), unescape(&piece[eq + 1..], true)));
            }
            (head[..space].to_string(), properties, message)
        },
    }
}

fn read_block(block: &str) -> (String, String) {
    let eol = block.find('\n').unwrap();
    let header = &block[..eol];
    let lt = header.find('<').unwrap();
    let delimiter = &header[lt + 2..];
    let body = &block[eol + 1..];
    let end = body.find(&format!("\n{delimiter}")).unwrap();
    (header[..lt].to_string(), body[..end].to_string())
}

#[test]
fn unescape_gives_back_escaped_data() {
    for s in ["", "plain", "100%\n", "%25", "%0A%0D", "a\r\nb%", "%%%", "x:y,z", "%2", "%"] {
        assert_eq!(unescape(&escape_data(s), false), s);
    }
}

#[test]
fn unescape_gives_back_escaped_property() {
    for s in ["", "plain", "100%\n", "%3A", "a:b,c", ",,::", "%2C%3A%25", "\r:\n,%"] {
        assert_eq!(unescape(&escape_property(s), true), s);
    }
}

#[test]
fn escaped_property_has_no_separator() {
    let e = escape_property("a:b,c\r\nd::,,");
    assert!(!e.contains(':'));
    assert!(!e.contains(','));
    assert!(!e.contains('\n'));
    assert!(!e.contains('\r'));
}

#[test]
fn reading_a_line_gives_back_the_command() {
    let mut p = CommandProperties::new();
    p.insert("file", "src/a,b.rs");
    p.insert("title", "50%: done\n");
    p.insert("col", "");
    let message = "::error::nested\r\n100% a=b,c";
    let line = issue_command("warning", &p, message);
    let (name, properties, read) = read_line(&line);
    assert_eq!(name, "warning");
    assert_eq!(
        properties,
        vec![
            (String::from("file"), String::from("src/a,b.rs")),
            (String::from("title"), String::from("50%: done\n")),
            (String::from("col"), String::from("")),
        ]
    );
    assert_eq!(read, message);
}

#[test]
fn reading_a_line_without_properties() {
    let p = CommandProperties::new();
    let line = issue_command("debug", &p, ":: a b ::");
    let (name, properties, read) = read_line(&line);
    assert_eq!(name, "debug");
    assert!(properties.is_empty());
    assert_eq!(read, ":: a b ::");
}

#[test]
fn a_line_is_one_line() {
    let mut p = CommandProperties::new();
    p.insert("k", "a\nb\rc");
    let line = issue_command("notice", &p, "x\ny\r\nz");
    assert!(!line.contains('\n'));
    assert!(!line.contains('\r'));
}

#[test]
fn reading_a_block_gives_back_key_and_value() {
    let value = "line1\nline2\n\nghadelimiter_\n<<EOF\n";
    let a = write_file_command("ENV", "/w/env", "MY_KEY", Some(String::from(value)), 99)
        .ok()
        .unwrap();
    let (key, read) = read_block(&a.text);
    assert_eq!(key, "MY_KEY");
    assert_eq!(read, value);
    assert!(a.text.ends_with(&format!("\n{}\n", make_delimiter(99))));
}
