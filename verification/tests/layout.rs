use modulo::layout::{parse_layout, Token};
use regex::Regex;

fn text(s: &str) -> Token {
    Token::Text(s.to_owned())
}

fn field(s: &str) -> Token {
    Token::Field(s.to_owned())
}

#[test]
fn test_parse_layout() {
    let layout = "Hey {{name}},\nHow are you?\n  \nCheers";
    let result = parse_layout(layout);
    assert_eq!(
        result,
        vec![
            vec![
                Token::Text("Hey ".to_owned()),
                Token::Field("name".to_owned()),
                Token::Text(",".to_owned())
            ],
            vec![Token::Text("How are you?".to_owned())],
            vec![Token::Text("Cheers".to_owned())],
        ]
    );
}

#[test]
fn empty_layout_has_no_rows() {
    assert_eq!(parse_layout(""), Vec::<Vec<Token>>::new());
    assert_eq!(parse_layout("  \n\t\n\r\n"), Vec::<Vec<Token>>::new());
}

#[test]
fn field_alone_on_a_line() {
    assert_eq!(parse_layout("{{name}}"), vec![vec![field("name")]]);
    assert_eq!(parse_layout("   {{name}}  \r\n"), vec![vec![field("name")]]);
}

#[test]
fn empty_placeholder_is_a_field_with_empty_name() {
    assert_eq!(parse_layout("a{{}}b"), vec![vec![text("a"), field(""), text("b")]]);
}

#[test]
fn placeholder_is_greedy() {
    assert_eq!(
        parse_layout("{{a}} and {{b}}"),
        vec![vec![field("a}} and {{b")]]
    );
    assert_eq!(parse_layout("x{{{a}}}y"), vec![vec![text("x"), field("{a}"), text("y")]]);
}

#[test]
fn unclosed_placeholder_is_text() {
    assert_eq!(parse_layout("a {{b"), vec![vec![text("a {{b")]]);
    assert_eq!(parse_layout("}} {{"), vec![vec![text("}} {{")]]);
    assert_eq!(parse_layout("{{}"), vec![vec![text("{{}")]]);
}

#[test]
fn lines_are_trimmed_of_unicode_whitespace() {
    assert_eq!(
        parse_layout("\u{3000}Name: {{n}}\u{a0}\n\u{2003}x"),
        vec![vec![text("Name: "), field("n")], vec![text("x")]]
    );
}

/// The reference behaviour: the layout split into lines, trimmed, blank
/// lines skipped, and each line cut around the matches of the field pattern.
fn reference(layout: &str) -> Vec<Vec<Token>> {
    let re = Regex::new(r"\{\{(.*)\}\}").unwrap();
    let mut rows = Vec::new();
    for line in layout.lines() {
        let line = line.trim();
        if line.is_empty() {
            continue;
        }
        let mut row = Vec::new();
        let mut last = 0;
        for caps in re.captures_iter(line) {
            let m = caps.get(0).unwrap();
            if m.start() > last {
                row.push(Token::Text(line[last..m.start()].to_owned()));
            }
            row.push(Token::Field(caps.get(1).unwrap().as_str().to_owned()));
            last = m.end();
        }
        if last < line.len() {
            row.push(Token::Text(line[last..].to_owned()));
        }
        rows.push(row);
    }
    rows
}

#[test]
fn agrees_with_the_field_pattern() {
    let samples = [
        "Hey {{name}},\nHow are you?\n  \nCheers",
        "{{a}}{{b}}\n{{c}} x {{d}} y",
        "{{{{}}}}",
        "{{ }}\n\n\n{{}}}",
        "é{{ü}}ß\r\n  ∑ {{λ}} ∂  ",
        "{\n{{\n}}\n{{}\n{}}",
        "no fields here\nat all",
        "{{x}}}}}",
        "{{{{x}}",
        "a\rb{{c}}d\r",
    ];
    for s in samples.iter() {
        assert_eq!(parse_layout(s), reference(s), "layout {:?}", s);
    }
    let alphabet = ['{', '}', 'a', ' ', '\n'];
    for n in 0..6u32 {
        let total = 5usize.pow(n);
        for code in 0..total {
            let mut c = code;
            let mut s = String::new();
            for _ in 0..n {
                s.push(alphabet[c % 5]);
                c /= 5;
            }
            assert_eq!(parse_layout(&s), reference(&s), "layout {:?}", s);
        }
    }
}
