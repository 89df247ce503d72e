use yaml_json::lines::{join, split};

fn text(s: &str) -> Vec<char> {
    s.chars().collect()
}

fn lines(all: &[&str]) -> Vec<Vec<char>> {
    all.iter().map(|s| text(s)).collect()
}

#[test]
fn split_cuts_at_every_newline() {
    assert_eq!(split(&text("")), lines(&[""]));
    assert_eq!(split(&text("a")), lines(&["a"]));
    assert_eq!(split(&text("a\n")), lines(&["a", ""]));
    assert_eq!(split(&text("\n")), lines(&["", ""]));
    assert_eq!(split(&text("\n\n")), lines(&["", "", ""]));
    assert_eq!(split(&text("a\nb")), lines(&["a", "b"]));
    assert_eq!(split(&text("a\n\nb\n")), lines(&["a", "", "b", ""]));
    assert_eq!(split(&text("\na")), lines(&["", "a"]));
}

#[test]
fn split_keeps_carriage_returns() {
    assert_eq!(split(&text("a\r\nb\r\n")), lines(&["a\r", "b\r", ""]));
    assert_eq!(split(&text("a\rb")), lines(&["a\rb"]));
}

#[test]
fn join_puts_one_newline_between_lines() {
    assert_eq!(join(&lines(&[])), text(""));
    assert_eq!(join(&lines(&[""])), text(""));
    assert_eq!(join(&lines(&["a"])), text("a"));
    assert_eq!(join(&lines(&["a", "b"])), text("a\nb"));
    assert_eq!(join(&lines(&["a", ""])), text("a\n"));
    assert_eq!(join(&lines(&["", "", ""])), text("\n\n"));
    assert_eq!(join(&lines(&["", "a", "", "b"])), text("\na\n\nb"));
}

#[test]
fn join_undoes_split() {
    let docs = ["", "a", "a\n", "\n", "\n\n\n", "a\nb", "a\r\nb\n", "  x:\n    y\n\n", "\u{e9}\n\u{1F600}"];
    for doc in docs {
        assert_eq!(join(&split(&text(doc))), text(doc));
    }
}

#[test]
fn split_undoes_join() {
    let cases: [&[&str]; 5] = [&[""], &["a"], &["a", "b", "c"], &["", "", ""], &["  a", "", "\tb\r"]];
    for case in cases {
        let all = lines(case);
        assert_eq!(split(&join(&all)), all);
    }
}

#[test]
fn split_lines_hold_no_newline() {
    let docs = ["", "\n", "a\nb\n\nc", "\n\n\n\n"];
    for doc in docs {
        let parts = split(&text(doc));
        assert!(!parts.is_empty());
        assert_eq!(parts.len(), doc.matches('\n').count() + 1);
        for part in parts {
            assert!(!part.contains(&'\n'));
        }
    }
}

