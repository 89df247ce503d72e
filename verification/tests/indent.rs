use yaml_json::indent::{
    format_file, format_indentation, rescale, rescale_lines, IndentStyle, ScaleFactor,
    CANONICAL_WIDTH,
};

fn factor(numer: usize, denom: usize) -> ScaleFactor {
    ScaleFactor::new(numer, denom).unwrap()
}

fn chars(s: &str) -> Vec<char> {
    s.chars().collect()
}

#[test]
fn format_file_test() {
    assert_eq!(
        format_file("hello\n  world\n    there", 2, IndentStyle::Space),
        "hello\n  world\n    there"
    );

    assert_eq!(
        format_file("hello\n  world\n    there", 4, IndentStyle::Space),
        "hello\n    world\n        there"
    );

    assert_eq!(
        format_file("hello\n  world\n    there", 2, IndentStyle::Tab),
        "hello\n\t\tworld\n\t\t\t\tthere"
    );
}

#[test]
fn format_indentation_test() {
    assert_eq!(
        format_indentation("    hello world", factor(1, 1), IndentStyle::Tab),
        "\t\t\t\thello world"
    );
    assert_eq!(
        format_indentation("  hello world", factor(2, 1), IndentStyle::Tab),
        "\t\t\t\thello world"
    );
    assert_eq!(
        format_indentation("  hello world", factor(1, 2), IndentStyle::Tab),
        "\thello world"
    );
    assert_eq!(
        format_indentation("   hello world", factor(1, 3), IndentStyle::Tab),
        "\thello world"
    );

    assert_eq!(
        format_indentation("   hello world", factor(1, 1), IndentStyle::Space),
        "   hello world"
    );

    assert_eq!(
        format_indentation("  hello world", factor(2, 1), IndentStyle::Space),
        "    hello world"
    );
}

#[test]
fn canonical_width_is_two() {
    assert_eq!(CANONICAL_WIDTH, 2);
}

#[test]
fn scale_factor_needs_a_denominator() {
    assert!(ScaleFactor::new(1, 0).is_none());
    assert!(ScaleFactor::new(0, 0).is_none());
    assert!(ScaleFactor::new(0, 1).is_some());
    assert!(ScaleFactor::new(7, 3).is_some());
}

#[test]
fn glyphs_of_the_styles() {
    assert_eq!(IndentStyle::Space.glyph(), ' ');
    assert_eq!(IndentStyle::Tab.glyph(), '\t');
}

#[test]
fn factor_one_in_spaces_is_identity() {
    let samples = [
        "",
        "a",
        "   a",
        " \tmixed",
        "\t  tab first",
        "      ",
        "  two\n  lines",
        "  caf\u{e9} \u{1F600}",
    ];
    for line in samples {
        assert_eq!(format_indentation(line, factor(1, 1), IndentStyle::Space), line);
        assert_eq!(format_indentation(line, factor(5, 5), IndentStyle::Space), line);
        assert_eq!(format_indentation(line, ScaleFactor::of_width(2), IndentStyle::Space), line);
    }
}

#[test]
fn product_is_rounded_down() {
    // 3 * 3 / 2 = 4.5
    assert_eq!(format_indentation("   x", factor(3, 2), IndentStyle::Space), "    x");
    // 1 * 3 / 2 = 1.5
    assert_eq!(format_indentation(" x", factor(3, 2), IndentStyle::Space), " x");
    // 5 * 1 / 2 = 2.5
    assert_eq!(format_indentation("     x", factor(1, 2), IndentStyle::Tab), "\t\tx");
    // 1 * 1 / 2 = 0.5
    assert_eq!(format_indentation(" x", factor(1, 2), IndentStyle::Space), "x");
    // 2 * 2 / 3 = 1.33
    assert_eq!(format_indentation("  x", factor(2, 3), IndentStyle::Space), " x");
    // 7 * 5 / 4 = 8.75
    assert_eq!(format_indentation("       x", factor(5, 4), IndentStyle::Space), "        x");
}

#[test]
fn factor_zero_removes_the_run() {
    assert_eq!(format_indentation("      x y", factor(0, 1), IndentStyle::Space), "x y");
    assert_eq!(format_indentation("      x y", factor(0, 9), IndentStyle::Tab), "x y");
    assert_eq!(format_file("a\n  b\n    c\n", 0, IndentStyle::Space), "a\nb\nc\n");
}

#[test]
fn line_without_leading_space_is_untouched() {
    let lines = ["", "x", "x  y", "\tx", "\t  x", "#  comment", "- item", "\u{a0}x"];
    let factors = [factor(0, 1), factor(1, 2), factor(1, 1), factor(3, 2), factor(8, 1)];
    for line in lines {
        for f in factors {
            assert_eq!(format_indentation(line, f, IndentStyle::Space), line);
            assert_eq!(format_indentation(line, f, IndentStyle::Tab), line);
        }
        for width in 0..9 {
            assert_eq!(format_file(line, width, IndentStyle::Space), line);
            assert_eq!(format_file(line, width, IndentStyle::Tab), line);
        }
    }
}

#[test]
fn only_spaces_count_as_indentation() {
    // The run ends at the tab: two spaces are scaled, the tab and the
    // spaces after it are content.
    assert_eq!(format_indentation("  \t  x", factor(2, 1), IndentStyle::Space), "    \t  x");
    assert_eq!(format_indentation("  \t  x", factor(1, 1), IndentStyle::Tab), "\t\t\t  x");
}

#[test]
fn a_line_of_spaces_is_all_run() {
    assert_eq!(format_indentation("    ", factor(1, 2), IndentStyle::Space), "  ");
    assert_eq!(format_indentation("    ", factor(1, 1), IndentStyle::Tab), "\t\t\t\t");
    assert_eq!(format_indentation("  ", factor(3, 1), IndentStyle::Space), "      ");
}

#[test]
fn rescale_on_characters() {
    assert_eq!(rescale(&chars("  ab"), factor(3, 2), IndentStyle::Tab), chars("\t\t\tab"));
    assert_eq!(rescale(&chars(""), factor(3, 2), IndentStyle::Tab), chars(""));
    let lines = vec![chars("a"), chars("  b"), chars("    c")];
    assert_eq!(
        rescale_lines(&lines, factor(2, 1), IndentStyle::Space),
        vec![chars("a"), chars("    b"), chars("        c")]
    );
    assert_eq!(rescale_lines(&Vec::new(), factor(2, 1), IndentStyle::Space), Vec::<Vec<char>>::new());
}

#[test]
fn canonical_rendering_is_identity() {
    let docs = [
        "",
        "\n",
        "\n\n\n",
        "a: 1\n",
        "a:\n  b:\n    c: 1\n",
        "a:\n  b:\n    c: 1",
        "a: |\n  text\n   odd\n",
        "a\r\n  b\r\n",
        "   odd\n     odder\n",
        "{\n  \"x\": {\n    \"y\": 1\n  }\n}",
        "  caf\u{e9}:\n    - \u{1F600}\n",
    ];
    for doc in docs {
        assert_eq!(format_file(doc, 2, IndentStyle::Space), doc);
    }
}

#[test]
fn even_widths_multiply_every_level() {
    let doc = "a:\n  b:\n    c:\n      d: 1\n  e: 2\nf: 3\n";
    assert_eq!(
        format_file(doc, 4, IndentStyle::Space),
        "a:\n    b:\n        c:\n            d: 1\n    e: 2\nf: 3\n"
    );
    assert_eq!(
        format_file(doc, 6, IndentStyle::Space),
        "a:\n      b:\n            c:\n                  d: 1\n      e: 2\nf: 3\n"
    );
    for k in 0usize..6 {
        let out = format_file(doc, 2 * k, IndentStyle::Space);
        let before: Vec<&str> = doc.split('\n').collect();
        let after: Vec<&str> = out.split('\n').collect();
        assert_eq!(before.len(), after.len());
        for (b, a) in before.iter().zip(after.iter()) {
            let depth = (b.len() - b.trim_start_matches(' ').len()) / 2;
            let run = a.len() - a.trim_start_matches(' ').len();
            assert_eq!(run, depth * 2 * k);
            assert_eq!(a.trim_start_matches(' '), b.trim_start_matches(' '));
        }
    }
}

#[test]
fn odd_widths_round_each_line_down() {
    let doc = "a\n b\n  c\n   d\n    e\n     f\n      g";
    assert_eq!(
        format_file(doc, 3, IndentStyle::Space),
        "a\n b\n   c\n    d\n      e\n       f\n         g"
    );
    assert_eq!(format_file(doc, 1, IndentStyle::Space), "a\nb\n c\n d\n  e\n  f\n   g");
    assert_eq!(
        format_file(doc, 5, IndentStyle::Tab),
        "a\n\t\tb\n\t\t\t\t\tc\n\t\t\t\t\t\t\td\n\t\t\t\t\t\t\t\t\t\te\n\t\t\t\t\t\t\t\t\t\t\t\tf\n\t\t\t\t\t\t\t\t\t\t\t\t\t\t\tg"
    );
}

#[test]
fn tabs_at_canonical_width_replace_space_for_space() {
    let doc = "a:\n  b:\n    c: 1\n   odd\n";
    let out = format_file(doc, 2, IndentStyle::Tab);
    assert_eq!(out, "a:\n\t\tb:\n\t\t\t\tc: 1\n\t\t\todd\n");
    assert_eq!(out.split('\n').count(), doc.split('\n').count());
    assert_eq!(out.chars().count(), doc.chars().count());
}

#[test]
fn tabs_at_width_one_give_one_tab_a_level() {
    assert_eq!(
        format_file("a:\n  b:\n    c: 1\n", 1, IndentStyle::Tab),
        "a:\n\tb:\n\t\tc: 1\n"
    );
}

#[test]
fn every_physical_line_is_rescaled() {
    // The lines of a block scalar are indented like any other line.
    assert_eq!(
        format_file("a: |\n  first\n    second\n", 4, IndentStyle::Space),
        "a: |\n    first\n        second\n"
    );
}

#[test]
fn newlines_are_kept_where_they_are() {
    assert_eq!(format_file("\n", 4, IndentStyle::Space), "\n");
    assert_eq!(format_file("\n\n", 4, IndentStyle::Tab), "\n\n");
    assert_eq!(format_file("  a\n", 4, IndentStyle::Space), "    a\n");
    assert_eq!(format_file("  a\n\n  b\n\n", 4, IndentStyle::Space), "    a\n\n    b\n\n");
    assert_eq!(format_file("\n  a", 4, IndentStyle::Space), "\n    a");
    assert_eq!(format_file("  a\r\n  b\r\n", 4, IndentStyle::Space), "    a\r\n    b\r\n");
    assert_eq!(format_file("  a\r  b", 4, IndentStyle::Space), "    a\r  b");
}

#[test]
fn line_count_is_preserved() {
    let docs = ["", "a", "a\n", "\n\n", "  a\n    b\n", "a\n\n\n  b", " \n  \n   \n"];
    for doc in docs {
        for width in 0..7 {
            for style in [IndentStyle::Space, IndentStyle::Tab] {
                let out = format_file(doc, width, style);
                assert_eq!(out.split('\n').count(), doc.split('\n').count());
            }
        }
    }
}
