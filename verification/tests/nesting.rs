use yaml_json::bridge::{
    convert, convert_formats, json_to_json, json_to_yaml, nesting_error, ConvertError,
};
use yaml_json::document::{convert_document, convert_file, IndentSpec};
use yaml_json::extension::Format;
use yaml_json::indent::IndentStyle;
use yaml_json::nesting::{nesting, MAX_NESTING};

fn nested(open: &str, levels: usize, close: &str) -> String {
    format!("{}{}", open.repeat(levels), close.repeat(levels))
}

fn too_deep() -> Result<String, ConvertError> {
    Err(ConvertError::Parse(Format::Json, "nested deeper than 128 levels".to_string()))
}

#[test]
fn the_limit_is_128_levels() {
    assert_eq!(MAX_NESTING, 128);
    assert_eq!(nesting_error(), too_deep().unwrap_err());
    assert_eq!(nesting_error().message(), "Invalid JSON: nested deeper than 128 levels");
}

#[test]
fn nesting_counts_open_brackets() {
    assert_eq!(nesting(""), 0);
    assert_eq!(nesting("1"), 0);
    assert_eq!(nesting("[]"), 1);
    assert_eq!(nesting("{}"), 1);
    assert_eq!(nesting("[[1],[2,[3]]]"), 3);
    assert_eq!(nesting("{a:[{b:1}],c:{d:{e:{f:[]}}}}"), 5);
    assert_eq!(nesting("[1,2,3] "), 1);
    assert_eq!(nesting("[[],[],[],[]]"), 2);
    assert_eq!(nesting(&nested("[", 40, "]")), 40);
    assert_eq!(nesting(&nested("{a:", 7, "}")), 7);
}

#[test]
fn nesting_counts_what_is_not_closed() {
    assert_eq!(nesting("["), 1);
    assert_eq!(nesting("[[[["), 4);
    assert_eq!(nesting("[{[{"), 4);
    assert_eq!(nesting("]]]["), 1);
    assert_eq!(nesting("[]]]]][["), 2);
    assert_eq!(nesting("[}{]"), 1);
}

#[test]
fn nesting_skips_strings() {
    assert_eq!(nesting("\"[[[\""), 0);
    assert_eq!(nesting("'{{{'"), 0);
    assert_eq!(nesting("[\"[[[\", '{{']"), 1);
    assert_eq!(nesting("\"]]]\" [[["), 3);
    assert_eq!(nesting("[\"]\", [\"]\", []]]"), 3);
    // The other quote does not close a string.
    assert_eq!(nesting("\"'[\" ["), 1);
    assert_eq!(nesting("'\"[' ["), 1);
    // An escaped quote does not close it, an escaped backslash escapes nothing.
    assert_eq!(nesting("\"a\\\"[[\""), 0);
    assert_eq!(nesting("\"a\\\\\"[["), 2);
    assert_eq!(nesting("'\\'[' ["), 1);
    assert_eq!(nesting("\"\\u005b\" ["), 1);
    // A string that is not closed runs to the end.
    assert_eq!(nesting("[\"[[[["), 1);
}

#[test]
fn nesting_skips_comments() {
    assert_eq!(nesting("// [[[\n[]"), 1);
    assert_eq!(nesting("// [[[\r[]"), 1);
    assert_eq!(nesting("// [[[\u{2028}[]"), 1);
    assert_eq!(nesting("// [[[\u{2029}[[]]"), 2);
    assert_eq!(nesting("// [[[ \" ' [[["), 0);
    assert_eq!(nesting("/* [[[ */ []"), 1);
    assert_eq!(nesting("/* [\n[ */ []"), 1);
    assert_eq!(nesting("/**/["), 1);
    assert_eq!(nesting("/***/["), 1);
    assert_eq!(nesting("/* * / [ */ {"), 1);
    assert_eq!(nesting("/* \" */ [ /* ' */ ["), 2);
    assert_eq!(nesting("[ /* ] */ [ // ]\n ["), 3);
    assert_eq!(nesting("/* [[["), 0);
    // A quote in a comment opens no string, a comment in a string is text.
    assert_eq!(nesting("// \"\n["), 1);
    assert_eq!(nesting("\"//\" ["), 1);
    assert_eq!(nesting("\"/*\" [ \"*/\""), 1);
    // A slash that opens no comment is read over.
    assert_eq!(nesting("/["), 1);
    assert_eq!(nesting("/ /["), 1);
}

#[test]
fn the_deepest_text_that_is_converted() {
    let deepest = nested("[", 128, "]");
    assert_eq!(nesting(&deepest), 128);
    assert_eq!(json_to_json(&deepest), Ok(deepest.clone()));
    let yaml = json_to_yaml(&deepest).unwrap();
    let back: serde_json::Value = serde_yaml::from_str(&yaml).unwrap();
    let parsed = json5::from_str::<serde_json::Value>(&deepest).unwrap();
    assert_eq!(back, parsed);

    let objects = format!("{}1{}", "{\"a\":".repeat(128), "}".repeat(128));
    assert_eq!(nesting(&objects), 128);
    assert_eq!(json_to_json(&objects), Ok(objects.clone()));
    assert!(json_to_yaml(&objects).is_ok());
}

#[test]
fn deeper_text_is_refused_unparsed() {
    let deeper = nested("[", 129, "]");
    assert_eq!(nesting(&deeper), 129);
    assert_eq!(json_to_json(&deeper), too_deep());
    assert_eq!(json_to_yaml(&deeper), too_deep());
    assert_eq!(convert_formats(&deeper, Format::Json, Format::Json), too_deep());
    assert_eq!(convert_formats(&deeper, Format::Json, Format::Yaml), too_deep());
    assert_eq!(convert(&deeper, "json", "yml"), too_deep());
    assert_eq!(convert_document(&deeper, "json", "yaml", IndentSpec::default()), too_deep());
    assert_eq!(convert_file(IndentStyle::Tab, "a.json", "b.json", 4, &deeper), too_deep());

    let objects = format!("{}1{}", "{a:".repeat(129), "}".repeat(129));
    assert_eq!(json_to_yaml(&objects), too_deep());

    // Whether the brackets are ever closed makes no difference.
    let open = "[".repeat(100_000);
    assert_eq!(nesting(&open), 100_000);
    assert_eq!(json_to_json(&open), too_deep());
    assert_eq!(json_to_yaml(&open), too_deep());
    let mixed = "[{\"a\":".repeat(50_000);
    assert_eq!(json_to_json(&mixed), too_deep());
}

#[test]
fn wide_text_is_not_deep() {
    let wide = format!("[{}[]]", "[],".repeat(10_000));
    assert_eq!(nesting(&wide), 2);
    assert!(json_to_json(&wide).is_ok());

    let quoted = format!("[\"{}\"]", "[".repeat(1_000));
    assert_eq!(nesting(&quoted), 1);
    assert_eq!(json_to_json(&quoted), Ok(quoted.clone()));

    let commented = format!("/* {} */ [1] // {}", "[".repeat(1_000), "{".repeat(1_000));
    assert_eq!(nesting(&commented), 1);
    assert_eq!(json_to_json(&commented), Ok("[1]".to_string()));
}

#[test]
fn yaml_is_bounded_by_its_own_parser() {
    let deep = nested("[", 200, "]");
    let refused = serde_yaml::from_str::<serde_yaml::Value>(&deep).unwrap_err().to_string();
    assert_eq!(
        convert(&deep, "yaml", "yaml"),
        Err(ConvertError::Parse(Format::Yaml, refused.clone()))
    );
    assert_eq!(convert(&deep, "yaml", "json"), Err(ConvertError::Parse(Format::Yaml, refused)));
    let fine = nested("[", 100, "]");
    assert!(convert(&fine, "yaml", "json").is_ok());
}

fn value_depth(value: &serde_json::Value) -> usize {
    match value {
        serde_json::Value::Array(items) => 1 + items.iter().map(value_depth).max().unwrap_or(0),
        serde_json::Value::Object(entries) => {
            1 + entries.values().map(value_depth).max().unwrap_or(0)
        }
        _ => 0,
    }
}

fn next(seed: &mut u64) -> usize {
    *seed = seed.wrapping_mul(6364136223846793005).wrapping_add(1442695040888963407);
    (*seed >> 33) as usize
}

fn filler(seed: &mut u64) -> &'static str {
    const FILLERS: [&str; 10] = [
        "",
        " ",
        "\n",
        " // ]]] [[[ \" ' */\n",
        "/* [[[ {{{ \" ' // */",
        "/**/",
        "/* * / ]]] **/",
        "\t// }\r",
        " //\u{2028}",
        "/* \n */ ",
    ];
    FILLERS[next(seed) % FILLERS.len()]
}

fn scalar(seed: &mut u64) -> &'static str {
    const SCALARS: [&str; 14] = [
        "1",
        "-2.5e3",
        "null",
        "true",
        "0x1F",
        "Infinity",
        "\"\"",
        "\"[[[\"",
        "']]]{{{'",
        "\"a\\\"[\\\\\"",
        "'it\\'s [ \" ]'",
        "\"// [\"",
        "'/* { */'",
        "\"\\u005B\\x5b \\\n [\"",
    ];
    SCALARS[next(seed) % SCALARS.len()]
}

fn key(seed: &mut u64, index: usize) -> String {
    match next(seed) % 6 {
        0 => format!("a{}", index),
        1 => format!("$b{}", index),
        2 => format!("_c{}", index),
        3 => format!("\"[d{}\"", index),
        4 => format!("'e]{}'", index),
        _ => format!("\"f\\\"{{{}\"", index),
    }
}

fn render(seed: &mut u64, budget: usize, out: &mut String) {
    out.push_str(filler(seed));
    let kind = if budget == 0 { 0 } else { next(seed) % 3 };
    if kind == 0 {
        out.push_str(scalar(seed));
    } else {
        let len = next(seed) % 4;
        out.push(if kind == 1 { '[' } else { '{' });
        for i in 0..len {
            out.push_str(filler(seed));
            if kind == 2 {
                out.push_str(&key(seed, i));
                out.push_str(filler(seed));
                out.push(':');
            }
            render(seed, budget - 1, out);
            out.push_str(filler(seed));
            if i + 1 < len || next(seed) % 2 == 0 {
                out.push(',');
            }
        }
        out.push_str(filler(seed));
        out.push(if kind == 1 { ']' } else { '}' });
    }
    out.push_str(filler(seed));
}

#[test]
fn nesting_is_the_depth_of_what_the_parser_builds() {
    let mut seed: u64 = 2024;
    for round in 0..400 {
        let mut text = String::new();
        render(&mut seed, 1 + round % 9, &mut text);
        let parsed = json5::from_str::<serde_json::Value>(&text);
        assert!(parsed.is_ok());
        assert_eq!(nesting(&text), value_depth(&parsed.unwrap()));
    }
}

#[test]
fn nesting_bounds_the_depth_where_the_parser_stops() {
    // Cut anywhere, a text is no deeper than the whole.
    let mut seed: u64 = 7;
    for _ in 0..50 {
        let mut text = String::new();
        render(&mut seed, 6, &mut text);
        let whole = nesting(&text);
        let chars: Vec<char> = text.chars().collect();
        for cut in 0..chars.len() {
            let part: String = chars[..cut].iter().collect();
            assert!(nesting(&part) <= whole);
        }
    }
}
