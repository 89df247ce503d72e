use yaml_json::extension::Extensions::{Json, Yaml, Yml};
use yaml_json::extension::{
    extension_list, extension_to_string, glob_expression, recognize, unique_extensions, Extensions,
    Format,
};

#[test]
fn extensions_as_text() {
    assert_eq!(extension_to_string(&Extensions::Yaml), "yaml");
    assert_eq!(extension_to_string(&Extensions::Yml), "yml");
    assert_eq!(extension_to_string(&Extensions::Json), "json");
}

#[test]
fn yaml_and_yml_are_one_format() {
    assert_eq!(Extensions::Yaml.format(), Format::Yaml);
    assert_eq!(Extensions::Yml.format(), Format::Yaml);
    assert_eq!(Extensions::Json.format(), Format::Json);
    assert_eq!(Format::Yaml.name(), "YAML");
    assert_eq!(Format::Json.name(), "JSON");
}

#[test]
fn recognize_is_exact() {
    assert_eq!(recognize("yaml"), Some(Extensions::Yaml));
    assert_eq!(recognize("yml"), Some(Extensions::Yml));
    assert_eq!(recognize("json"), Some(Extensions::Json));
    for other in ["", "YAML", "Yml", "JSON", "json5", "jso", "yaml ", " yaml", ".yaml", "txt", "y"] {
        assert_eq!(recognize(other), None);
    }
    for ext in [Extensions::Yaml, Extensions::Yml, Extensions::Json] {
        assert_eq!(recognize(&extension_to_string(&ext)), Some(ext));
    }
}

#[test]
fn unique_extensions_keeps_first_occurrences() {
    assert_eq!(unique_extensions(&vec![]), vec![]);
    assert_eq!(unique_extensions(&vec![Yaml]), vec![Yaml]);
    assert_eq!(unique_extensions(&vec![Yaml, Yaml, Yaml]), vec![Yaml]);
    assert_eq!(unique_extensions(&vec![Yml, Yaml, Yml, Json, Yaml]), vec![Yml, Yaml, Json]);
    assert_eq!(unique_extensions(&vec![Json, Yml, Yaml]), vec![Json, Yml, Yaml]);
}

#[test]
fn extension_list_is_separated_by_commas() {
    assert_eq!(extension_list(&vec![]), "");
    assert_eq!(extension_list(&vec![Json]), "json");
    assert_eq!(extension_list(&vec![Yaml, Yml]), "yaml,yml");
    assert_eq!(extension_list(&vec![Yaml, Yml, Json]), "yaml,yml,json");
    assert_eq!(extension_list(&vec![Json, Json, Yaml, Json, Yaml]), "json,yaml");
}

#[test]
fn glob_expression_wraps_the_list() {
    assert_eq!(glob_expression("yaml"), "**/*.{yaml}");
    assert_eq!(glob_expression("yaml,yml"), "**/*.{yaml,yml}");
    assert_eq!(glob_expression(""), "**/*.{}");
    assert_eq!(
        glob_expression(&extension_list(&vec![Extensions::Json, Extensions::Yml])),
        "**/*.{json,yml}"
    );
}
