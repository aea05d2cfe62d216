use dprint_core::configuration::{ConfigKeyMap, ConfigKeyValue};
use dprint_plugin_tex_fmt::plugin::{formatting_outcome, format_options};
use dprint_plugin_tex_fmt::{FormatError, GlobalOptions, IndentChar, PluginHandler};

fn make_handler() -> PluginHandler {
    PluginHandler::new()
}

fn format_with(src: &[u8], config: ConfigKeyMap) -> Result<Option<Vec<u8>>, FormatError> {
    let mut handler = make_handler();
    let result = handler.resolve_config(config, &GlobalOptions::default());
    assert!(result.diagnostics.is_empty());
    handler.format(&result.config, "test.tex", src)
}

fn format_str(src: &str) -> Option<String> {
    format_with(src.as_bytes(), ConfigKeyMap::new())
        .unwrap()
        .map(|bytes| String::from_utf8(bytes).unwrap())
}

#[test]
fn formats_unindented_document_environment() {
    let input = "\\begin{document}\nhello\n\\end{document}\n";
    let output = format_str(input);
    assert!(output.is_none() || output.as_deref() == Some(input));
}

#[test]
fn formats_nested_environment() {
    let input = "\\begin{document}\n\\begin{enumerate}\n\\item one\n\\item two\n\\end{enumerate}\n\\end{document}\n";
    let formatted = format_str(input);
    let text = formatted.as_deref().unwrap_or(input);
    assert!(text.contains("\\item one"));
    assert!(text.contains("\\item two"));
}

#[test]
fn idempotent_on_already_formatted_file() {
    let input = "\\begin{document}\n  hello\n\\end{document}\n";
    let first = format_str(input);
    let second_input = first.as_deref().unwrap_or(input);
    let second = format_str(second_input);
    assert!(second.is_none(), "formatter is not idempotent");
}

#[test]
fn plugin_info_is_valid() {
    let mut handler = make_handler();
    let info = handler.plugin_info();
    assert_eq!(info.config_key, "texFmt");
    assert!(!info.version.is_empty());
}

#[test]
fn license_text_is_non_empty() {
    let mut handler = make_handler();
    assert!(!handler.license_text().is_empty());
}

#[test]
fn unknown_config_key_produces_diagnostic() {
    let mut handler = make_handler();
    let mut config = ConfigKeyMap::new();
    config.insert("unknownOption".to_string(), ConfigKeyValue::Bool(true));
    let result = handler.resolve_config(config, &GlobalOptions::default());
    assert!(
        result.diagnostics.iter().any(|d| d.property_name == "unknownOption"),
        "expected diagnostic for unknown key"
    );
}

#[test]
fn plugin_info_names_the_plugin() {
    let mut handler = PluginHandler::default();
    let info = handler.plugin_info();
    assert_eq!(info.name, "dprint-plugin-tex-fmt");
    assert_eq!(info.version, "0.1.0");
    assert_eq!(info.help_url, "https://github.com/kjanat/dprint-plugin-tex-fmt");
    assert_eq!(info.config_schema_url, "");
    assert_eq!(info.update_url, None);
}

#[test]
fn license_text_is_mit() {
    let mut handler = make_handler();
    let text = handler.license_text();
    assert!(text.starts_with("MIT License\n\nCopyright"));
    assert!(text.contains("THE SOFTWARE IS PROVIDED \"AS IS\""));
}

#[test]
fn nested_list_items_are_indented() {
    let input = "\\begin{document}\n\\begin{enumerate}\n\\item one\n\\item two\n\\end{enumerate}\n\\end{document}\n";
    let formatted = format_str(input).expect("the items should be indented");
    assert_eq!(
        formatted,
        "\\begin{document}\n\\begin{enumerate}\n  \\item one\n  \\item two\n\\end{enumerate}\n\\end{document}\n"
    );
}

#[test]
fn tab_indentation_follows_tabchar() {
    let mut config = ConfigKeyMap::new();
    config.insert("tabchar".to_string(), ConfigKeyValue::String("tab".to_string()));
    config.insert("tabsize".to_string(), ConfigKeyValue::Number(1));
    let input = "\\begin{itemize}\n\\item one\n\\end{itemize}\n";
    let out = format_with(input.as_bytes(), config).unwrap().expect("indentation changes");
    assert_eq!(String::from_utf8(out).unwrap(), "\\begin{itemize}\n\t\\item one\n\\end{itemize}\n");
}

#[test]
fn invalid_utf8_is_an_error() {
    let bytes = [b'a', 0xff, b'b'];
    match format_with(&bytes, ConfigKeyMap::new()) {
        Err(error) => {
            assert!(error.message().starts_with("file is not valid UTF-8: "));
            let FormatError::InvalidUtf8(e) = error;
            assert_eq!(e.valid_up_to, 1);
            assert_eq!(e.error_len, Some(1));
        }
        other => panic!("expected a UTF-8 error, got {:?}", other),
    }
}

#[test]
fn formatting_outcome_is_none_for_unchanged_text() {
    assert_eq!(formatting_outcome("abc", "abc".to_string()), None);
    assert_eq!(formatting_outcome("abc", "abd".to_string()), Some(b"abd".to_vec()));
    assert_eq!(formatting_outcome("", "é".to_string()), Some(vec![0xc3, 0xa9]));
}

#[test]
fn format_options_map_tabchar() {
    let mut handler = make_handler();
    let mut config = handler.resolve_config(ConfigKeyMap::new(), &GlobalOptions::default()).config;
    assert_eq!(format_options(&config).tabchar, IndentChar::Space);
    config.tabchar = "tab".to_string();
    let options = format_options(&config);
    assert_eq!(options.tabchar, IndentChar::Tab);
    assert_eq!(options.wraplen, 80);
    assert_eq!(options.wrapmin, 70);
    assert_eq!(options.no_indent_envs, vec!["document".to_string()]);
    config.tabchar = "anything".to_string();
    assert_eq!(format_options(&config).tabchar, IndentChar::Space);
}

#[test]
fn invalid_utf8_message() {
    match format_with(&[0xFF, 0xFE], ConfigKeyMap::new()) {
        Err(error) => {
            assert!(error.message().starts_with("file is not valid UTF-8"));
            assert_eq!(error.message(), "file is not valid UTF-8: invalid utf-8 sequence of 1 bytes from index 0");
        }
        Ok(_) => panic!("expected an error"),
    }
}

#[test]
fn extra_list_environment_is_indented_like_built_in_ones() {
    let mut config = ConfigKeyMap::new();
    config.insert(
        "lists".to_string(),
        ConfigKeyValue::Array(vec![ConfigKeyValue::String("steps".to_string())]),
    );
    let input = "\\begin{steps}\n\\item one\n\\end{steps}\n\\begin{itemize}\n\\item two\n\\end{itemize}\n";
    let out = String::from_utf8(format_with(input.as_bytes(), config).unwrap().unwrap()).unwrap();
    assert_eq!(
        out,
        "\\begin{steps}\n  \\item one\n\\end{steps}\n\\begin{itemize}\n  \\item two\n\\end{itemize}\n"
    );
}

#[test]
fn truncated_character_is_reported_where_it_starts() {
    match format_with(b"ab\xc3", ConfigKeyMap::new()) {
        Err(error) => {
            assert_eq!(error.message(), "file is not valid UTF-8: incomplete utf-8 byte sequence from index 2");
            let FormatError::InvalidUtf8(e) = error;
            assert_eq!(e.valid_up_to, 2);
            assert_eq!(e.error_len, None);
        }
        Ok(_) => panic!("expected an error"),
    }
}

#[test]
fn invalid_tabchar_indents_like_space() {
    let input = "\\begin{itemize}\n\\item one\n\\end{itemize}\n";
    let mut odd = ConfigKeyMap::new();
    odd.insert("tabchar".to_string(), ConfigKeyValue::String("tabs".to_string()));
    let mut space = ConfigKeyMap::new();
    space.insert("tabchar".to_string(), ConfigKeyValue::String("space".to_string()));
    let mut handler = make_handler();
    let odd = handler.resolve_config(odd, &GlobalOptions::default());
    assert_eq!(odd.diagnostics.len(), 1);
    let a = handler.format(&odd.config, "test.tex", input.as_bytes()).unwrap();
    let b = format_with(input.as_bytes(), space).unwrap();
    assert_eq!(a, b);
    assert_eq!(String::from_utf8(a.unwrap()).unwrap(), "\\begin{itemize}\n  \\item one\n\\end{itemize}\n");
}
