use dprint_core::configuration::{ConfigKeyMap, ConfigKeyValue};
use dprint_plugin_tex_fmt::{
    default_tabchar, default_tabsize, default_true, default_wraplen, file_extensions, resolve_config,
    GlobalOptions, PluginHandler, ResolvedConfiguration,
};

fn strings(items: &[&str]) -> Vec<String> {
    items.iter().map(|s| s.to_string()).collect()
}

fn resolve(entries: Vec<(&str, ConfigKeyValue)>, global: GlobalOptions) -> ResolvedConfiguration {
    let mut config = ConfigKeyMap::new();
    for (k, v) in entries {
        config.insert(k.to_string(), v);
    }
    resolve_config(config, &global)
}

fn keys(r: &ResolvedConfiguration) -> Vec<String> {
    r.diagnostics.iter().map(|d| d.property_name.clone()).collect()
}

#[test]
fn empty_section_takes_documented_defaults() {
    let r = resolve(vec![], GlobalOptions::default());
    let c = &r.config;
    assert!(r.diagnostics.is_empty());
    assert!(c.wrap);
    assert_eq!(c.wraplen, 80);
    assert_eq!(c.wrapmin, 70);
    assert_eq!(c.tabsize, 2);
    assert_eq!(c.tabchar, "space");
    assert_eq!(c.lists, strings(&["itemize", "enumerate", "description", "inlineroman", "inventory"]));
    assert_eq!(c.verbatims, strings(&["verbatim", "Verbatim", "lstlisting", "minted", "comment"]));
    assert_eq!(c.no_indent_envs, strings(&["document"]));
    assert_eq!(c.wrap_chars, vec![' ']);
    assert!(!c.format_tables);
    assert_eq!(r.file_matching.file_extensions, strings(&["tex", "sty", "cls", "bib", "def", "ltx"]));
    assert!(r.file_matching.file_names.is_empty());
}

#[test]
fn schema_defaults_match_resolution() {
    let r = resolve(vec![], GlobalOptions::default());
    assert_eq!(r.config.wrap, default_true());
    assert_eq!(r.config.wraplen, default_wraplen());
    assert_eq!(r.config.tabsize, default_tabsize());
    assert_eq!(r.config.tabchar, default_tabchar());
    assert_eq!(file_extensions().len(), 6);
}

#[test]
fn global_options_are_fallbacks() {
    let global = GlobalOptions { line_width: Some(120), use_tabs: Some(true), indent_width: Some(4) };
    let r = resolve(vec![], global);
    assert!(r.diagnostics.is_empty());
    assert_eq!(r.config.wraplen, 120);
    assert_eq!(r.config.wrapmin, 110);
    assert_eq!(r.config.tabsize, 4);
    assert_eq!(r.config.tabchar, "tab");
}

#[test]
fn section_overrides_global_options() {
    let global = GlobalOptions { line_width: Some(120), use_tabs: Some(true), indent_width: Some(4) };
    let r = resolve(
        vec![
            ("wraplen", ConfigKeyValue::Number(40)),
            ("tabsize", ConfigKeyValue::Number(3)),
            ("tabchar", ConfigKeyValue::String("space".to_string())),
        ],
        global,
    );
    assert!(r.diagnostics.is_empty());
    assert_eq!(r.config.wraplen, 40);
    assert_eq!(r.config.wrapmin, 40);
    assert_eq!(r.config.tabsize, 3);
    assert_eq!(r.config.tabchar, "space");
}

#[test]
fn wrapmin_fallback_edges() {
    let r = resolve(vec![("wraplen", ConfigKeyValue::Number(50))], GlobalOptions::default());
    assert_eq!(r.config.wrapmin, 40);
    let r = resolve(vec![("wraplen", ConfigKeyValue::Number(49))], GlobalOptions::default());
    assert_eq!(r.config.wrapmin, 49);
    let r = resolve(
        vec![("wraplen", ConfigKeyValue::Number(100)), ("wrapmin", ConfigKeyValue::Number(95))],
        GlobalOptions::default(),
    );
    assert_eq!(r.config.wrapmin, 95);
}

#[test]
fn values_are_read_from_text() {
    let r = resolve(
        vec![
            ("wrap", ConfigKeyValue::String("false".to_string())),
            ("wraplen", ConfigKeyValue::String("+72".to_string())),
            ("tabsize", ConfigKeyValue::String("8".to_string())),
            ("formatTables", ConfigKeyValue::String("true".to_string())),
        ],
        GlobalOptions::default(),
    );
    assert!(r.diagnostics.is_empty());
    assert!(!r.config.wrap);
    assert_eq!(r.config.wraplen, 72);
    assert_eq!(r.config.wrapmin, 62);
    assert_eq!(r.config.tabsize, 8);
    assert!(r.config.format_tables);
}

#[test]
fn numbers_and_booleans_become_text() {
    let r = resolve(vec![("tabchar", ConfigKeyValue::Number(-12))], GlobalOptions::default());
    assert_eq!(r.config.tabchar, "-12");
    assert_eq!(keys(&r), strings(&["tabchar"]));
    assert_eq!(r.diagnostics[0].message, "Expected \"space\" or \"tab\", got \"-12\".");
    let r = resolve(vec![("tabchar", ConfigKeyValue::Bool(true))], GlobalOptions::default());
    assert_eq!(r.config.tabchar, "true");
}

#[test]
fn invalid_tabchar_is_reported_and_kept() {
    let r = resolve(vec![("tabchar", ConfigKeyValue::String("tabs".to_string()))], GlobalOptions::default());
    assert_eq!(r.config.tabchar, "tabs");
    assert_eq!(r.diagnostics.len(), 1);
    assert_eq!(r.diagnostics[0].property_name, "tabchar");
    assert_eq!(r.diagnostics[0].message, "Expected \"space\" or \"tab\", got \"tabs\".");
}

#[test]
fn unreadable_values_fall_back_and_are_reported() {
    let r = resolve(
        vec![
            ("wrap", ConfigKeyValue::Number(1)),
            ("wraplen", ConfigKeyValue::Number(-1)),
            ("wrapmin", ConfigKeyValue::String("ten".to_string())),
            ("tabsize", ConfigKeyValue::Number(256)),
            ("formatTables", ConfigKeyValue::Array(vec![])),
        ],
        GlobalOptions::default(),
    );
    assert!(r.config.wrap);
    assert_eq!(r.config.wraplen, 80);
    assert_eq!(r.config.wrapmin, 70);
    assert_eq!(r.config.tabsize, 2);
    assert!(!r.config.format_tables);
    assert_eq!(keys(&r), strings(&["wrap", "wraplen", "wrapmin", "tabsize", "formatTables"]));
    assert_eq!(r.diagnostics[4].message, "Arrays and objects are not supported for this value");
}

#[test]
fn null_values_are_ignored() {
    let r = resolve(
        vec![("wrap", ConfigKeyValue::Null), ("tabchar", ConfigKeyValue::Null)],
        GlobalOptions::default(),
    );
    assert!(r.diagnostics.is_empty());
    assert!(r.config.wrap);
    assert_eq!(r.config.tabchar, "space");
}

#[test]
fn lists_add_to_defaults_and_report_non_strings() {
    let r = resolve(
        vec![(
            "lists",
            ConfigKeyValue::Array(vec![
                ConfigKeyValue::String("steps".to_string()),
                ConfigKeyValue::Number(3),
                ConfigKeyValue::String("tasks".to_string()),
            ]),
        )],
        GlobalOptions::default(),
    );
    assert_eq!(
        r.config.lists,
        strings(&["itemize", "enumerate", "description", "inlineroman", "inventory", "steps", "tasks"])
    );
    assert_eq!(keys(&r), strings(&["lists"]));
    assert_eq!(r.diagnostics[0].message, "Expected a string value.");
}

#[test]
fn non_array_list_is_reported() {
    let r = resolve(vec![("verbatims", ConfigKeyValue::String("code".to_string()))], GlobalOptions::default());
    assert_eq!(r.config.verbatims, strings(&["verbatim", "Verbatim", "lstlisting", "minted", "comment"]));
    assert_eq!(keys(&r), strings(&["verbatims"]));
    assert_eq!(r.diagnostics[0].message, "Expected an array.");
    let r = resolve(vec![("noIndentEnvs", ConfigKeyValue::Null)], GlobalOptions::default());
    assert_eq!(r.config.no_indent_envs, strings(&["document"]));
    assert_eq!(r.diagnostics[0].message, "Expected an array.");
}

#[test]
fn empty_list_is_kept() {
    let r = resolve(vec![("noIndentEnvs", ConfigKeyValue::Array(vec![]))], GlobalOptions::default());
    assert!(r.diagnostics.is_empty());
    assert!(r.config.no_indent_envs.is_empty());
}

#[test]
fn wrap_chars_must_be_single_characters() {
    let r = resolve(
        vec![(
            "wrapChars",
            ConfigKeyValue::Array(vec![
                ConfigKeyValue::String(" ".to_string()),
                ConfigKeyValue::String("ab".to_string()),
                ConfigKeyValue::String("é".to_string()),
                ConfigKeyValue::Bool(true),
                ConfigKeyValue::String("".to_string()),
            ]),
        )],
        GlobalOptions::default(),
    );
    assert_eq!(r.config.wrap_chars, vec![' ', 'é']);
    assert_eq!(keys(&r), strings(&["wrapChars", "wrapChars", "wrapChars"]));
    assert_eq!(r.diagnostics[0].message, "Expected a single-character string.");
    assert_eq!(r.diagnostics[1].message, "Expected a string value.");
    assert_eq!(r.diagnostics[2].message, "Expected a single-character string.");
}

#[test]
fn unknown_keys_are_reported_last_in_order() {
    let r = resolve(
        vec![
            ("zeta", ConfigKeyValue::Bool(true)),
            ("wrap", ConfigKeyValue::Number(2)),
            ("alpha", ConfigKeyValue::Null),
        ],
        GlobalOptions::default(),
    );
    assert_eq!(keys(&r), strings(&["wrap", "zeta", "alpha"]));
    assert_eq!(r.diagnostics[1].message, "Unknown property in configuration");
    assert_eq!(r.diagnostics[2].message, "Unknown property in configuration");
}

#[test]
fn diagnostics_follow_key_order() {
    let r = resolve(
        vec![
            ("formatTables", ConfigKeyValue::Number(0)),
            ("lists", ConfigKeyValue::Bool(false)),
            ("tabchar", ConfigKeyValue::String("x".to_string())),
            ("wrap", ConfigKeyValue::String("yes".to_string())),
        ],
        GlobalOptions::default(),
    );
    assert_eq!(keys(&r), strings(&["wrap", "tabchar", "lists", "formatTables"]));
}

#[test]
fn empty_extra_lists_keep_built_in_environments() {
    let r = resolve(
        vec![("lists", ConfigKeyValue::Array(vec![])), ("verbatims", ConfigKeyValue::Array(vec![]))],
        GlobalOptions::default(),
    );
    assert!(r.diagnostics.is_empty());
    assert_eq!(r.config.lists, strings(&["itemize", "enumerate", "description", "inlineroman", "inventory"]));
    assert_eq!(r.config.verbatims, strings(&["verbatim", "Verbatim", "lstlisting", "minted", "comment"]));
}

#[test]
fn extra_verbatims_follow_built_in_ones() {
    let r = resolve(
        vec![("verbatims", ConfigKeyValue::Array(vec![ConfigKeyValue::String("code".to_string())]))],
        GlobalOptions::default(),
    );
    assert_eq!(
        r.config.verbatims,
        strings(&["verbatim", "Verbatim", "lstlisting", "minted", "comment", "code"])
    );
}

#[test]
fn unknown_key_changes_no_option() {
    let with = resolve(
        vec![("wraplen", ConfigKeyValue::Number(60)), ("extra", ConfigKeyValue::Number(3))],
        GlobalOptions::default(),
    );
    let without = resolve(vec![("wraplen", ConfigKeyValue::Number(60))], GlobalOptions::default());
    assert_eq!(with.config.wraplen, without.config.wraplen);
    assert_eq!(with.config.wrapmin, without.config.wrapmin);
    assert_eq!(with.config.lists, without.config.lists);
    assert_eq!(keys(&with), strings(&["extra"]));
    assert!(without.diagnostics.is_empty());
}

#[test]
fn well_formed_section_reports_nothing() {
    let r = resolve(
        vec![
            ("wrap", ConfigKeyValue::Bool(false)),
            ("wraplen", ConfigKeyValue::Number(100)),
            ("wrapmin", ConfigKeyValue::Number(1)),
            ("tabsize", ConfigKeyValue::Number(255)),
            ("tabchar", ConfigKeyValue::String("tab".to_string())),
            ("lists", ConfigKeyValue::Array(vec![ConfigKeyValue::String("steps".to_string())])),
            ("verbatims", ConfigKeyValue::Array(vec![])),
            ("noIndentEnvs", ConfigKeyValue::Array(vec![ConfigKeyValue::String("frame".to_string())])),
            ("wrapChars", ConfigKeyValue::Array(vec![ConfigKeyValue::String(",".to_string())])),
            ("formatTables", ConfigKeyValue::Bool(true)),
        ],
        GlobalOptions::default(),
    );
    assert!(r.diagnostics.is_empty());
    assert_eq!(r.config.no_indent_envs, strings(&["frame"]));
    assert_eq!(r.config.wrap_chars, vec![',']);
    assert_eq!(r.config.tabsize, 255);
}

#[test]
fn tabchar_space_or_tab_is_not_reported() {
    let r = resolve(vec![("tabchar", ConfigKeyValue::String("space".to_string()))], GlobalOptions::default());
    assert!(r.diagnostics.is_empty());
    assert_eq!(r.config.tabchar, "space");
}

#[test]
fn zero_lengths_are_reported_and_fall_back() {
    let r = resolve(
        vec![
            ("wraplen", ConfigKeyValue::Number(0)),
            ("wrapmin", ConfigKeyValue::String("0".to_string())),
            ("tabsize", ConfigKeyValue::Number(0)),
        ],
        GlobalOptions::default(),
    );
    assert_eq!(r.config.wraplen, 80);
    assert_eq!(r.config.wrapmin, 70);
    assert_eq!(r.config.tabsize, 2);
    assert_eq!(keys(&r), strings(&["wraplen", "wrapmin", "tabsize"]));
    for d in &r.diagnostics {
        assert_eq!(d.message, "Expected a value of at least 1.");
    }
}

#[test]
fn zero_length_takes_global_fallback() {
    let global = GlobalOptions { line_width: Some(40), use_tabs: None, indent_width: Some(3) };
    let r = resolve(
        vec![("wraplen", ConfigKeyValue::Number(0)), ("tabsize", ConfigKeyValue::Number(0))],
        global,
    );
    assert_eq!(r.config.wraplen, 40);
    assert_eq!(r.config.wrapmin, 40);
    assert_eq!(r.config.tabsize, 3);
    assert_eq!(keys(&r), strings(&["wraplen", "tabsize"]));
}

#[test]
fn length_of_one_is_accepted() {
    let r = resolve(
        vec![("wraplen", ConfigKeyValue::Number(1)), ("tabsize", ConfigKeyValue::Number(1))],
        GlobalOptions::default(),
    );
    assert!(r.diagnostics.is_empty());
    assert_eq!(r.config.wraplen, 1);
    assert_eq!(r.config.wrapmin, 1);
    assert_eq!(r.config.tabsize, 1);
}

#[test]
fn parse_failures_carry_std_descriptions() {
    let r = resolve(
        vec![
            ("wrap", ConfigKeyValue::Number(1)),
            ("wraplen", ConfigKeyValue::Number(-1)),
            ("wrapmin", ConfigKeyValue::String("ten".to_string())),
            ("tabsize", ConfigKeyValue::Number(256)),
            ("formatTables", ConfigKeyValue::String(String::new())),
        ],
        GlobalOptions::default(),
    );
    let messages: Vec<String> = r.diagnostics.iter().map(|d| d.message.clone()).collect();
    assert_eq!(
        messages,
        strings(&[
            "provided string was not `true` or `false`",
            "invalid digit found in string",
            "invalid digit found in string",
            "number too large to fit in target type",
            "provided string was not `true` or `false`",
        ])
    );
    let r = resolve(vec![("wraplen", ConfigKeyValue::String(String::new()))], GlobalOptions::default());
    assert_eq!(r.diagnostics[0].message, "cannot parse integer from empty string");
}

#[test]
fn handler_resolves_as_config() {
    let entries = || {
        let mut config = ConfigKeyMap::new();
        config.insert("tabsize".to_string(), ConfigKeyValue::String("x".to_string()));
        config.insert("wraplen".to_string(), ConfigKeyValue::Number(0));
        config.insert("extra".to_string(), ConfigKeyValue::Bool(true));
        config
    };
    let global = GlobalOptions { line_width: Some(90), use_tabs: None, indent_width: None };
    let direct = resolve_config(entries(), &global);
    let mut handler = PluginHandler::new();
    let through = handler.resolve_config(entries(), &global);
    let pairs = |r: &ResolvedConfiguration| -> Vec<(String, String)> {
        r.diagnostics.iter().map(|d| (d.property_name.clone(), d.message.clone())).collect()
    };
    assert_eq!(pairs(&through), pairs(&direct));
    assert_eq!(through.config.wraplen, direct.config.wraplen);
    assert_eq!(through.config.tabsize, direct.config.tabsize);
    assert_eq!(through.file_matching.file_extensions, direct.file_matching.file_extensions);
    assert_eq!(keys(&direct), strings(&["wraplen", "tabsize", "extra"]));
}
