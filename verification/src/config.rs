//! The plugin's configuration: the tex-fmt options, resolved from the raw
//! `texFmt` section of a dprint configuration and dprint's global options.

use vstd::prelude::*;
use dprint_core::configuration::ConfigKeyMap;
use crate::raw_config::{
    appended_one, boolean_at, config_entries, expected_array_message, item_texts, item_views,
    lemma_remove_one_more, lemma_without_no_keys, lookup, take_bool, take_list, take_string,
    take_u8, take_usize, text_at, took, unknown_properties, unknown_property_message, usize_at, u8_at,
    without_key, without_keys, ArrayItem, Diagnostic, Outcome, RawValue,
};
use vstd::string::{StrSliceExecFns, StringExecFns};

verus! {

/// The tex-fmt options that the plugin formats with.
///
/// Key names in the raw configuration are camelCase and map one to one to
/// tex-fmt's own options.
#[derive(Debug, Clone)]
pub struct Configuration {
    pub wrap: bool,
    pub wraplen: usize,
    pub wrapmin: usize,
    pub tabsize: u8,
    /// `"space"` or `"tab"`
    pub tabchar: String,
    /// tex-fmt's built-in list environments, then any extra ones configured.
    pub lists: Vec<String>,
    /// tex-fmt's built-in verbatim environments, then any extra ones configured.
    pub verbatims: Vec<String>,
    /// The environments that are not indented (`document` unless configured).
    pub no_indent_envs: Vec<String>,
    /// The characters after which lines may be wrapped (a space unless configured).
    pub wrap_chars: Vec<char>,
    pub format_tables: bool,
}

/// The options of a `Configuration` as values.
pub struct ConfigurationView {
    pub wrap: bool,
    pub wraplen: nat,
    pub wrapmin: nat,
    pub tabsize: nat,
    pub tabchar: Seq<char>,
    pub lists: Seq<Seq<char>>,
    pub verbatims: Seq<Seq<char>>,
    pub no_indent_envs: Seq<Seq<char>>,
    pub wrap_chars: Seq<char>,
    pub format_tables: bool,
}

/// The views of a sequence of strings.
pub open spec fn strings_view(v: Seq<String>) -> Seq<Seq<char>> {
    v.map_values(|s: String| s@)
}

impl View for Configuration {
    type V = ConfigurationView;

    open spec fn view(&self) -> ConfigurationView {
        ConfigurationView {
            wrap: self.wrap,
            wraplen: self.wraplen as nat,
            wrapmin: self.wrapmin as nat,
            tabsize: self.tabsize as nat,
            tabchar: self.tabchar@,
            lists: strings_view(self.lists@),
            verbatims: strings_view(self.verbatims@),
            no_indent_envs: strings_view(self.no_indent_envs@),
            wrap_chars: self.wrap_chars@,
            format_tables: self.format_tables,
        }
    }
}

/// dprint's global options that serve as fallbacks for `wraplen`, `tabsize`
/// and `tabchar`.
#[derive(Debug, Clone)]
pub struct GlobalOptions {
    pub line_width: Option<u32>,
    pub use_tabs: Option<bool>,
    pub indent_width: Option<u8>,
}

impl Default for GlobalOptions {
    /// No global option set.
    fn default() -> (g: GlobalOptions)
        ensures
            g.line_width is None,
            g.use_tabs is None,
            g.indent_width is None,
    {
        GlobalOptions { line_width: None, use_tabs: None, indent_width: None }
    }
}

/// Which files the plugin formats.
#[derive(Debug, Clone)]
pub struct FileMatching {
    pub file_extensions: Vec<String>,
    pub file_names: Vec<String>,
}

/// The outcome of resolving a configuration: the files to format, the
/// problems found, and the options.
#[derive(Debug, Clone)]
pub struct ResolvedConfiguration {
    pub file_matching: FileMatching,
    pub diagnostics: Vec<Diagnostic>,
    pub config: Configuration,
}

/// A problem that resolving reports: the key, and the message.
pub type Issue = (Seq<char>, Seq<char>);

/// `diagnostics` report exactly `issues`, in order.
pub open spec fn reports(diagnostics: Seq<Diagnostic>, issues: Seq<Issue>) -> bool {
    &&& diagnostics.len() == issues.len()
    &&& forall|i: int| 0 <= i < issues.len() ==> {
        &&& (#[trigger] diagnostics[i]).property_name@ == issues[i].0
        &&& diagnostics[i].message@ == issues[i].1
    }
}

/// The text of a string read, if any.
pub open spec fn text_read(r: Option<String>) -> Option<Seq<char>> {
    match r {
        Some(s) => Some(s@),
        None => None,
    }
}

/// The value read, or `default` where none was read.
pub open spec fn value_or<T>(o: Outcome<T>, default: T) -> T {
    match o {
        Outcome::Found(t) => t,
        _ => default,
    }
}

/// The problem of a read value, if any.
pub open spec fn outcome_issues<T>(key: Seq<char>, o: Outcome<T>) -> Seq<Issue> {
    match o {
        Outcome::Invalid(m) => seq![(key, m)],
        _ => seq![],
    }
}

/// The message for an array item that is not a string.
pub open spec fn expected_string_message() -> Seq<char> {
    "Expected a string value."@
}

/// The message for a string of wrap characters that is not one character long.
pub open spec fn expected_single_char_message() -> Seq<char> {
    "Expected a single-character string."@
}

/// The message for a `tabchar` that is neither `space` nor `tab`.
pub open spec fn tabchar_message(tabchar: Seq<char>) -> Seq<char> {
    "Expected \"space\" or \"tab\", got \""@ + tabchar + "\"."@
}

/// The message for a length or size of zero, where at least 1 is expected.
pub open spec fn below_one_message() -> Seq<char> {
    "Expected a value of at least 1."@
}

/// A length or size read: as it was, but for zero, which is a problem as
/// these must be at least 1.
pub open spec fn at_least_one(o: Outcome<nat>) -> Outcome<nat> {
    match o {
        Outcome::Found(n) => if n == 0 {
            Outcome::Invalid(below_one_message())
        } else {
            Outcome::Found(n)
        },
        _ => o,
    }
}

/// The outcome of reading a length (a `usize` of at least 1) under `key`.
pub open spec fn length_at(entries: Seq<(Seq<char>, RawValue)>, key: Seq<char>) -> Outcome<nat> {
    at_least_one(usize_at(entries, key))
}

/// The outcome of reading a size (a `u8` of at least 1) under `key`.
pub open spec fn size_at(entries: Seq<(Seq<char>, RawValue)>, key: Seq<char>) -> Outcome<nat> {
    at_least_one(u8_at(entries, key))
}

/// `wrapmin` where none is given: ten less than `wraplen` from 50 on, else `wraplen`.
pub open spec fn default_wrapmin(wraplen: nat) -> nat {
    if wraplen >= 50 {
        (wraplen - 10) as nat
    } else {
        wraplen
    }
}

pub open spec fn default_lists() -> Seq<Seq<char>> {
    seq!["itemize"@, "enumerate"@, "description"@, "inlineroman"@, "inventory"@]
}

pub open spec fn default_verbatims() -> Seq<Seq<char>> {
    seq!["verbatim"@, "Verbatim"@, "lstlisting"@, "minted"@, "comment"@]
}

pub open spec fn default_no_indent_envs() -> Seq<Seq<char>> {
    seq!["document"@]
}

/// The extensions of the files that the plugin formats.
pub open spec fn plugin_file_extensions() -> Seq<Seq<char>> {
    seq!["tex"@, "sty"@, "cls"@, "bib"@, "def"@, "ltx"@]
}

/// The keys that the configuration knows.
pub open spec fn known_keys() -> Set<Seq<char>> {
    set![
        "wrap"@,
        "wraplen"@,
        "wrapmin"@,
        "tabsize"@,
        "tabchar"@,
        "lists"@,
        "verbatims"@,
        "noIndentEnvs"@,
        "wrapChars"@,
        "formatTables"@,
    ]
}

/// The items of the array under `key`, where an array is stored there.
pub open spec fn list_items(entries: Seq<(Seq<char>, RawValue)>, key: Seq<char>) -> Option<Seq<Option<Seq<char>>>> {
    match lookup(entries, key) {
        Some(RawValue::Array(items)) => Some(item_texts(items)),
        _ => None,
    }
}

/// The list that a given array makes: the built-in list followed by the
/// array's strings where the array adds to it, else the strings alone.
pub open spec fn given_list(built_in: Seq<Seq<char>>, additive: bool, given: Seq<Seq<char>>) -> Seq<Seq<char>> {
    if additive {
        built_in + given
    } else {
        given
    }
}

/// The strings among the items, in order.
pub open spec fn texts_of(items: Seq<Option<Seq<char>>>) -> Seq<Seq<char>>
    decreases items.len(),
{
    if items.len() == 0 {
        seq![]
    } else {
        let rest = texts_of(items.drop_last());
        match items.last() {
            Some(s) => rest.push(s),
            None => rest,
        }
    }
}

/// One issue for each item that is not a string.
pub open spec fn string_item_issues(key: Seq<char>, items: Seq<Option<Seq<char>>>) -> Seq<Issue>
    decreases items.len(),
{
    if items.len() == 0 {
        seq![]
    } else {
        let rest = string_item_issues(key, items.drop_last());
        match items.last() {
            Some(_) => rest,
            None => rest.push((key, expected_string_message())),
        }
    }
}

/// The characters of the one-character strings among the items, in order.
pub open spec fn single_chars_of(items: Seq<Option<Seq<char>>>) -> Seq<char>
    decreases items.len(),
{
    if items.len() == 0 {
        seq![]
    } else {
        let rest = single_chars_of(items.drop_last());
        match items.last() {
            Some(s) => if s.len() == 1 {
                rest.push(s[0])
            } else {
                rest
            },
            None => rest,
        }
    }
}

/// One issue for each item that is not a one-character string.
pub open spec fn char_item_issues(key: Seq<char>, items: Seq<Option<Seq<char>>>) -> Seq<Issue>
    decreases items.len(),
{
    if items.len() == 0 {
        seq![]
    } else {
        let rest = char_item_issues(key, items.drop_last());
        match items.last() {
            Some(s) => if s.len() == 1 {
                rest
            } else {
                rest.push((key, expected_single_char_message()))
            },
            None => rest.push((key, expected_string_message())),
        }
    }
}

/// The issues of the array under `key`: one where something else is stored
/// there, else those of its items.
pub open spec fn list_issues(entries: Seq<(Seq<char>, RawValue)>, key: Seq<char>, of_chars: bool) -> Seq<Issue> {
    match lookup(entries, key) {
        None => seq![],
        Some(RawValue::Array(items)) => if of_chars {
            char_item_issues(key, item_texts(items))
        } else {
            string_item_issues(key, item_texts(items))
        },
        Some(_) => seq![(key, expected_array_message())],
    }
}

/// One issue for each entry under a key that the configuration does not know.
pub open spec fn unknown_issues(entries: Seq<(Seq<char>, RawValue)>) -> Seq<Issue> {
    without_keys(entries, known_keys()).map_values(
        |e: (Seq<char>, RawValue)| (e.0, unknown_property_message()),
    )
}

/// The options that resolving gives for the raw entries and the global options.
pub open spec fn resolved_view(entries: Seq<(Seq<char>, RawValue)>, global: GlobalOptions) -> ConfigurationView {
    let wraplen = value_or(
        length_at(entries, "wraplen"@),
        match global.line_width {
            Some(w) => w as nat,
            None => 80,
        },
    );
    ConfigurationView {
        wrap: value_or(boolean_at(entries, "wrap"@), true),
        wraplen,
        wrapmin: value_or(length_at(entries, "wrapmin"@), default_wrapmin(wraplen)),
        tabsize: value_or(
            size_at(entries, "tabsize"@),
            match global.indent_width {
                Some(w) => w as nat,
                None => 2,
            },
        ),
        tabchar: value_or(
            text_at(entries, "tabchar"@),
            if global.use_tabs == Some(true) {
                "tab"@
            } else {
                "space"@
            },
        ),
        lists: match list_items(entries, "lists"@) {
            Some(items) => default_lists() + texts_of(items),
            None => default_lists(),
        },
        verbatims: match list_items(entries, "verbatims"@) {
            Some(items) => default_verbatims() + texts_of(items),
            None => default_verbatims(),
        },
        no_indent_envs: match list_items(entries, "noIndentEnvs"@) {
            Some(items) => texts_of(items),
            None => default_no_indent_envs(),
        },
        wrap_chars: match list_items(entries, "wrapChars"@) {
            Some(items) => single_chars_of(items),
            None => seq![' '],
        },
        format_tables: value_or(boolean_at(entries, "formatTables"@), false),
    }
}

/// The issue of a `tabchar` that is neither `space` nor `tab`.
pub open spec fn tabchar_issues(tabchar: Seq<char>) -> Seq<Issue> {
    if tabchar != "space"@ && tabchar != "tab"@ {
        seq![("tabchar"@, tabchar_message(tabchar))]
    } else {
        seq![]
    }
}

/// The problems that resolving reports, in order: those of each known key in
/// turn, then one for each unknown key.
pub open spec fn resolution_issues(entries: Seq<(Seq<char>, RawValue)>, global: GlobalOptions) -> Seq<Issue> {
    outcome_issues("wrap"@, boolean_at(entries, "wrap"@))
        + outcome_issues("wraplen"@, length_at(entries, "wraplen"@))
        + outcome_issues("wrapmin"@, length_at(entries, "wrapmin"@))
        + outcome_issues("tabsize"@, size_at(entries, "tabsize"@))
        + outcome_issues("tabchar"@, text_at(entries, "tabchar"@))
        + tabchar_issues(resolved_view(entries, global).tabchar)
        + list_issues(entries, "lists"@, false)
        + list_issues(entries, "verbatims"@, false)
        + list_issues(entries, "noIndentEnvs"@, false)
        + list_issues(entries, "wrapChars"@, true)
        + outcome_issues("formatTables"@, boolean_at(entries, "formatTables"@))
        + unknown_issues(entries)
}

/// Reports stay exact when one more value is read.
proof fn lemma_reports_took<T>(
    before: Seq<Diagnostic>,
    after: Seq<Diagnostic>,
    issues: Seq<Issue>,
    key: Seq<char>,
    o: Outcome<T>,
    r: Option<T>,
)
    requires
        reports(before, issues),
        took(before, after, key, o, r),
    ensures
        reports(after, issues + outcome_issues(key, o)),
{
    match o {
        Outcome::Invalid(m) => {
            lemma_reports_push(before, after, issues, key, m);
        },
        _ => {
            assert(issues + outcome_issues(key, o) == issues);
        },
    }
}

/// Reports stay exact when one more diagnostic is appended.
proof fn lemma_reports_push(
    before: Seq<Diagnostic>,
    after: Seq<Diagnostic>,
    issues: Seq<Issue>,
    key: Seq<char>,
    m: Seq<char>,
)
    requires
        reports(before, issues),
        appended_one(before, after, key, m),
    ensures
        reports(after, issues + seq![(key, m)]),
{
    let all = issues + seq![(key, m)];
    assert forall|i: int| 0 <= i < all.len() implies {
        &&& (#[trigger] after[i]).property_name@ == all[i].0
        &&& after[i].message@ == all[i].1
    } by {
        if i < issues.len() {
            assert(after[i] == after.take(before.len() as int)[i]);
        }
    }
}

/// Takes an array item that must be a string.
fn string_item(key: &str, item: &ArrayItem, diagnostics: &mut Vec<Diagnostic>) -> (r: Option<String>)
    ensures
        match item.text {
            Some(s) => r matches Some(t) && t@ == s@ && final(diagnostics)@ == old(diagnostics)@,
            None => r is None && appended_one(
                old(diagnostics)@,
                final(diagnostics)@,
                key@,
                expected_string_message(),
            ),
        },
{
    match &item.text {
        Some(s) => Some(s.clone()),
        None => {
            let ghost before = diagnostics@;
            diagnostics.push(
                Diagnostic { property_name: key.to_owned(), message: "Expected a string value.".to_owned() },
            );
            assert(diagnostics@.take(before.len() as int) == before);
            None
        },
    }
}

/// Takes an array item that must be a one-character string.
fn char_item(key: &str, item: &ArrayItem, diagnostics: &mut Vec<Diagnostic>) -> (r: Option<char>)
    ensures
        match item.text {
            Some(s) => if s@.len() == 1 {
                r == Some(s@[0]) && final(diagnostics)@ == old(diagnostics)@
            } else {
                r is None && appended_one(
                    old(diagnostics)@,
                    final(diagnostics)@,
                    key@,
                    expected_single_char_message(),
                )
            },
            None => r is None && appended_one(
                old(diagnostics)@,
                final(diagnostics)@,
                key@,
                expected_string_message(),
            ),
        },
{
    let ghost before = diagnostics@;
    match &item.text {
        Some(s) => {
            if s.as_str().unicode_len() == 1 {
                Some(s.as_str().get_char(0))
            } else {
                diagnostics.push(
                    Diagnostic {
                        property_name: key.to_owned(),
                        message: "Expected a single-character string.".to_owned(),
                    },
                );
                assert(diagnostics@.take(before.len() as int) == before);
                None
            }
        },
        None => {
            diagnostics.push(
                Diagnostic { property_name: key.to_owned(), message: "Expected a string value.".to_owned() },
            );
            assert(diagnostics@.take(before.len() as int) == before);
            None
        },
    }
}


/// The strings of an array's items, with a diagnostic for every other item.
fn string_items(
    key: &str,
    items: &Vec<ArrayItem>,
    start: Vec<String>,
    diagnostics: &mut Vec<Diagnostic>,
    Ghost(issues): Ghost<Seq<Issue>>,
) -> (r: Vec<String>)
    requires
        reports(old(diagnostics)@, issues),
    ensures
        strings_view(r@) == strings_view(start@) + texts_of(item_views(items@)),
        reports(final(diagnostics)@, issues + string_item_issues(key@, item_views(items@))),
{
    let ghost views = item_views(items@);
    let ghost first = strings_view(start@);
    let mut out: Vec<String> = start;
    let mut i: usize = 0;
    assert(views.take(0) =~= seq![]);
    assert(first + texts_of(views.take(0)) =~= first);
    assert(issues + string_item_issues(key@, views.take(0)) =~= issues);
    while i < items.len()
        invariant
            i <= items.len(),
            views == item_views(items@),
            strings_view(out@) == first + texts_of(views.take(i as int)),
            reports(diagnostics@, issues + string_item_issues(key@, views.take(i as int))),
        decreases items.len() - i,
    {
        let ghost before = diagnostics@;
        let ghost done = issues + string_item_issues(key@, views.take(i as int));
        let t = string_item(key, &items[i], diagnostics);
        assert(views.take(i + 1).drop_last() =~= views.take(i as int));
        assert(views.take(i + 1).last() == views[i as int]);
        match t {
            Some(s) => {
                let ghost prior = out@;
                out.push(s);
                assert(strings_view(out@) =~= strings_view(prior).push(out@.last()@));
                assert(first + texts_of(views.take(i + 1)) =~= (first + texts_of(views.take(i as int))).push(out@.last()@));
                assert(issues + string_item_issues(key@, views.take(i + 1)) == done);
            },
            None => {
                proof {
                    lemma_reports_push(before, diagnostics@, done, key@, expected_string_message());
                    assert(issues + string_item_issues(key@, views.take(i + 1)) =~= done + seq![
                        (key@, expected_string_message()),
                    ]);
                }
            },
        }
        i = i + 1;
    }
    assert(views.take(items.len() as int) =~= views);
    out
}

/// The characters of an array's one-character string items, with a
/// diagnostic for every other item.
fn char_items(key: &str, items: &Vec<ArrayItem>, diagnostics: &mut Vec<Diagnostic>, Ghost(issues): Ghost<Seq<Issue>>) -> (r: Vec<char>)
    requires
        reports(old(diagnostics)@, issues),
    ensures
        r@ == single_chars_of(item_views(items@)),
        reports(final(diagnostics)@, issues + char_item_issues(key@, item_views(items@))),
{
    let ghost views = item_views(items@);
    let mut out: Vec<char> = Vec::new();
    let mut i: usize = 0;
    assert(views.take(0) =~= seq![]);
    assert(issues + char_item_issues(key@, views.take(0)) =~= issues);
    while i < items.len()
        invariant
            i <= items.len(),
            views == item_views(items@),
            out@ == single_chars_of(views.take(i as int)),
            reports(diagnostics@, issues + char_item_issues(key@, views.take(i as int))),
        decreases items.len() - i,
    {
        let ghost before = diagnostics@;
        let ghost done = issues + char_item_issues(key@, views.take(i as int));
        let t = char_item(key, &items[i], diagnostics);
        assert(views.take(i + 1).drop_last() =~= views.take(i as int));
        assert(views.take(i + 1).last() == views[i as int]);
        match t {
            Some(c) => {
                out.push(c);
                assert(issues + char_item_issues(key@, views.take(i + 1)) == done);
            },
            None => {
                proof {
                    let m = if items@[i as int].text matches Some(s) {
                        expected_single_char_message()
                    } else {
                        expected_string_message()
                    };
                    lemma_reports_push(before, diagnostics@, done, key@, m);
                    assert(issues + char_item_issues(key@, views.take(i + 1)) =~= done + seq![(key@, m)]);
                }
            },
        }
        i = i + 1;
    }
    assert(views.take(items.len() as int) =~= views);
    out
}

/// Takes the array of strings under `key` out of the map, or `default` where
/// no array is stored there.
fn take_string_list(
    config: &mut ConfigKeyMap,
    key: &str,
    default: Vec<String>,
    additive: bool,
    diagnostics: &mut Vec<Diagnostic>,
    Ghost(issues): Ghost<Seq<Issue>>,
) -> (r: Vec<String>)
    requires
        reports(old(diagnostics)@, issues),
    ensures
        config_entries(*final(config)) == without_key(config_entries(*old(config)), key@),
        reports(final(diagnostics)@, issues + list_issues(config_entries(*old(config)), key@, false)),
        strings_view(r@) == match list_items(config_entries(*old(config)), key@) {
            Some(items) => given_list(strings_view(default@), additive, texts_of(items)),
            None => strings_view(default@),
        },
{
    let ghost entries = config_entries(*config);
    let ghost before = diagnostics@;
    match take_list(config, key, diagnostics) {
        Some(items) => {
            let start = if additive {
                default
            } else {
                Vec::new()
            };
            proof {
                if !additive {
                    assert(strings_view(start@) =~= Seq::<Seq<char>>::empty());
                }
            }
            let r = string_items(key, &items, start, diagnostics, Ghost(issues));
            proof {
                if let Some(RawValue::Array(raw)) = lookup(entries, key@) {
                    assert(list_issues(entries, key@, false) == string_item_issues(key@, item_texts(raw)));
                }
            }
            r
        },
        None => {
            proof {
                match lookup(entries, key@) {
                    None => {
                        assert(issues + list_issues(entries, key@, false) =~= issues);
                    },
                    Some(_) => {
                        lemma_reports_push(before, diagnostics@, issues, key@, expected_array_message());
                    },
                }
            }
            default
        },
    }
}

/// Takes the array of one-character strings under `key` out of the map, or
/// `default` where no array is stored there.
fn take_char_list(
    config: &mut ConfigKeyMap,
    key: &str,
    default: Vec<char>,
    diagnostics: &mut Vec<Diagnostic>,
    Ghost(issues): Ghost<Seq<Issue>>,
) -> (r: Vec<char>)
    requires
        reports(old(diagnostics)@, issues),
    ensures
        config_entries(*final(config)) == without_key(config_entries(*old(config)), key@),
        reports(final(diagnostics)@, issues + list_issues(config_entries(*old(config)), key@, true)),
        r@ == match list_items(config_entries(*old(config)), key@) {
            Some(items) => single_chars_of(items),
            None => default@,
        },
{
    let ghost entries = config_entries(*config);
    let ghost before = diagnostics@;
    match take_list(config, key, diagnostics) {
        Some(items) => {
            let r = char_items(key, &items, diagnostics, Ghost(issues));
            proof {
                if let Some(RawValue::Array(raw)) = lookup(entries, key@) {
                    assert(list_issues(entries, key@, true) == char_item_issues(key@, item_texts(raw)));
                }
            }
            r
        },
        None => {
            proof {
                match lookup(entries, key@) {
                    None => {
                        assert(issues + list_issues(entries, key@, true) =~= issues);
                    },
                    Some(_) => {
                        lemma_reports_push(before, diagnostics@, issues, key@, expected_array_message());
                    },
                }
            }
            default
        },
    }
}


/// Whether wrapping is on where the configuration does not say: yes.
pub fn default_true() -> (b: bool)
    ensures
        b,
{
    true
}

/// The line length where neither the configuration nor dprint says: 80.
pub fn default_wraplen() -> (n: usize)
    ensures
        n == 80,
{
    80
}

/// The indent width where neither the configuration nor dprint says: 2.
pub fn default_tabsize() -> (n: u8)
    ensures
        n == 2,
{
    2
}

/// The indent character where neither the configuration nor dprint says: `space`.
pub fn default_tabchar() -> (s: String)
    ensures
        s@ == "space"@,
{
    "space".to_owned()
}

/// The extensions of the files that the plugin formats.
pub fn file_extensions() -> (v: Vec<String>)
    ensures
        strings_view(v@) == plugin_file_extensions(),
{
    let v = vec![
        "tex".to_owned(),
        "sty".to_owned(),
        "cls".to_owned(),
        "bib".to_owned(),
        "def".to_owned(),
        "ltx".to_owned(),
    ];
    assert(strings_view(v@) =~= plugin_file_extensions());
    v
}

fn default_list_environments() -> (v: Vec<String>)
    ensures
        strings_view(v@) == default_lists(),
{
    let v = vec![
        "itemize".to_owned(),
        "enumerate".to_owned(),
        "description".to_owned(),
        "inlineroman".to_owned(),
        "inventory".to_owned(),
    ];
    assert(strings_view(v@) =~= default_lists());
    v
}

fn default_verbatim_environments() -> (v: Vec<String>)
    ensures
        strings_view(v@) == default_verbatims(),
{
    let v = vec![
        "verbatim".to_owned(),
        "Verbatim".to_owned(),
        "lstlisting".to_owned(),
        "minted".to_owned(),
        "comment".to_owned(),
    ];
    assert(strings_view(v@) =~= default_verbatims());
    v
}

fn default_unindented_environments() -> (v: Vec<String>)
    ensures
        strings_view(v@) == default_no_indent_envs(),
{
    let v = vec!["document".to_owned()];
    assert(strings_view(v@) =~= default_no_indent_envs());
    v
}

/// The known keys are told apart by their lengths and a few characters.
proof fn lemma_known_keys_distinct()
    ensures
        "wrap"@.len() == 4 && "wrap"@[0] == 'w',
        "wraplen"@.len() == 7 && "wraplen"@[0] == 'w' && "wraplen"@[4] == 'l',
        "wrapmin"@.len() == 7 && "wrapmin"@[0] == 'w' && "wrapmin"@[4] == 'm',
        "tabsize"@.len() == 7 && "tabsize"@[0] == 't' && "tabsize"@[3] == 's',
        "tabchar"@.len() == 7 && "tabchar"@[0] == 't' && "tabchar"@[3] == 'c',
        "lists"@.len() == 5,
        "verbatims"@.len() == 9 && "verbatims"@[0] == 'v',
        "noIndentEnvs"@.len() == 12 && "noIndentEnvs"@[0] == 'n',
        "wrapChars"@.len() == 9 && "wrapChars"@[0] == 'w',
        "formatTables"@.len() == 12 && "formatTables"@[0] == 'f',
{
    reveal_strlit("wrap");
    reveal_strlit("wraplen");
    reveal_strlit("wrapmin");
    reveal_strlit("tabsize");
    reveal_strlit("tabchar");
    reveal_strlit("lists");
    reveal_strlit("verbatims");
    reveal_strlit("noIndentEnvs");
    reveal_strlit("wrapChars");
    reveal_strlit("formatTables");
}

/// With an empty `texFmt` section every option takes its fallback: dprint's
/// line width (else 80) for `wraplen`, ten less than that from 50 on for
/// `wrapmin`, dprint's indent width (else 2) for `tabsize`, `tab` where dprint
/// uses tabs and `space` otherwise, the built-in environment lists, a space
/// as the only wrap character, wrapping on and table formatting off; and
/// nothing is reported.
pub proof fn law_empty_section_takes_fallbacks(g: GlobalOptions)
    ensures
        ({
            let v = resolved_view(seq![], g);
            let wraplen: nat = match g.line_width {
                Some(w) => w as nat,
                None => 80,
            };
            &&& v.wrap
            &&& v.wraplen == wraplen
            &&& v.wrapmin == default_wrapmin(wraplen)
            &&& v.tabsize == match g.indent_width {
                Some(w) => w as nat,
                None => 2,
            }
            &&& v.tabchar == if g.use_tabs == Some(true) {
                "tab"@
            } else {
                "space"@
            }
            &&& v.lists == default_lists()
            &&& v.verbatims == default_verbatims()
            &&& v.no_indent_envs == default_no_indent_envs()
            &&& v.wrap_chars == seq![' ']
            &&& !v.format_tables
        }),
        resolution_issues(seq![], g) == Seq::<Issue>::empty(),
{
    let e: Seq<(Seq<char>, RawValue)> = seq![];
    assert(without_keys(e, known_keys()) == e);
    assert(unknown_issues(e) =~= Seq::<Issue>::empty());
    let t = resolved_view(e, g).tabchar;
    assert(tabchar_issues(t) =~= Seq::<Issue>::empty());
    assert(resolution_issues(e, g) =~= Seq::<Issue>::empty());
}

/// The defaults that the schema documents (`default_true`, `default_wraplen`,
/// `default_tabsize`, `default_tabchar`) are those that resolving an empty
/// section takes where dprint sets no global option.
pub proof fn law_schema_defaults_are_resolution_defaults(g: GlobalOptions)
    requires
        g.line_width is None,
        g.use_tabs is None,
        g.indent_width is None,
    ensures
        resolved_view(seq![], g).wrap == true,
        resolved_view(seq![], g).wraplen == 80,
        resolved_view(seq![], g).tabsize == 2,
        resolved_view(seq![], g).tabchar == "space"@,
        resolved_view(seq![], g).wrapmin == 70,
        resolved_view(seq![], g).format_tables == false,
{
    law_empty_section_takes_fallbacks(g);
}

/// Where no `wrapmin` is set, it is ten less than `wraplen` from 50 on and
/// `wraplen` below that, so never more than `wraplen`.
pub proof fn law_wrapmin_fallback(e: Seq<(Seq<char>, RawValue)>, g: GlobalOptions)
    requires
        lookup(e, "wrapmin"@) is None,
    ensures
        resolved_view(e, g).wrapmin == default_wrapmin(resolved_view(e, g).wraplen),
        resolved_view(e, g).wrapmin <= resolved_view(e, g).wraplen,
{
}

/// `wraplen`, `wrapmin` and `tabsize` come out at least 1 whatever the
/// section holds, wherever dprint's line width and indent width, when set,
/// are at least 1.
pub proof fn law_lengths_at_least_one(e: Seq<(Seq<char>, RawValue)>, g: GlobalOptions)
    requires
        g.line_width matches Some(w) ==> w >= 1,
        g.indent_width matches Some(w) ==> w >= 1,
    ensures
        resolved_view(e, g).wraplen >= 1,
        resolved_view(e, g).wrapmin >= 1,
        resolved_view(e, g).tabsize >= 1,
{
}

/// Every value read without a problem is the resolved option, whatever the
/// other keys hold: `wrap`, `wraplen`, `wrapmin`, `tabsize`, `tabchar` and
/// `formatTables` as given (a `wrapmin` as given even below `wraplen - 10`),
/// and plain JSON booleans and numbers from 1 in range in particular.
pub proof fn law_read_values_are_resolved(e: Seq<(Seq<char>, RawValue)>, g: GlobalOptions)
    ensures
        boolean_at(e, "wrap"@) matches Outcome::Found(b) ==> resolved_view(e, g).wrap == b,
        length_at(e, "wraplen"@) matches Outcome::Found(n) ==> resolved_view(e, g).wraplen == n,
        length_at(e, "wrapmin"@) matches Outcome::Found(n) ==> resolved_view(e, g).wrapmin == n,
        size_at(e, "tabsize"@) matches Outcome::Found(n) ==> resolved_view(e, g).tabsize == n,
        text_at(e, "tabchar"@) matches Outcome::Found(t) ==> resolved_view(e, g).tabchar == t,
        boolean_at(e, "formatTables"@) matches Outcome::Found(b) ==> resolved_view(e, g).format_tables == b,
        lookup(e, "wrap"@) matches Some(RawValue::Bool(b)) ==> resolved_view(e, g).wrap == b,
        lookup(e, "formatTables"@) matches Some(RawValue::Bool(b)) ==> resolved_view(e, g).format_tables == b,
        lookup(e, "wraplen"@) matches Some(RawValue::Number(n)) ==> (n >= 1 ==> resolved_view(e, g).wraplen == n),
        lookup(e, "wrapmin"@) matches Some(RawValue::Number(n)) ==> (n >= 1 ==> resolved_view(e, g).wrapmin == n),
        lookup(e, "tabsize"@) matches Some(RawValue::Number(n)) ==> (1 <= n <= 255 ==> resolved_view(e, g).tabsize == n),
        lookup(e, "tabchar"@) matches Some(RawValue::Str(t)) ==> resolved_view(e, g).tabchar == t,
{
}

/// The strings of an array of strings, in order.
pub open spec fn strings_of(items: Seq<RawValue>) -> Seq<Seq<char>> {
    items.map_values(|v: RawValue|
        match v {
            RawValue::Str(s) => s,
            _ => seq![],
        })
}

/// The characters of an array of one-character strings, in order.
pub open spec fn chars_of(items: Seq<RawValue>) -> Seq<char> {
    items.map_values(|v: RawValue|
        match v {
            RawValue::Str(s) => s[0],
            _ => ' ',
        })
}

/// An array of strings gives its strings, in order.
proof fn lemma_texts_of_strings(items: Seq<RawValue>)
    requires
        forall|i: int| 0 <= i < items.len() ==> (#[trigger] items[i]) is Str,
    ensures
        texts_of(item_texts(items)) == strings_of(items),
    decreases items.len(),
{
    if items.len() > 0 {
        let front = items.drop_last();
        assert forall|i: int| 0 <= i < front.len() implies (#[trigger] front[i]) is Str by {
            assert(front[i] == items[i]);
        }
        lemma_texts_of_strings(front);
        assert(item_texts(items).drop_last() =~= item_texts(front));
        assert(items[items.len() - 1] is Str);
        assert(strings_of(items) =~= strings_of(front).push(strings_of(items).last()));
    }
}

/// An array of one-character strings gives its characters, in order.
proof fn lemma_single_chars_of_strings(items: Seq<RawValue>)
    requires
        forall|i: int| 0 <= i < items.len() ==> (#[trigger] items[i] matches RawValue::Str(s) && s.len() == 1),
    ensures
        single_chars_of(item_texts(items)) == chars_of(items),
    decreases items.len(),
{
    if items.len() > 0 {
        let front = items.drop_last();
        assert forall|i: int| 0 <= i < front.len() implies (#[trigger] front[i] matches RawValue::Str(s) && s.len() == 1) by {
            assert(front[i] == items[i]);
        }
        lemma_single_chars_of_strings(front);
        assert(item_texts(items).drop_last() =~= item_texts(front));
        assert(items[items.len() - 1] matches RawValue::Str(s) && s.len() == 1);
        assert(chars_of(items) =~= chars_of(front).push(chars_of(items).last()));
    }
}

/// The environment lists and wrap characters given as arrays of strings are
/// the resolved ones: `lists` and `verbatims` after the built-in
/// environments, `noIndentEnvs` and `wrapChars` in their place.
pub proof fn law_given_lists_are_resolved(e: Seq<(Seq<char>, RawValue)>, g: GlobalOptions)
    ensures
        lookup(e, "lists"@) matches Some(RawValue::Array(items)) ==> ((forall|i: int| 0 <= i < items.len() ==> (#[trigger] items[i]) is Str)
            ==> resolved_view(e, g).lists == default_lists() + strings_of(items)),
        lookup(e, "verbatims"@) matches Some(RawValue::Array(items)) ==> ((forall|i: int| 0 <= i < items.len() ==> (#[trigger] items[i]) is Str)
            ==> resolved_view(e, g).verbatims == default_verbatims() + strings_of(items)),
        lookup(e, "noIndentEnvs"@) matches Some(RawValue::Array(items)) ==> ((forall|i: int| 0 <= i < items.len() ==> (#[trigger] items[i]) is Str)
            ==> resolved_view(e, g).no_indent_envs == strings_of(items)),
        lookup(e, "wrapChars"@) matches Some(RawValue::Array(items)) ==> ((forall|i: int|
            0 <= i < items.len() ==> (#[trigger] items[i] matches RawValue::Str(s) && s.len() == 1))
            ==> resolved_view(e, g).wrap_chars == chars_of(items)),
{
    if let Some(RawValue::Array(items)) = lookup(e, "lists"@) {
        if forall|i: int| 0 <= i < items.len() ==> (#[trigger] items[i]) is Str {
            lemma_texts_of_strings(items);
        }
    }
    if let Some(RawValue::Array(items)) = lookup(e, "verbatims"@) {
        if forall|i: int| 0 <= i < items.len() ==> (#[trigger] items[i]) is Str {
            lemma_texts_of_strings(items);
        }
    }
    if let Some(RawValue::Array(items)) = lookup(e, "noIndentEnvs"@) {
        if forall|i: int| 0 <= i < items.len() ==> (#[trigger] items[i]) is Str {
            lemma_texts_of_strings(items);
        }
    }
    if let Some(RawValue::Array(items)) = lookup(e, "wrapChars"@) {
        if forall|i: int| 0 <= i < items.len() ==> (#[trigger] items[i] matches RawValue::Str(s) && s.len() == 1) {
            lemma_single_chars_of_strings(items);
        }
    }
}

/// A sequence holds what either part of it holds.
proof fn lemma_concat_contains(a: Seq<Issue>, b: Seq<Issue>, x: Issue)
    requires
        a.contains(x) || b.contains(x),
    ensures
        (a + b).contains(x),
{
    if a.contains(x) {
        let i = choose|i: int| 0 <= i < a.len() && a[i] == x;
        assert((a + b)[i] == x);
    } else {
        let i = choose|i: int| 0 <= i < b.len() && b[i] == x;
        assert((a + b)[a.len() + i] == x);
    }
}

/// A `wraplen`, `wrapmin` or `tabsize` of 0 is reported, as these must be at
/// least 1, and its fallback is used in its place.
pub proof fn law_zero_length_reported(e: Seq<(Seq<char>, RawValue)>, g: GlobalOptions, key: Seq<char>)
    requires
        key == "wraplen"@ || key == "wrapmin"@ || key == "tabsize"@,
        lookup(e, key) == Some(RawValue::Number(0)),
    ensures
        resolution_issues(e, g).contains((key, below_one_message())),
        key == "wraplen"@ ==> resolved_view(e, g).wraplen == match g.line_width {
            Some(w) => w as nat,
            None => 80,
        },
        key == "wrapmin"@ ==> resolved_view(e, g).wrapmin == default_wrapmin(resolved_view(e, g).wraplen),
        key == "tabsize"@ ==> resolved_view(e, g).tabsize == match g.indent_width {
            Some(w) => w as nat,
            None => 2,
        },
{
    let x = (key, below_one_message());
    let w = outcome_issues("wrap"@, boolean_at(e, "wrap"@));
    let wl = outcome_issues("wraplen"@, length_at(e, "wraplen"@));
    let wm = outcome_issues("wrapmin"@, length_at(e, "wrapmin"@));
    let ts = outcome_issues("tabsize"@, size_at(e, "tabsize"@));
    if key == "wraplen"@ {
        assert(wl[0] == x);
        lemma_concat_contains(w, wl, x);
        lemma_concat_contains(w + wl, wm, x);
        lemma_concat_contains(w + wl + wm, ts, x);
    } else if key == "wrapmin"@ {
        assert(wm[0] == x);
        lemma_concat_contains(w + wl, wm, x);
        lemma_concat_contains(w + wl + wm, ts, x);
    } else {
        assert(ts[0] == x);
        lemma_concat_contains(w + wl + wm, ts, x);
    }
    let a0 = w + wl + wm + ts;
    let a1 = a0 + outcome_issues("tabchar"@, text_at(e, "tabchar"@));
    lemma_concat_contains(a0, outcome_issues("tabchar"@, text_at(e, "tabchar"@)), x);
    let a2 = a1 + tabchar_issues(resolved_view(e, g).tabchar);
    lemma_concat_contains(a1, tabchar_issues(resolved_view(e, g).tabchar), x);
    let a3 = a2 + list_issues(e, "lists"@, false);
    lemma_concat_contains(a2, list_issues(e, "lists"@, false), x);
    let a4 = a3 + list_issues(e, "verbatims"@, false);
    lemma_concat_contains(a3, list_issues(e, "verbatims"@, false), x);
    let a5 = a4 + list_issues(e, "noIndentEnvs"@, false);
    lemma_concat_contains(a4, list_issues(e, "noIndentEnvs"@, false), x);
    let a6 = a5 + list_issues(e, "wrapChars"@, true);
    lemma_concat_contains(a5, list_issues(e, "wrapChars"@, true), x);
    let a7 = a6 + outcome_issues("formatTables"@, boolean_at(e, "formatTables"@));
    lemma_concat_contains(a6, outcome_issues("formatTables"@, boolean_at(e, "formatTables"@)), x);
    lemma_concat_contains(a7, unknown_issues(e), x);
}

/// A resolved `tabchar` is `space` or `tab`, or a diagnostic for `tabchar`
/// says which value it got.
pub proof fn law_tabchar_checked(e: Seq<(Seq<char>, RawValue)>, g: GlobalOptions)
    ensures
        ({
            let t = resolved_view(e, g).tabchar;
            ||| t == "space"@
            ||| t == "tab"@
            ||| resolution_issues(e, g).contains(("tabchar"@, tabchar_message(t)))
        }),
{
    let t = resolved_view(e, g).tabchar;
    if t != "space"@ && t != "tab"@ {
        let before = outcome_issues("wrap"@, boolean_at(e, "wrap"@))
            + outcome_issues("wraplen"@, length_at(e, "wraplen"@))
            + outcome_issues("wrapmin"@, length_at(e, "wrapmin"@))
            + outcome_issues("tabsize"@, size_at(e, "tabsize"@))
            + outcome_issues("tabchar"@, text_at(e, "tabchar"@));
        let with_check = before + tabchar_issues(t);
        assert(with_check[before.len() as int] == ("tabchar"@, tabchar_message(t)));
        let all = resolution_issues(e, g);
        assert(all[before.len() as int] == with_check[before.len() as int]);
    }
}

/// An entry that is kept when keys are removed stays among the entries.
proof fn lemma_kept_entry(e: Seq<(Seq<char>, RawValue)>, keys: Set<Seq<char>>, i: int)
    requires
        0 <= i < e.len(),
        !keys.contains(e[i].0),
    ensures
        without_keys(e, keys).contains(e[i]),
    decreases e.len(),
{
    let rest = without_keys(e.drop_first(), keys);
    if i == 0 {
        assert((seq![e[0]] + rest)[0] == e[0]);
    } else {
        lemma_kept_entry(e.drop_first(), keys, i - 1);
        assert(e.drop_first()[i - 1] == e[i]);
        if !keys.contains(e[0].0) {
            let j = choose|j: int| 0 <= j < rest.len() && rest[j] == e[i];
            assert((seq![e[0]] + rest)[j + 1] == e[i]);
        }
    }
}

/// Every key of the section that the configuration does not know is reported,
/// with the message that says so.
pub proof fn law_unknown_keys_reported(e: Seq<(Seq<char>, RawValue)>, g: GlobalOptions, i: int)
    requires
        0 <= i < e.len(),
        !known_keys().contains(e[i].0),
    ensures
        resolution_issues(e, g).contains((e[i].0, unknown_property_message())),
{
    lemma_kept_entry(e, known_keys(), i);
    let rest = without_keys(e, known_keys());
    let j = choose|j: int| 0 <= j < rest.len() && rest[j] == e[i];
    let u = unknown_issues(e);
    assert(u[j] == (e[i].0, unknown_property_message()));
    let all = resolution_issues(e, g);
    let k = all.len() - u.len() + j;
    assert(all[k] == u[j]);
}

/// No issue in `issues` concerns `key`.
pub open spec fn none_for(issues: Seq<Issue>, key: Seq<char>) -> bool {
    forall|i: int| 0 <= i < issues.len() ==> (#[trigger] issues[i]).0 != key
}

proof fn lemma_none_for_concat(a: Seq<Issue>, b: Seq<Issue>, key: Seq<char>)
    requires
        none_for(a, key),
        none_for(b, key),
    ensures
        none_for(a + b, key),
{
    assert forall|i: int| 0 <= i < (a + b).len() implies (#[trigger] (a + b)[i]).0 != key by {
        if i < a.len() {
            assert((a + b)[i] == a[i]);
        } else {
            assert((a + b)[i] == b[i - a.len()]);
        }
    }
}

/// Every issue of a list's items concerns the list's key.
proof fn lemma_item_issue_keys(key: Seq<char>, items: Seq<Option<Seq<char>>>, other: Seq<char>)
    requires
        other != key,
    ensures
        none_for(string_item_issues(key, items), other),
        none_for(char_item_issues(key, items), other),
    decreases items.len(),
{
    if items.len() > 0 {
        lemma_item_issue_keys(key, items.drop_last(), other);
    }
}

/// Every issue of the array under `key` concerns that key.
proof fn lemma_list_issue_keys(e: Seq<(Seq<char>, RawValue)>, key: Seq<char>, of_chars: bool, other: Seq<char>)
    requires
        other != key,
    ensures
        none_for(list_issues(e, key, of_chars), other),
{
    if let Some(RawValue::Array(items)) = lookup(e, key) {
        lemma_item_issue_keys(key, item_texts(items), other);
    }
}

/// The entries left after removing `keys` are under other keys.
proof fn lemma_without_keys_keys(e: Seq<(Seq<char>, RawValue)>, keys: Set<Seq<char>>)
    ensures
        forall|i: int| 0 <= i < without_keys(e, keys).len() ==> !keys.contains(#[trigger] without_keys(e, keys)[i].0),
    decreases e.len(),
{
    if e.len() > 0 {
        lemma_without_keys_keys(e.drop_first(), keys);
        let rest = without_keys(e.drop_first(), keys);
        if !keys.contains(e[0].0) {
            let all = seq![e[0]] + rest;
            assert forall|i: int| 0 <= i < all.len() implies !keys.contains(#[trigger] all[i].0) by {
                if i > 0 {
                    assert(all[i] == rest[i - 1]);
                }
            }
        }
    }
}

/// The issues of a section whose `tabchar` reads as the text `t` never
/// concern `tabchar` but through `tabchar_issues(t)`.
proof fn lemma_only_check_concerns_tabchar(e: Seq<(Seq<char>, RawValue)>, g: GlobalOptions, t: Seq<char>)
    requires
        text_at(e, "tabchar"@) == Outcome::Found(t),
    ensures
        resolution_issues(e, g) == ({
            let before = outcome_issues("wrap"@, boolean_at(e, "wrap"@))
                + outcome_issues("wraplen"@, length_at(e, "wraplen"@))
                + outcome_issues("wrapmin"@, length_at(e, "wrapmin"@))
                + outcome_issues("tabsize"@, size_at(e, "tabsize"@))
                + outcome_issues("tabchar"@, text_at(e, "tabchar"@));
            let after = list_issues(e, "lists"@, false)
                + list_issues(e, "verbatims"@, false)
                + list_issues(e, "noIndentEnvs"@, false)
                + list_issues(e, "wrapChars"@, true)
                + outcome_issues("formatTables"@, boolean_at(e, "formatTables"@))
                + unknown_issues(e);
            before + tabchar_issues(t) + after
        }),
        none_for(
            outcome_issues("wrap"@, boolean_at(e, "wrap"@))
                + outcome_issues("wraplen"@, length_at(e, "wraplen"@))
                + outcome_issues("wrapmin"@, length_at(e, "wrapmin"@))
                + outcome_issues("tabsize"@, size_at(e, "tabsize"@))
                + outcome_issues("tabchar"@, text_at(e, "tabchar"@)),
            "tabchar"@,
        ),
        none_for(
            list_issues(e, "lists"@, false)
                + list_issues(e, "verbatims"@, false)
                + list_issues(e, "noIndentEnvs"@, false)
                + list_issues(e, "wrapChars"@, true)
                + outcome_issues("formatTables"@, boolean_at(e, "formatTables"@))
                + unknown_issues(e),
            "tabchar"@,
        ),
{
    lemma_known_keys_distinct();
    let k = "tabchar"@;
    let w = outcome_issues("wrap"@, boolean_at(e, "wrap"@));
    let wl = outcome_issues("wraplen"@, length_at(e, "wraplen"@));
    let wm = outcome_issues("wrapmin"@, length_at(e, "wrapmin"@));
    let ts = outcome_issues("tabsize"@, size_at(e, "tabsize"@));
    let tc = outcome_issues("tabchar"@, text_at(e, "tabchar"@));
    assert(tc =~= Seq::<Issue>::empty());
    assert(none_for(w, k));
    assert(none_for(wl, k));
    assert(none_for(wm, k));
    assert(none_for(ts, k));
    assert(none_for(tc, k));
    lemma_none_for_concat(w, wl, k);
    lemma_none_for_concat(w + wl, wm, k);
    lemma_none_for_concat(w + wl + wm, ts, k);
    lemma_none_for_concat(w + wl + wm + ts, tc, k);
    lemma_list_issue_keys(e, "lists"@, false, k);
    lemma_list_issue_keys(e, "verbatims"@, false, k);
    lemma_list_issue_keys(e, "noIndentEnvs"@, false, k);
    lemma_list_issue_keys(e, "wrapChars"@, true, k);
    let l1 = list_issues(e, "lists"@, false);
    let l2 = list_issues(e, "verbatims"@, false);
    let l3 = list_issues(e, "noIndentEnvs"@, false);
    let l4 = list_issues(e, "wrapChars"@, true);
    let ft = outcome_issues("formatTables"@, boolean_at(e, "formatTables"@));
    assert(none_for(ft, k));
    let u = unknown_issues(e);
    lemma_without_keys_keys(e, known_keys());
    assert(known_keys().contains(k));
    assert forall|i: int| 0 <= i < u.len() implies (#[trigger] u[i]).0 != k by {
        assert(u[i].0 == without_keys(e, known_keys())[i].0);
    }
    lemma_none_for_concat(l1, l2, k);
    lemma_none_for_concat(l1 + l2, l3, k);
    lemma_none_for_concat(l1 + l2 + l3, l4, k);
    lemma_none_for_concat(l1 + l2 + l3 + l4, ft, k);
    lemma_none_for_concat(l1 + l2 + l3 + l4 + ft, u, k);
    assert(resolved_view(e, g).tabchar == t);
    let before = w + wl + wm + ts + tc;
    let after = l1 + l2 + l3 + l4 + ft + u;
    assert(resolution_issues(e, g) =~= before + tabchar_issues(t) + after);
}

/// Where `tabchar` is set to a text, the option is that text, and a
/// diagnostic concerns `tabchar` if and only if the text is neither `space`
/// nor `tab`; that diagnostic then says which text it got.
pub proof fn law_tabchar_reported_iff_invalid(e: Seq<(Seq<char>, RawValue)>, g: GlobalOptions, t: Seq<char>)
    requires
        text_at(e, "tabchar"@) == Outcome::Found(t),
    ensures
        resolved_view(e, g).tabchar == t,
        (exists|i: int| 0 <= i < resolution_issues(e, g).len() && (#[trigger] resolution_issues(e, g)[i]).0 == "tabchar"@)
            <==> (t != "space"@ && t != "tab"@),
        (t != "space"@ && t != "tab"@) ==> resolution_issues(e, g).contains(("tabchar"@, tabchar_message(t))),
{
    lemma_only_check_concerns_tabchar(e, g, t);
    let k = "tabchar"@;
    let before = outcome_issues("wrap"@, boolean_at(e, "wrap"@))
        + outcome_issues("wraplen"@, length_at(e, "wraplen"@))
        + outcome_issues("wrapmin"@, length_at(e, "wrapmin"@))
        + outcome_issues("tabsize"@, size_at(e, "tabsize"@))
        + outcome_issues("tabchar"@, text_at(e, "tabchar"@));
    let after = list_issues(e, "lists"@, false)
        + list_issues(e, "verbatims"@, false)
        + list_issues(e, "noIndentEnvs"@, false)
        + list_issues(e, "wrapChars"@, true)
        + outcome_issues("formatTables"@, boolean_at(e, "formatTables"@))
        + unknown_issues(e);
    let all = resolution_issues(e, g);
    if t != "space"@ && t != "tab"@ {
        assert(all[before.len() as int] == (k, tabchar_message(t)));
    } else {
        assert(tabchar_issues(t) =~= Seq::<Issue>::empty());
        assert(all =~= before + after);
        lemma_none_for_concat(before, after, k);
    }
}

/// The value under `key` is the same once another key is taken out.
proof fn lemma_lookup_without_other(e: Seq<(Seq<char>, RawValue)>, k: Seq<char>, key: Seq<char>)
    requires
        key != k,
    ensures
        lookup(without_key(e, k), key) == lookup(e, key),
    decreases e.len(),
{
    if e.len() > 0 {
        lemma_lookup_without_other(e.drop_first(), k, key);
        if e[0].0 != k {
            let kept = seq![e[0]] + without_key(e.drop_first(), k);
            assert(kept[0] == e[0]);
            assert(kept.drop_first() == without_key(e.drop_first(), k));
        }
    }
}

/// A key that the configuration does not know changes no option: the options
/// are those of the section without it.
pub proof fn law_unknown_key_changes_no_option(e: Seq<(Seq<char>, RawValue)>, g: GlobalOptions, k: Seq<char>)
    requires
        !known_keys().contains(k),
    ensures
        resolved_view(without_key(e, k), g) == resolved_view(e, g),
{
    let f = without_key(e, k);
    lemma_lookup_without_other(e, k, "wrap"@);
    lemma_lookup_without_other(e, k, "wraplen"@);
    lemma_lookup_without_other(e, k, "wrapmin"@);
    lemma_lookup_without_other(e, k, "tabsize"@);
    lemma_lookup_without_other(e, k, "tabchar"@);
    lemma_lookup_without_other(e, k, "lists"@);
    lemma_lookup_without_other(e, k, "verbatims"@);
    lemma_lookup_without_other(e, k, "noIndentEnvs"@);
    lemma_lookup_without_other(e, k, "wrapChars"@);
    lemma_lookup_without_other(e, k, "formatTables"@);
    assert(boolean_at(f, "wrap"@) == boolean_at(e, "wrap"@));
    assert(length_at(f, "wraplen"@) == length_at(e, "wraplen"@));
    assert(length_at(f, "wrapmin"@) == length_at(e, "wrapmin"@));
    assert(size_at(f, "tabsize"@) == size_at(e, "tabsize"@));
    assert(text_at(f, "tabchar"@) == text_at(e, "tabchar"@));
    assert(list_items(f, "lists"@) == list_items(e, "lists"@));
    assert(list_items(f, "verbatims"@) == list_items(e, "verbatims"@));
    assert(list_items(f, "noIndentEnvs"@) == list_items(e, "noIndentEnvs"@));
    assert(list_items(f, "wrapChars"@) == list_items(e, "wrapChars"@));
    assert(boolean_at(f, "formatTables"@) == boolean_at(e, "formatTables"@));
}

/// A value that resolving reads without a problem, for each known key:
/// booleans for `wrap` and `formatTables`, numbers from 1 in range for
/// `wraplen`, `wrapmin` and `tabsize`, `space` or `tab` for `tabchar`, arrays of strings
/// for the environment lists, and of one-character strings for `wrapChars`.
pub open spec fn well_formed_setting(key: Seq<char>, v: RawValue) -> bool {
    if key == "wrap"@ || key == "formatTables"@ {
        v is Bool
    } else if key == "wraplen"@ || key == "wrapmin"@ {
        v matches RawValue::Number(n) && n >= 1
    } else if key == "tabsize"@ {
        v matches RawValue::Number(n) && 1 <= n <= 255
    } else if key == "tabchar"@ {
        v == RawValue::Str("space"@) || v == RawValue::Str("tab"@)
    } else if key == "lists"@ || key == "verbatims"@ || key == "noIndentEnvs"@ {
        v matches RawValue::Array(items) && forall|i: int| 0 <= i < items.len() ==> (#[trigger] items[i]) is Str
    } else if key == "wrapChars"@ {
        v matches RawValue::Array(items) && forall|i: int|
            0 <= i < items.len() ==> (#[trigger] items[i] matches RawValue::Str(s) && s.len() == 1)
    } else {
        false
    }
}

/// A value found under a key is one of the entries.
proof fn lemma_lookup_is_entry(e: Seq<(Seq<char>, RawValue)>, key: Seq<char>)
    ensures
        lookup(e, key) matches Some(v) ==> exists|i: int| 0 <= i < e.len() && #[trigger] e[i] == (key, v),
    decreases e.len(),
{
    if e.len() > 0 && e[0].0 != key {
        lemma_lookup_is_entry(e.drop_first(), key);
        if let Some(v) = lookup(e, key) {
            let i = choose|i: int| 0 <= i < e.drop_first().len() && #[trigger] e.drop_first()[i] == (key, v);
            assert(e[i + 1] == (key, v));
        }
    }
    if e.len() > 0 && e[0].0 == key {
        assert(e[0] == (key, e[0].1));
    }
}

/// Arrays of strings raise no issue for their items.
proof fn lemma_string_items_fine(key: Seq<char>, items: Seq<RawValue>)
    requires
        forall|i: int| 0 <= i < items.len() ==> (#[trigger] items[i]) is Str,
    ensures
        string_item_issues(key, item_texts(items)) == Seq::<Issue>::empty(),
    decreases items.len(),
{
    if items.len() > 0 {
        let front = items.drop_last();
        assert forall|i: int| 0 <= i < front.len() implies (#[trigger] front[i]) is Str by {
            assert(front[i] == items[i]);
        }
        lemma_string_items_fine(key, front);
        assert(item_texts(items).drop_last() =~= item_texts(front));
        assert(items[items.len() - 1] is Str);
    }
}

/// Arrays of one-character strings raise no issue for their items.
proof fn lemma_char_items_fine(key: Seq<char>, items: Seq<RawValue>)
    requires
        forall|i: int| 0 <= i < items.len() ==> (#[trigger] items[i] matches RawValue::Str(s) && s.len() == 1),
    ensures
        char_item_issues(key, item_texts(items)) == Seq::<Issue>::empty(),
    decreases items.len(),
{
    if items.len() > 0 {
        let front = items.drop_last();
        assert forall|i: int| 0 <= i < front.len() implies (#[trigger] front[i] matches RawValue::Str(s) && s.len() == 1) by {
            assert(front[i] == items[i]);
        }
        lemma_char_items_fine(key, front);
        assert(item_texts(items).drop_last() =~= item_texts(front));
        assert(items[items.len() - 1] matches RawValue::Str(s) && s.len() == 1);
    }
}

/// Entries under known keys only leave nothing once the known keys are taken out.
proof fn lemma_all_known_leaves_nothing(e: Seq<(Seq<char>, RawValue)>)
    requires
        forall|i: int| 0 <= i < e.len() ==> known_keys().contains(#[trigger] e[i].0),
    ensures
        without_keys(e, known_keys()) == Seq::<(Seq<char>, RawValue)>::empty(),
    decreases e.len(),
{
    if e.len() > 0 {
        let rest = e.drop_first();
        assert forall|i: int| 0 <= i < rest.len() implies known_keys().contains(#[trigger] rest[i].0) by {
            assert(rest[i] == e[i + 1]);
        }
        lemma_all_known_leaves_nothing(rest);
        assert(known_keys().contains(e[0].0));
    }
}

/// A section whose every entry is a well-formed value of a known key is
/// resolved without any diagnostic.
pub proof fn law_well_formed_section_reports_nothing(e: Seq<(Seq<char>, RawValue)>, g: GlobalOptions)
    requires
        forall|i: int| 0 <= i < e.len() ==> well_formed_setting(#[trigger] e[i].0, e[i].1),
    ensures
        resolution_issues(e, g) == Seq::<Issue>::empty(),
{
    lemma_known_keys_distinct();
    assert forall|i: int| 0 <= i < e.len() implies known_keys().contains(#[trigger] e[i].0) by {
        assert(well_formed_setting(e[i].0, e[i].1));
    }
    lemma_all_known_leaves_nothing(e);
    assert(unknown_issues(e) =~= Seq::<Issue>::empty());
    let keys = seq![
        "wrap"@, "wraplen"@, "wrapmin"@, "tabsize"@, "tabchar"@,
        "lists"@, "verbatims"@, "noIndentEnvs"@, "wrapChars"@, "formatTables"@,
    ];
    assert forall|j: int| 0 <= j < keys.len() implies
        (lookup(e, #[trigger] keys[j]) matches Some(v) ==> well_formed_setting(keys[j], v)) by {
        lemma_lookup_is_entry(e, keys[j]);
        if let Some(v) = lookup(e, keys[j]) {
            let i = choose|i: int| 0 <= i < e.len() && #[trigger] e[i] == (keys[j], v);
            assert(well_formed_setting(e[i].0, e[i].1));
        }
    }
    assert(keys[0] == "wrap"@);
    assert(keys[1] == "wraplen"@);
    assert(keys[2] == "wrapmin"@);
    assert(keys[3] == "tabsize"@);
    assert(keys[4] == "tabchar"@);
    assert(keys[5] == "lists"@);
    assert(keys[6] == "verbatims"@);
    assert(keys[7] == "noIndentEnvs"@);
    assert(keys[8] == "wrapChars"@);
    assert(keys[9] == "formatTables"@);
    assert(outcome_issues("wrap"@, boolean_at(e, "wrap"@)) =~= Seq::<Issue>::empty());
    assert(outcome_issues("wraplen"@, length_at(e, "wraplen"@)) =~= Seq::<Issue>::empty());
    assert(outcome_issues("wrapmin"@, length_at(e, "wrapmin"@)) =~= Seq::<Issue>::empty());
    assert(outcome_issues("tabsize"@, size_at(e, "tabsize"@)) =~= Seq::<Issue>::empty());
    assert(outcome_issues("tabchar"@, text_at(e, "tabchar"@)) =~= Seq::<Issue>::empty());
    assert(outcome_issues("formatTables"@, boolean_at(e, "formatTables"@)) =~= Seq::<Issue>::empty());
    let t = resolved_view(e, g).tabchar;
    assert(t == "space"@ || t == "tab"@);
    assert(tabchar_issues(t) =~= Seq::<Issue>::empty());
    if let Some(RawValue::Array(items)) = lookup(e, "lists"@) {
        lemma_string_items_fine("lists"@, items);
    }
    if let Some(RawValue::Array(items)) = lookup(e, "verbatims"@) {
        lemma_string_items_fine("verbatims"@, items);
    }
    if let Some(RawValue::Array(items)) = lookup(e, "noIndentEnvs"@) {
        lemma_string_items_fine("noIndentEnvs"@, items);
    }
    if let Some(RawValue::Array(items)) = lookup(e, "wrapChars"@) {
        lemma_char_items_fine("wrapChars"@, items);
    }
    assert(list_issues(e, "lists"@, false) =~= Seq::<Issue>::empty());
    assert(list_issues(e, "verbatims"@, false) =~= Seq::<Issue>::empty());
    assert(list_issues(e, "noIndentEnvs"@, false) =~= Seq::<Issue>::empty());
    assert(list_issues(e, "wrapChars"@, true) =~= Seq::<Issue>::empty());
    assert(resolution_issues(e, g) =~= Seq::<Issue>::empty());
}

/// Reads the boolean under `key`, which is not yet taken from the entries `e`.
fn read_bool(
    config: &mut ConfigKeyMap,
    key: &str,
    default: bool,
    diagnostics: &mut Vec<Diagnostic>,
    Ghost(e): Ghost<Seq<(Seq<char>, RawValue)>>,
    Ghost(ks): Ghost<Set<Seq<char>>>,
    Ghost(issues): Ghost<Seq<Issue>>,
) -> (b: bool)
    requires
        config_entries(*old(config)) == without_keys(e, ks),
        !ks.contains(key@),
        reports(old(diagnostics)@, issues),
    ensures
        config_entries(*final(config)) == without_keys(e, ks.insert(key@)),
        b == value_or(boolean_at(e, key@), default),
        reports(final(diagnostics)@, issues + outcome_issues(key@, boolean_at(e, key@))),
{
    proof {
        lemma_remove_one_more(e, ks, key@);
    }
    let ghost before = diagnostics@;
    let r = take_bool(config, key, diagnostics);
    proof {
        lemma_reports_took(before, diagnostics@, issues, key@, boolean_at(e, key@), r);
    }
    match r {
        Some(b) => b,
        None => default,
    }
}

/// Reports a length or size of zero under `key`.
fn report_below_one(key: &str, diagnostics: &mut Vec<Diagnostic>, Ghost(issues): Ghost<Seq<Issue>>)
    requires
        reports(old(diagnostics)@, issues),
    ensures
        reports(final(diagnostics)@, issues + seq![(key@, below_one_message())]),
{
    let ghost before = diagnostics@;
    diagnostics.push(Diagnostic {
        property_name: key.to_owned(),
        message: "Expected a value of at least 1.".to_owned(),
    });
    proof {
        reveal_strlit("Expected a value of at least 1.");
        assert(diagnostics@.take(before.len() as int) == before);
        lemma_reports_push(before, diagnostics@, issues, key@, below_one_message());
    }
}

/// Reads the length under `key`, which is not yet taken from the entries `e`:
/// a `usize` of at least 1.
fn read_usize(
    config: &mut ConfigKeyMap,
    key: &str,
    default: usize,
    diagnostics: &mut Vec<Diagnostic>,
    Ghost(e): Ghost<Seq<(Seq<char>, RawValue)>>,
    Ghost(ks): Ghost<Set<Seq<char>>>,
    Ghost(issues): Ghost<Seq<Issue>>,
) -> (n: usize)
    requires
        config_entries(*old(config)) == without_keys(e, ks),
        !ks.contains(key@),
        reports(old(diagnostics)@, issues),
    ensures
        config_entries(*final(config)) == without_keys(e, ks.insert(key@)),
        n as nat == value_or(length_at(e, key@), default as nat),
        reports(final(diagnostics)@, issues + outcome_issues(key@, length_at(e, key@))),
{
    proof {
        lemma_remove_one_more(e, ks, key@);
    }
    let ghost before = diagnostics@;
    let r = take_usize(config, key, diagnostics);
    proof {
        lemma_reports_took(
            before,
            diagnostics@,
            issues,
            key@,
            usize_at(e, key@),
            match r {
                Some(n) => Some(n as nat),
                None => None,
            },
        );
    }
    match r {
        Some(n) => if n == 0 {
            report_below_one(key, diagnostics, Ghost(issues));
            default
        } else {
            n
        },
        None => default,
    }
}

/// Reads the size under `key`, which is not yet taken from the entries `e`:
/// a `u8` of at least 1.
fn read_u8(
    config: &mut ConfigKeyMap,
    key: &str,
    default: u8,
    diagnostics: &mut Vec<Diagnostic>,
    Ghost(e): Ghost<Seq<(Seq<char>, RawValue)>>,
    Ghost(ks): Ghost<Set<Seq<char>>>,
    Ghost(issues): Ghost<Seq<Issue>>,
) -> (n: u8)
    requires
        config_entries(*old(config)) == without_keys(e, ks),
        !ks.contains(key@),
        reports(old(diagnostics)@, issues),
    ensures
        config_entries(*final(config)) == without_keys(e, ks.insert(key@)),
        n as nat == value_or(size_at(e, key@), default as nat),
        reports(final(diagnostics)@, issues + outcome_issues(key@, size_at(e, key@))),
{
    proof {
        lemma_remove_one_more(e, ks, key@);
    }
    let ghost before = diagnostics@;
    let r = take_u8(config, key, diagnostics);
    proof {
        lemma_reports_took(
            before,
            diagnostics@,
            issues,
            key@,
            u8_at(e, key@),
            match r {
                Some(n) => Some(n as nat),
                None => None,
            },
        );
    }
    match r {
        Some(n) => if n == 0 {
            report_below_one(key, diagnostics, Ghost(issues));
            default
        } else {
            n
        },
        None => default,
    }
}

/// Reads the string under `key`, which is not yet taken from the entries `e`.
fn read_string(
    config: &mut ConfigKeyMap,
    key: &str,
    default: String,
    diagnostics: &mut Vec<Diagnostic>,
    Ghost(e): Ghost<Seq<(Seq<char>, RawValue)>>,
    Ghost(ks): Ghost<Set<Seq<char>>>,
    Ghost(issues): Ghost<Seq<Issue>>,
) -> (s: String)
    requires
        config_entries(*old(config)) == without_keys(e, ks),
        !ks.contains(key@),
        reports(old(diagnostics)@, issues),
    ensures
        config_entries(*final(config)) == without_keys(e, ks.insert(key@)),
        s@ == value_or(text_at(e, key@), default@),
        reports(final(diagnostics)@, issues + outcome_issues(key@, text_at(e, key@))),
{
    proof {
        lemma_remove_one_more(e, ks, key@);
    }
    let ghost before = diagnostics@;
    let r = take_string(config, key, diagnostics);
    proof {
        lemma_reports_took(before, diagnostics@, issues, key@, text_at(e, key@), text_read(r));
    }
    match r {
        Some(s) => s,
        None => default,
    }
}

/// Reads the array of strings under `key`, which is not yet taken from the entries `e`.
fn read_string_list(
    config: &mut ConfigKeyMap,
    key: &str,
    default: Vec<String>,
    additive: bool,
    diagnostics: &mut Vec<Diagnostic>,
    Ghost(e): Ghost<Seq<(Seq<char>, RawValue)>>,
    Ghost(ks): Ghost<Set<Seq<char>>>,
    Ghost(issues): Ghost<Seq<Issue>>,
) -> (r: Vec<String>)
    requires
        config_entries(*old(config)) == without_keys(e, ks),
        !ks.contains(key@),
        reports(old(diagnostics)@, issues),
    ensures
        config_entries(*final(config)) == without_keys(e, ks.insert(key@)),
        strings_view(r@) == match list_items(e, key@) {
            Some(items) => given_list(strings_view(default@), additive, texts_of(items)),
            None => strings_view(default@),
        },
        reports(final(diagnostics)@, issues + list_issues(e, key@, false)),
{
    proof {
        lemma_remove_one_more(e, ks, key@);
    }
    take_string_list(config, key, default, additive, diagnostics, Ghost(issues))
}

/// Reads the array of one-character strings under `key`, which is not yet
/// taken from the entries `e`.
fn read_char_list(
    config: &mut ConfigKeyMap,
    key: &str,
    default: Vec<char>,
    diagnostics: &mut Vec<Diagnostic>,
    Ghost(e): Ghost<Seq<(Seq<char>, RawValue)>>,
    Ghost(ks): Ghost<Set<Seq<char>>>,
    Ghost(issues): Ghost<Seq<Issue>>,
) -> (r: Vec<char>)
    requires
        config_entries(*old(config)) == without_keys(e, ks),
        !ks.contains(key@),
        reports(old(diagnostics)@, issues),
    ensures
        config_entries(*final(config)) == without_keys(e, ks.insert(key@)),
        r@ == match list_items(e, key@) {
            Some(items) => single_chars_of(items),
            None => default@,
        },
        reports(final(diagnostics)@, issues + list_issues(e, key@, true)),
{
    proof {
        lemma_remove_one_more(e, ks, key@);
    }
    take_char_list(config, key, default, diagnostics, Ghost(issues))
}

/// Reports a `tabchar` that is neither `space` nor `tab`.
fn check_tabchar(tabchar: &String, diagnostics: &mut Vec<Diagnostic>, Ghost(issues): Ghost<Seq<Issue>>)
    requires
        reports(old(diagnostics)@, issues),
    ensures
        reports(final(diagnostics)@, issues + tabchar_issues(tabchar@)),
{
    let space = "space".to_owned();
    let tab = "tab".to_owned();
    if !(*tabchar == space) && !(*tabchar == tab) {
        let ghost before = diagnostics@;
        let mut message = "Expected \"space\" or \"tab\", got \"".to_owned();
        message.append(tabchar.as_str());
        message.append("\".");
        diagnostics.push(Diagnostic { property_name: "tabchar".to_owned(), message });
        proof {
            assert(diagnostics@.take(before.len() as int) == before);
            lemma_reports_push(before, diagnostics@, issues, "tabchar"@, tabchar_message(tabchar@));
        }
    } else {
        assert(issues + tabchar_issues(tabchar@) =~= issues);
    }
}

/// Appends one diagnostic for every entry left in the map.
fn report_unknown(config: ConfigKeyMap, diagnostics: &mut Vec<Diagnostic>, Ghost(e): Ghost<Seq<(Seq<char>, RawValue)>>, Ghost(issues): Ghost<Seq<Issue>>)
    requires
        config_entries(config) == without_keys(e, known_keys()),
        reports(old(diagnostics)@, issues),
    ensures
        reports(final(diagnostics)@, issues + unknown_issues(e)),
{
    let ghost before = diagnostics@;
    let mut unknown = unknown_properties(config);
    let ghost u = unknown@;
    diagnostics.append(&mut unknown);
    proof {
        assert(diagnostics@ == before + u);
        let all = issues + unknown_issues(e);
        assert forall|i: int| 0 <= i < all.len() implies {
            &&& (#[trigger] diagnostics@[i]).property_name@ == all[i].0
            &&& diagnostics@[i].message@ == all[i].1
        } by {
            if i >= issues.len() {
                let j = i - before.len();
                assert(diagnostics@[i] == u[j]);
                assert(all[i] == unknown_issues(e)[j]);
            }
        }
    }
}

/// Resolves the raw `texFmt` section, with dprint's global options as
/// fallbacks: every known key is read and taken out, a problem with a value
/// is reported and its default used instead (a `wraplen`, `wrapmin` or
/// `tabsize` of 0 among them, as these must be at least 1), the environments given for
/// `lists` and `verbatims` are added to the built-in ones, a `tabchar` other than `space`
/// or `tab` is reported, and every key left over is reported as unknown.
#[verifier::rlimit(50)]
pub fn resolve_config(config: ConfigKeyMap, global_config: &GlobalOptions) -> (r: ResolvedConfiguration)
    ensures
        r.config@ == resolved_view(config_entries(config), *global_config),
        reports(r.diagnostics@, resolution_issues(config_entries(config), *global_config)),
        strings_view(r.file_matching.file_extensions@) == plugin_file_extensions(),
        r.file_matching.file_names@.len() == 0,
{
    let ghost e = config_entries(config);
    let ghost g = *global_config;
    let ghost want = resolved_view(e, g);
    let mut config = config;
    let mut diagnostics: Vec<Diagnostic> = Vec::new();
    proof {
        lemma_without_no_keys(e);
        lemma_known_keys_distinct();
    }
    let ghost ks0: Set<Seq<char>> = Set::empty();
    let ghost i0: Seq<Issue> = seq![];

    let wrap = read_bool(&mut config, "wrap", true, &mut diagnostics, Ghost(e), Ghost(ks0), Ghost(i0));
    let ghost ks1 = ks0.insert("wrap"@);
    let ghost i1 = i0 + outcome_issues("wrap"@, boolean_at(e, "wrap"@));

    let default_len: usize = match global_config.line_width {
        Some(w) => w as usize,
        None => 80,
    };
    let wraplen = read_usize(&mut config, "wraplen", default_len, &mut diagnostics, Ghost(e), Ghost(ks1), Ghost(i1));
    let ghost ks2 = ks1.insert("wraplen"@);
    let ghost i2 = i1 + outcome_issues("wraplen"@, length_at(e, "wraplen"@));

    let default_min: usize = if wraplen >= 50 {
        wraplen - 10
    } else {
        wraplen
    };
    let wrapmin = read_usize(&mut config, "wrapmin", default_min, &mut diagnostics, Ghost(e), Ghost(ks2), Ghost(i2));
    let ghost ks3 = ks2.insert("wrapmin"@);
    let ghost i3 = i2 + outcome_issues("wrapmin"@, length_at(e, "wrapmin"@));

    let default_size: u8 = match global_config.indent_width {
        Some(w) => w,
        None => 2,
    };
    let tabsize = read_u8(&mut config, "tabsize", default_size, &mut diagnostics, Ghost(e), Ghost(ks3), Ghost(i3));
    let ghost ks4 = ks3.insert("tabsize"@);
    let ghost i4 = i3 + outcome_issues("tabsize"@, size_at(e, "tabsize"@));

    let uses_tabs = match global_config.use_tabs {
        Some(b) => b,
        None => false,
    };
    let default_char = if uses_tabs {
        "tab".to_owned()
    } else {
        "space".to_owned()
    };
    let tabchar = read_string(&mut config, "tabchar", default_char, &mut diagnostics, Ghost(e), Ghost(ks4), Ghost(i4));
    let ghost ks5 = ks4.insert("tabchar"@);
    let ghost i5 = i4 + outcome_issues("tabchar"@, text_at(e, "tabchar"@));
    check_tabchar(&tabchar, &mut diagnostics, Ghost(i5));
    let ghost i6 = i5 + tabchar_issues(tabchar@);

    let lists = read_string_list(&mut config, "lists", default_list_environments(), true, &mut diagnostics, Ghost(e), Ghost(ks5), Ghost(i6));
    let ghost ks6 = ks5.insert("lists"@);
    let ghost i7 = i6 + list_issues(e, "lists"@, false);

    let verbatims = read_string_list(&mut config, "verbatims", default_verbatim_environments(), true, &mut diagnostics, Ghost(e), Ghost(ks6), Ghost(i7));
    let ghost ks7 = ks6.insert("verbatims"@);
    let ghost i8 = i7 + list_issues(e, "verbatims"@, false);

    let no_indent_envs = read_string_list(&mut config, "noIndentEnvs", default_unindented_environments(), false, &mut diagnostics, Ghost(e), Ghost(ks7), Ghost(i8));
    let ghost ks8 = ks7.insert("noIndentEnvs"@);
    let ghost i9 = i8 + list_issues(e, "noIndentEnvs"@, false);

    let wrap_chars = read_char_list(&mut config, "wrapChars", vec![' '], &mut diagnostics, Ghost(e), Ghost(ks8), Ghost(i9));
    let ghost ks9 = ks8.insert("wrapChars"@);
    let ghost i10 = i9 + list_issues(e, "wrapChars"@, true);

    let format_tables = read_bool(&mut config, "formatTables", false, &mut diagnostics, Ghost(e), Ghost(ks9), Ghost(i10));
    let ghost ks10 = ks9.insert("formatTables"@);
    let ghost i11 = i10 + outcome_issues("formatTables"@, boolean_at(e, "formatTables"@));
    assert(ks10 =~= known_keys());

    report_unknown(config, &mut diagnostics, Ghost(e), Ghost(i11));
    assert(tabchar@ == want.tabchar);
    assert(i11 + unknown_issues(e) == resolution_issues(e, g));

    let config = Configuration {
        wrap,
        wraplen,
        wrapmin,
        tabsize,
        tabchar,
        lists,
        verbatims,
        no_indent_envs,
        wrap_chars,
        format_tables,
    };
    assert(config@.wrap == want.wrap);
    assert(config@.wraplen == want.wraplen);
    assert(config@.wrapmin == want.wrapmin);
    assert(config@.tabsize == want.tabsize);
    assert(config@.tabchar == want.tabchar);
    assert(config@.lists == want.lists);
    assert(config@.verbatims == want.verbatims);
    assert(config@.no_indent_envs == want.no_indent_envs);
    assert(config@.wrap_chars == want.wrap_chars);
    assert(config@.format_tables == want.format_tables);
    assert(config@ == want);
    ResolvedConfiguration {
        file_matching: FileMatching { file_extensions: file_extensions(), file_names: Vec::new() },
        diagnostics,
        config,
    }
}

} // verus!
