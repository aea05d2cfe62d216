//! The plugin itself: what it tells dprint about itself, and formatting a
//! file's bytes with tex-fmt under a resolved configuration.

use vstd::prelude::*;
use vstd::utf8::{decode_utf8, encode_utf8, valid_utf8};
use vstd::string::{StrSliceExecFns, StringExecFns};
use dprint_core::configuration::ConfigKeyMap;
use tex_fmt::args::{Args, TabChar};
use crate::config::{
    plugin_file_extensions, reports, resolution_issues, resolve_config, resolved_view, strings_view,
    Configuration, ConfigurationView, GlobalOptions, ResolvedConfiguration,
};
use crate::raw_config::config_entries;

verus! {

/// The character that tex-fmt indents with.
#[derive(Debug, Clone, Copy, PartialEq, Eq, Structural)]
pub enum IndentChar {
    Tab,
    Space,
}

/// The options that tex-fmt formats a file with.
#[derive(Debug, Clone)]
pub struct FormatOptions {
    pub wrap: bool,
    pub wraplen: usize,
    pub wrapmin: usize,
    pub tabsize: u8,
    pub tabchar: IndentChar,
    pub lists: Vec<String>,
    pub verbatims: Vec<String>,
    pub no_indent_envs: Vec<String>,
    pub wrap_chars: Vec<char>,
    pub format_tables: bool,
}

/// The options of a `FormatOptions` as values.
pub struct FormatOptionsView {
    pub wrap: bool,
    pub wraplen: nat,
    pub wrapmin: nat,
    pub tabsize: nat,
    pub tabchar: IndentChar,
    pub lists: Seq<Seq<char>>,
    pub verbatims: Seq<Seq<char>>,
    pub no_indent_envs: Seq<Seq<char>>,
    pub wrap_chars: Seq<char>,
    pub format_tables: bool,
}

impl View for FormatOptions {
    type V = FormatOptionsView;

    open spec fn view(&self) -> FormatOptionsView {
        FormatOptionsView {
            wrap: self.wrap,
            wraplen: self.wraplen as nat,
            wrapmin: self.wrapmin as nat,
            tabsize: self.tabsize as nat,
            tabchar: self.tabchar,
            lists: strings_view(self.lists@),
            verbatims: strings_view(self.verbatims@),
            no_indent_envs: strings_view(self.no_indent_envs@),
            wrap_chars: self.wrap_chars@,
            format_tables: self.format_tables,
        }
    }
}

/// The tex-fmt options for a configuration: the same options, with tabs
/// where `tabchar` is `tab` and spaces otherwise.
pub open spec fn options_for(config: ConfigurationView) -> FormatOptionsView {
    FormatOptionsView {
        wrap: config.wrap,
        wraplen: config.wraplen,
        wrapmin: config.wrapmin,
        tabsize: config.tabsize,
        tabchar: if config.tabchar == "tab"@ {
            IndentChar::Tab
        } else {
            IndentChar::Space
        },
        lists: config.lists,
        verbatims: config.verbatims,
        no_indent_envs: config.no_indent_envs,
        wrap_chars: config.wrap_chars,
        format_tables: config.format_tables,
    }
}

/// Every `tabchar` other than `tab`, an invalid one too, indents with
/// spaces: tex-fmt gets the same options as for `space`, and so formats
/// every text alike.
pub proof fn law_non_tab_indents_with_spaces(config: ConfigurationView, tabchar: Seq<char>, source: Seq<char>)
    requires
        tabchar != "tab"@,
    ensures
        options_for((ConfigurationView { tabchar, ..config })) == options_for(
            (ConfigurationView { tabchar: "space"@, ..config }),
        ),
        formatted_text(source, (ConfigurationView { tabchar, ..config })) == formatted_text(
            source,
            (ConfigurationView { tabchar: "space"@, ..config }),
        ),
{
    reveal_strlit("space");
    reveal_strlit("tab");
    assert("space"@ != "tab"@) by {
        assert("space"@.len() != "tab"@.len());
    }
}

/// tex-fmt is handed what the configuration says: every option as it is,
/// and tabs exactly where `tabchar` is `tab`.
pub proof fn law_options_carry_configuration(c: ConfigurationView)
    ensures
        options_for(c).wrap == c.wrap,
        options_for(c).wraplen == c.wraplen,
        options_for(c).wrapmin == c.wrapmin,
        options_for(c).tabsize == c.tabsize,
        (options_for(c).tabchar == IndentChar::Tab) == (c.tabchar == "tab"@),
        (options_for(c).tabchar == IndentChar::Space) == (c.tabchar != "tab"@),
        options_for(c).lists == c.lists,
        options_for(c).verbatims == c.verbatims,
        options_for(c).no_indent_envs == c.no_indent_envs,
        options_for(c).wrap_chars == c.wrap_chars,
        options_for(c).format_tables == c.format_tables,
{
}

/// The tex-fmt options for a configuration.
pub fn format_options(config: &Configuration) -> (o: FormatOptions)
    ensures
        o@ == options_for(config@),
        o.wrap == config.wrap,
        o.wraplen == config.wraplen,
        o.wrapmin == config.wrapmin,
        o.tabsize == config.tabsize,
        (o.tabchar == IndentChar::Tab) == (config.tabchar@ == "tab"@),
        strings_view(o.lists@) == strings_view(config.lists@),
        strings_view(o.verbatims@) == strings_view(config.verbatims@),
        strings_view(o.no_indent_envs@) == strings_view(config.no_indent_envs@),
        o.wrap_chars@ == config.wrap_chars@,
        o.format_tables == config.format_tables,
{
    let tab = "tab".to_owned();
    let tabchar = if config.tabchar == tab {
        IndentChar::Tab
    } else {
        IndentChar::Space
    };
    FormatOptions {
        wrap: config.wrap,
        wraplen: config.wraplen,
        wrapmin: config.wrapmin,
        tabsize: config.tabsize,
        tabchar,
        lists: config.lists.clone(),
        verbatims: config.verbatims.clone(),
        no_indent_envs: config.no_indent_envs.clone(),
        wrap_chars: config.wrap_chars.clone(),
        format_tables: config.format_tables,
    }
}

/// What tex-fmt's `format_file` gives for a source text under the given
/// options: the formatted text, or `None` where it panics instead of
/// returning. It panics where its `i8` indentation arithmetic leaves that
/// type's range: where a line's visual indent times the tab size is not in
/// `0..=127` (so with a tab size of 128 or more as soon as a line is indented),
/// or where the running indent of nested groups leaves `-128..=127`. Where a
/// line is wrapped, it also subtracts the line's indent length from `wrapmin`
/// in `usize`, which panics in a debug build where the indent is the longer.
/// What happens on overflow differs between debug and release builds (a
/// release build wraps around where a debug build panics), and tex-fmt ends
/// lines with `\r\n` on Windows and `\n` elsewhere: the name stands for what
/// one build of the plugin gives.
pub uninterp spec fn tex_formatted(source: Seq<char>, options: FormatOptionsView) -> Option<Seq<char>>;

/// Formats a source text with tex-fmt.
///
/// Calls `tex_fmt::format::format_file` with the given options and its log
/// messages dropped. Its result is named `tex_formatted` of the text and the
/// options, and it is called only where that names a text, as it panics
/// otherwise. The remaining fields of tex-fmt's `Args` (checking, printing,
/// standard input, files, config file, verbosity) belong to its command line:
/// `format_file` reads none of them but the verbosity, and that only to decide
/// which log messages to record; the file's path, too, only goes into them.
#[verifier::external_body]
fn format_tex(source: &str, file_path: &str, o: FormatOptions) -> (r: String)
    requires
        tex_formatted(source@, o@) is Some,
    ensures
        tex_formatted(source@, o@) == Some(r@),
{
    let tabchar = match o.tabchar { IndentChar::Tab => TabChar::Tab, IndentChar::Space => TabChar::Space };
    let args = Args { check: false, print: true, fail_on_change: false, wrap: o.wrap, wraplen: o.wraplen,
        wrapmin: o.wrapmin, tabsize: o.tabsize, tabchar, stdin: false, config: None, lists: o.lists,
        verbatims: o.verbatims, no_indent_envs: o.no_indent_envs, wrap_chars: o.wrap_chars,
        verbosity: log::LevelFilter::Off, arguments: false, files: Vec::new(), recursive: false,
        format_tables: o.format_tables };
    tex_fmt::format::format_file(source, std::path::Path::new(file_path), &args, &mut Vec::new())
}

/// Where a byte string stops being UTF-8, as std's `Utf8Error` reports it.
#[derive(Debug, Clone)]
pub struct Utf8Failure {
    /// The length of the longest prefix that is UTF-8.
    pub valid_up_to: usize,
    /// The length of the invalid byte sequence after that prefix, or `None`
    /// where the bytes end inside a character.
    pub error_len: Option<usize>,
    /// std's description of the error.
    pub description: String,
}

/// `n` is the length of the longest prefix of `bytes` that is UTF-8.
pub open spec fn is_utf8_prefix_length(bytes: Seq<u8>, n: nat) -> bool {
    &&& n <= bytes.len()
    &&& valid_utf8(bytes.take(n as int))
    &&& forall|i: int| n < i <= bytes.len() ==> !valid_utf8(#[trigger] bytes.take(i))
}

/// The length of the longest UTF-8 prefix is one number: a failure to read
/// the same bytes always reports the same place.
pub proof fn law_utf8_prefix_length_unique(bytes: Seq<u8>, m: nat, n: nat)
    requires
        is_utf8_prefix_length(bytes, m),
        is_utf8_prefix_length(bytes, n),
    ensures
        m == n,
{
    if m < n {
        assert(!valid_utf8(bytes.take(n as int)));
    } else if n < m {
        assert(!valid_utf8(bytes.take(m as int)));
    }
}

/// What `Utf8Error::error_len` gives for the error that `std::str::from_utf8`
/// reports on `bytes`.
pub uninterp spec fn utf8_error_len(bytes: Seq<u8>) -> Option<usize>;

/// What std's `Display` writes for a `Utf8Error` whose `valid_up_to` and
/// `error_len` are these.
pub uninterp spec fn utf8_error_text(valid_up_to: usize, error_len: Option<usize>) -> Seq<char>;

/// Reads bytes as UTF-8 text.
///
/// Calls `std::str::from_utf8`, which succeeds exactly on valid UTF-8 and then
/// gives the text the bytes encode. Its `Utf8Error` is handed on as a
/// `Utf8Failure`, made of what its accessors and its `Display` give: as std
/// documents, `valid_up_to` is the largest index up to which the bytes are
/// UTF-8, `error_len` is `None` where the bytes end one to three bytes after
/// that index and otherwise the length of the invalid sequence there. Which
/// length that is, and the wording of the description, are named, not stated.
#[verifier::external_body]
fn text_of_bytes(bytes: &[u8]) -> (r: Result<&str, Utf8Failure>)
    ensures
        match r {
            Ok(s) => valid_utf8(bytes@) && s@ == decode_utf8(bytes@),
            Err(f) => {
                &&& !valid_utf8(bytes@)
                &&& is_utf8_prefix_length(bytes@, f.valid_up_to as nat)
                &&& f.error_len == utf8_error_len(bytes@)
                &&& match f.error_len {
                    None => 1 <= bytes@.len() - f.valid_up_to <= 3,
                    Some(n) => 1 <= n && f.valid_up_to + n <= bytes@.len(),
                }
                &&& f.description@ == utf8_error_text(f.valid_up_to, f.error_len)
            },
        },
{
    match std::str::from_utf8(bytes) {
        Ok(s) => Ok(s),
        Err(e) => Err(Utf8Failure { valid_up_to: e.valid_up_to(), error_len: e.error_len(), description: e.to_string() }),
    }
}

/// Why a file could not be formatted.
#[derive(Debug)]
pub enum FormatError {
    /// The file's bytes are not UTF-8; the failure says where they stop being so.
    InvalidUtf8(Utf8Failure),
}

/// The start of the message for a file that is not UTF-8.
pub open spec fn invalid_utf8_prefix() -> Seq<char> {
    "file is not valid UTF-8: "@
}

impl FormatError {
    /// The message that tells the user what went wrong: for a file that is not
    /// UTF-8, `file is not valid UTF-8: ` followed by std's description of
    /// where its bytes stop being so.
    pub fn message(&self) -> (s: String)
        ensures
            match self {
                FormatError::InvalidUtf8(f) => s@ == invalid_utf8_prefix() + f.description@,
            },
    {
        match self {
            FormatError::InvalidUtf8(f) => {
                proof {
                    reveal_strlit("file is not valid UTF-8: ");
                }
                let mut text = "file is not valid UTF-8: ".to_owned();
                text.append(f.description.as_str());
                text
            },
        }
    }
}

/// What formatting hands back to dprint: nothing where the text is already
/// formatted, else the bytes of the formatted text.
pub fn formatting_outcome(source: &str, formatted: String) -> (r: Option<Vec<u8>>)
    ensures
        if formatted@ == source@ {
            r is None
        } else {
            r matches Some(b) && b@ == encode_utf8(formatted@)
        },
{
    if formatted == source.to_owned() {
        None
    } else {
        Some(formatted.as_str().as_bytes_vec())
    }
}

/// What formatting a file's text under a configuration gives: the formatted
/// text, or `None` where tex-fmt panics on it.
pub open spec fn formatted_text(source: Seq<char>, config: ConfigurationView) -> Option<Seq<char>> {
    tex_formatted(source, options_for(config))
}

/// What the plugin tells dprint about itself.
#[derive(Debug, Clone)]
pub struct PluginInfo {
    pub name: String,
    pub version: String,
    pub config_key: String,
    pub help_url: String,
    pub config_schema_url: String,
    pub update_url: Option<String>,
}

/// The terms of the MIT license under which the plugin is offered, after
/// its title.
pub const LICENSE_TERMS: &'static str = "Copyright (c) kjanat

Permission is hereby granted, free of charge, to any person obtaining a copy
of this software and associated documentation files (the \"Software\"), to deal
in the Software without restriction, including without limitation the rights
to use, copy, modify, merge, publish, distribute, sublicense, and/or sell
copies of the Software, and to permit persons to whom the Software is
furnished to do so, subject to the following conditions:

The above copyright notice and this permission notice shall be included in all
copies or substantial portions of the Software.

THE SOFTWARE IS PROVIDED \"AS IS\", WITHOUT WARRANTY OF ANY KIND, EXPRESS OR
IMPLIED, INCLUDING BUT NOT LIMITED TO THE WARRANTIES OF MERCHANTABILITY,
FITNESS FOR A PARTICULAR PURPOSE AND NONINFRINGEMENT. IN NO EVENT SHALL THE
AUTHORS OR COPYRIGHT HOLDERS BE LIABLE FOR ANY CLAIM, DAMAGES OR OTHER
LIABILITY, WHETHER IN AN ACTION OF CONTRACT, TORT OR OTHERWISE, ARISING FROM,
OUT OF OR IN CONNECTION WITH THE SOFTWARE OR THE USE OR OTHER DEALINGS IN THE
SOFTWARE.
";

/// The dprint plugin that formats TeX files with tex-fmt.
#[derive(Debug)]
pub struct PluginHandler;

impl Default for PluginHandler {
    fn default() -> (h: PluginHandler) {
        PluginHandler::new()
    }
}

impl PluginHandler {
    pub fn new() -> (h: PluginHandler) {
        PluginHandler
    }

    /// The plugin's name, version, configuration key and home page.
    pub fn plugin_info(&mut self) -> (info: PluginInfo)
        ensures
            info.name@ == "dprint-plugin-tex-fmt"@,
            info.version@ == "0.1.0"@,
            info.config_key@ == "texFmt"@,
            info.help_url@ == "https://github.com/kjanat/dprint-plugin-tex-fmt"@,
            info.config_schema_url@ == ""@,
            info.update_url is None,
    {
        PluginInfo {
            name: "dprint-plugin-tex-fmt".to_owned(),
            version: "0.1.0".to_owned(),
            config_key: "texFmt".to_owned(),
            help_url: "https://github.com/kjanat/dprint-plugin-tex-fmt".to_owned(),
            config_schema_url: "".to_owned(),
            update_url: None,
        }
    }

    /// The text of the plugin's license, which is not empty.
    pub fn license_text(&mut self) -> (s: String)
        ensures
            s@ == "MIT License\n\n"@ + LICENSE_TERMS@,
            s@.len() > 0,
    {
        proof {
            reveal_strlit("MIT License\n\n");
        }
        let mut text = "MIT License\n\n".to_owned();
        text.append(LICENSE_TERMS);
        text
    }

    /// Resolves a raw configuration; see `config::resolve_config`.
    pub fn resolve_config(&mut self, config: ConfigKeyMap, global_config: &GlobalOptions) -> (r: ResolvedConfiguration)
        ensures
            r.config@ == resolved_view(config_entries(config), *global_config),
            reports(r.diagnostics@, resolution_issues(config_entries(config), *global_config)),
            strings_view(r.file_matching.file_extensions@) == plugin_file_extensions(),
            r.file_matching.file_names@.len() == 0,
    {
        resolve_config(config, global_config)
    }

    /// Formats the bytes of a file under a configuration: an error where they
    /// are not UTF-8, which says where they stop being so, nothing where tex-fmt leaves the text as it is, else the
    /// bytes of the formatted text. It is not for a text on which tex-fmt
    /// panics.
    pub fn format(&mut self, config: &Configuration, file_path: &str, file_bytes: &[u8]) -> (r: Result<Option<Vec<u8>>, FormatError>)
        requires
            valid_utf8(file_bytes@) ==> formatted_text(decode_utf8(file_bytes@), config@) is Some,
        ensures
            match r {
                Err(FormatError::InvalidUtf8(f)) => {
                    &&& !valid_utf8(file_bytes@)
                    &&& is_utf8_prefix_length(file_bytes@, f.valid_up_to as nat)
                    &&& f.error_len == utf8_error_len(file_bytes@)
                    &&& f.description@ == utf8_error_text(f.valid_up_to, f.error_len)
                },
                Ok(out) => valid_utf8(file_bytes@) && {
                    let source = decode_utf8(file_bytes@);
                    let formatted = formatted_text(source, config@).unwrap();
                    if formatted == source {
                        out is None
                    } else {
                        out matches Some(b) && b@ == encode_utf8(formatted)
                    }
                },
            },
    {
        let source = match text_of_bytes(file_bytes) {
            Ok(s) => s,
            Err(e) => return Err(FormatError::InvalidUtf8(e)),
        };
        let options = format_options(config);
        let formatted = format_tex(source, file_path, options);
        Ok(formatting_outcome(source, formatted))
    }
}

/// The handler resolves a configuration exactly as `config::resolve_config`
/// does: a result of either for the same section and global options has the
/// same options, the same files to format and the same diagnostics, each
/// with the same key and message.
pub proof fn law_handler_resolves_as_config(
    config: ConfigKeyMap,
    global_config: GlobalOptions,
    from_config: ResolvedConfiguration,
    from_handler: ResolvedConfiguration,
)
    requires
        from_config.config@ == resolved_view(config_entries(config), global_config),
        reports(from_config.diagnostics@, resolution_issues(config_entries(config), global_config)),
        strings_view(from_config.file_matching.file_extensions@) == plugin_file_extensions(),
        from_config.file_matching.file_names@.len() == 0,
        from_handler.config@ == resolved_view(config_entries(config), global_config),
        reports(from_handler.diagnostics@, resolution_issues(config_entries(config), global_config)),
        strings_view(from_handler.file_matching.file_extensions@) == plugin_file_extensions(),
        from_handler.file_matching.file_names@.len() == 0,
    ensures
        from_handler.config@ == from_config.config@,
        from_handler.diagnostics@.len() == from_config.diagnostics@.len(),
        forall|i: int| 0 <= i < from_config.diagnostics@.len() ==> {
            &&& (#[trigger] from_handler.diagnostics@[i]).property_name@ == from_config.diagnostics@[i].property_name@
            &&& from_handler.diagnostics@[i].message@ == from_config.diagnostics@[i].message@
        },
        strings_view(from_handler.file_matching.file_extensions@) == strings_view(from_config.file_matching.file_extensions@),
        from_handler.file_matching.file_names@.len() == from_config.file_matching.file_names@.len(),
{
    let issues = resolution_issues(config_entries(config), global_config);
    assert forall|i: int| 0 <= i < from_config.diagnostics@.len() implies {
        &&& (#[trigger] from_handler.diagnostics@[i]).property_name@ == from_config.diagnostics@[i].property_name@
        &&& from_handler.diagnostics@[i].message@ == from_config.diagnostics@[i].message@
    } by {
        assert(from_config.diagnostics@[i].property_name@ == issues[i].0);
        assert(from_handler.diagnostics@[i].property_name@ == issues[i].0);
    }
}

} // verus!
