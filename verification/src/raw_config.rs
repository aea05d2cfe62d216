//! The raw configuration that dprint hands the plugin: a key map of dprint
//! values, read through dprint's own accessors.
//!
//! The map stays dprint's `ConfigKeyMap`; what the plugin reads of it is named
//! by `config_entries`, a sequence of keys and `RawValue`s in the map's order.

use vstd::prelude::*;
use dprint_core::configuration::{
    get_nullable_value, get_nullable_vec, get_unknown_property_diagnostics, ConfigKeyMap,
    ConfigKeyValue,
};

verus! {

/// indexmap's `IndexMap`, of which dprint's `ConfigKeyMap` is one: a map that
/// keeps its keys in insertion order.
#[verifier::external_type_specification]
#[verifier::external_body]
#[verifier::reject_recursive_types(K)]
#[verifier::reject_recursive_types(V)]
#[verifier::reject_recursive_types(S)]
pub struct ExIndexMap<K, V, S>(indexmap::IndexMap<K, V, S>);

/// dprint's `ConfigKeyValue`: a string, number, boolean, array, object or null.
#[verifier::external_type_specification]
#[verifier::external_body]
pub struct ExConfigKeyValue(ConfigKeyValue);

/// A raw configuration value, as far as the plugin reads it. The entries of
/// an object are not read, so they are not held here.
pub enum RawValue {
    Str(Seq<char>),
    Number(i32),
    Bool(bool),
    Array(Seq<RawValue>),
    Object,
    Null,
}

/// A problem found in the configuration: the key it concerns and a message.
#[derive(Debug, Clone)]
pub struct Diagnostic {
    pub property_name: String,
    pub message: String,
}

/// The keys and values of a dprint key map, in the map's order.
pub uninterp spec fn config_entries(map: ConfigKeyMap) -> Seq<(Seq<char>, RawValue)>;

/// The value stored under `key`, if any.
pub open spec fn lookup(entries: Seq<(Seq<char>, RawValue)>, key: Seq<char>) -> Option<RawValue>
    decreases entries.len(),
{
    if entries.len() == 0 {
        None
    } else if entries[0].0 == key {
        Some(entries[0].1)
    } else {
        lookup(entries.drop_first(), key)
    }
}

/// The entries without the one stored under `key`, in the same order.
pub open spec fn without_key(entries: Seq<(Seq<char>, RawValue)>, key: Seq<char>) -> Seq<(Seq<char>, RawValue)>
    decreases entries.len(),
{
    if entries.len() == 0 {
        entries
    } else if entries[0].0 == key {
        without_key(entries.drop_first(), key)
    } else {
        seq![entries[0]] + without_key(entries.drop_first(), key)
    }
}

/// The entries without those stored under any of `keys`, in the same order.
pub open spec fn without_keys(entries: Seq<(Seq<char>, RawValue)>, keys: Set<Seq<char>>) -> Seq<(Seq<char>, RawValue)>
    decreases entries.len(),
{
    if entries.len() == 0 {
        entries
    } else if keys.contains(entries[0].0) {
        without_keys(entries.drop_first(), keys)
    } else {
        seq![entries[0]] + without_keys(entries.drop_first(), keys)
    }
}

/// Removing no keys keeps every entry.
pub proof fn lemma_without_no_keys(entries: Seq<(Seq<char>, RawValue)>)
    ensures
        without_keys(entries, Set::empty()) == entries,
    decreases entries.len(),
{
    if entries.len() > 0 {
        lemma_without_no_keys(entries.drop_first());
        assert(entries == seq![entries[0]] + entries.drop_first());
    }
}

/// Removing one more key from what is left after removing `keys`: the value
/// under a key not yet removed is still there, and what is left is the
/// entries without `keys` and that key.
pub proof fn lemma_remove_one_more(entries: Seq<(Seq<char>, RawValue)>, keys: Set<Seq<char>>, key: Seq<char>)
    requires
        !keys.contains(key),
    ensures
        lookup(without_keys(entries, keys), key) == lookup(entries, key),
        without_key(without_keys(entries, keys), key) == without_keys(entries, keys.insert(key)),
    decreases entries.len(),
{
    if entries.len() > 0 {
        lemma_remove_one_more(entries.drop_first(), keys, key);
        let rest = without_keys(entries.drop_first(), keys);
        if !keys.contains(entries[0].0) {
            let kept = seq![entries[0]] + rest;
            assert(kept[0] == entries[0]);
            assert(kept.drop_first() == rest);
        }
    }
}

/// What reading one value gives: nothing (the key is missing or null), a
/// value, or a problem with its message.
pub enum Outcome<T> {
    Absent,
    Found(T),
    Invalid(Seq<char>),
}

/// The message for an array or object where a single value was expected.
pub open spec fn not_supported_message() -> Seq<char> {
    "Arrays and objects are not supported for this value"@
}

/// The message for a value that is not an array where one was expected.
pub open spec fn expected_array_message() -> Seq<char> {
    "Expected an array."@
}

/// The message of each diagnostic for a key left over in the configuration.
pub open spec fn unknown_property_message() -> Seq<char> {
    "Unknown property in configuration"@
}

pub open spec fn is_decimal_digit(c: char) -> bool {
    '0' <= c && c <= '9'
}

/// The number that a string of decimal digits spells.
pub open spec fn digits_value(s: Seq<char>) -> nat
    decreases s.len(),
{
    if s.len() == 0 {
        0
    } else {
        digits_value(s.drop_last()) * 10 + ((s.last() as int - '0' as int) as nat)
    }
}

/// What `str::parse` gives for an unsigned integer type before the range
/// check: an optional `+` followed by one or more decimal digits, and nothing else.
pub open spec fn unsigned_text_value(s: Seq<char>) -> Option<nat> {
    let digits = if s.len() > 0 && s[0] == '+' {
        s.drop_first()
    } else {
        s
    };
    if digits.len() > 0 && forall|i: int| 0 <= i < digits.len() ==> is_decimal_digit(#[trigger] digits[i]) {
        Some(digits_value(digits))
    } else {
        None
    }
}

/// The decimal digits of a natural number, without leading zeros.
pub open spec fn natural_text(n: nat) -> Seq<char>
    decreases n,
{
    if n < 10 {
        seq![('0' as int + n) as char]
    } else {
        natural_text(n / 10) + seq![('0' as int + n % 10) as char]
    }
}

/// An integer as `to_string` writes it.
pub open spec fn integer_text(n: int) -> Seq<char> {
    if n < 0 {
        seq!['-'] + natural_text((-n) as nat)
    } else {
        natural_text(n as nat)
    }
}

/// A boolean as `to_string` writes it.
pub open spec fn bool_text(b: bool) -> Seq<char> {
    if b {
        "true"@
    } else {
        "false"@
    }
}

/// What std's `Display` writes for the error that `bool::from_str` gives on `text`.
pub uninterp spec fn bool_parse_error_text(text: Seq<char>) -> Seq<char>;

/// What std's `Display` writes for the error that `usize::from_str` gives on `text`.
pub uninterp spec fn usize_parse_error_text(text: Seq<char>) -> Seq<char>;

/// What std's `Display` writes for the error that `u8::from_str` gives on `text`.
pub uninterp spec fn u8_parse_error_text(text: Seq<char>) -> Seq<char>;

/// Reading a boolean: a boolean, or the string `true` or `false`; any other
/// text gets `failure` of it, std's description of why it is no boolean.
pub open spec fn bool_outcome(v: RawValue, failure: spec_fn(Seq<char>) -> Seq<char>) -> Outcome<bool> {
    match v {
        RawValue::Null => Outcome::Absent,
        RawValue::Array(_) | RawValue::Object => Outcome::Invalid(not_supported_message()),
        RawValue::Bool(b) => Outcome::Found(b),
        RawValue::Str(s) => if s == "true"@ {
            Outcome::Found(true)
        } else if s == "false"@ {
            Outcome::Found(false)
        } else {
            Outcome::Invalid(failure(s))
        },
        RawValue::Number(n) => Outcome::Invalid(failure(integer_text(n as int))),
    }
}

/// Reading an unsigned integer no larger than `max`: a number, or a string of
/// digits, in range; any other text gets `failure` of it, std's description
/// of why it is no such integer.
pub open spec fn unsigned_outcome(v: RawValue, max: nat, failure: spec_fn(Seq<char>) -> Seq<char>) -> Outcome<nat> {
    match v {
        RawValue::Null => Outcome::Absent,
        RawValue::Array(_) | RawValue::Object => Outcome::Invalid(not_supported_message()),
        RawValue::Bool(b) => Outcome::Invalid(failure(bool_text(b))),
        RawValue::Number(n) => if 0 <= n && n <= max {
            Outcome::Found(n as nat)
        } else {
            Outcome::Invalid(failure(integer_text(n as int)))
        },
        RawValue::Str(s) => match unsigned_text_value(s) {
            Some(n) => if n <= max {
                Outcome::Found(n)
            } else {
                Outcome::Invalid(failure(s))
            },
            None => Outcome::Invalid(failure(s)),
        },
    }
}

/// Reading a string: a string, or the text of a number or boolean.
pub open spec fn text_outcome(v: RawValue) -> Outcome<Seq<char>> {
    match v {
        RawValue::Null => Outcome::Absent,
        RawValue::Array(_) | RawValue::Object => Outcome::Invalid(not_supported_message()),
        RawValue::Bool(b) => Outcome::Found(bool_text(b)),
        RawValue::Number(n) => Outcome::Found(integer_text(n as int)),
        RawValue::Str(s) => Outcome::Found(s),
    }
}

/// The outcome of reading a boolean under `key`, where `failure` describes
/// text that is no boolean.
pub open spec fn bool_at(
    entries: Seq<(Seq<char>, RawValue)>,
    key: Seq<char>,
    failure: spec_fn(Seq<char>) -> Seq<char>,
) -> Outcome<bool> {
    match lookup(entries, key) {
        None => Outcome::Absent,
        Some(v) => bool_outcome(v, failure),
    }
}

/// The outcome of reading a `bool` under `key`.
pub open spec fn boolean_at(entries: Seq<(Seq<char>, RawValue)>, key: Seq<char>) -> Outcome<bool> {
    bool_at(entries, key, |t: Seq<char>| bool_parse_error_text(t))
}

/// The outcome of reading an unsigned integer no larger than `max` under
/// `key`, where `failure` describes text that is no such integer.
pub open spec fn unsigned_at(
    entries: Seq<(Seq<char>, RawValue)>,
    key: Seq<char>,
    max: nat,
    failure: spec_fn(Seq<char>) -> Seq<char>,
) -> Outcome<nat> {
    match lookup(entries, key) {
        None => Outcome::Absent,
        Some(v) => unsigned_outcome(v, max, failure),
    }
}

/// The outcome of reading a `usize` under `key`.
pub open spec fn usize_at(entries: Seq<(Seq<char>, RawValue)>, key: Seq<char>) -> Outcome<nat> {
    unsigned_at(entries, key, usize::MAX as nat, |t: Seq<char>| usize_parse_error_text(t))
}

/// The outcome of reading a `u8` under `key`.
pub open spec fn u8_at(entries: Seq<(Seq<char>, RawValue)>, key: Seq<char>) -> Outcome<nat> {
    unsigned_at(entries, key, u8::MAX as nat, |t: Seq<char>| u8_parse_error_text(t))
}

/// The outcome of reading a string under `key`.
pub open spec fn text_at(entries: Seq<(Seq<char>, RawValue)>, key: Seq<char>) -> Outcome<Seq<char>> {
    match lookup(entries, key) {
        None => Outcome::Absent,
        Some(v) => text_outcome(v),
    }
}

/// `after` is `before` with one diagnostic appended, for `key`, whose message
/// is `message`.
pub open spec fn appended_one(
    before: Seq<Diagnostic>,
    after: Seq<Diagnostic>,
    key: Seq<char>,
    message: Seq<char>,
) -> bool {
    &&& after.len() == before.len() + 1
    &&& after.take(before.len() as int) == before
    &&& after.last().property_name@ == key
    &&& after.last().message@ == message
}

/// The result and diagnostics of reading one value, given its outcome.
pub open spec fn took<T>(
    before: Seq<Diagnostic>,
    after: Seq<Diagnostic>,
    key: Seq<char>,
    outcome: Outcome<T>,
    r: Option<T>,
) -> bool {
    match outcome {
        Outcome::Absent => r is None && after == before,
        Outcome::Found(t) => r == Some(t) && after == before,
        Outcome::Invalid(m) => r is None && appended_one(before, after, key, m),
    }
}

/// The items of an array as the list readers see them: the strings, and
/// `None` for every other item.
pub open spec fn item_texts(items: Seq<RawValue>) -> Seq<Option<Seq<char>>> {
    items.map_values(|v: RawValue|
        match v {
            RawValue::Str(s) => Some(s),
            _ => None,
        })
}

/// An item of a configuration array: its string where it is one.
pub struct ArrayItem {
    pub text: Option<String>,
}

/// dprint's list reader asks that its items can be read from text; it never
/// does so itself, as every item comes from the closure it is handed.
impl core::str::FromStr for ArrayItem {
    type Err = ();

    fn from_str(s: &str) -> (r: Result<ArrayItem, ()>)
        ensures
            r matches Ok(item) && (item.text matches Some(t) && t@ == s@),
    {
        Ok(ArrayItem { text: Some(s.to_owned()) })
    }
}

/// The views of array items.
pub open spec fn item_views(v: Seq<ArrayItem>) -> Seq<Option<Seq<char>>> {
    v.map_values(|o: ArrayItem|
        match o.text {
            Some(s) => Some(s@),
            None => None,
        })
}

/// Takes the boolean stored under `key` out of the map.
///
/// Calls dprint's `get_nullable_value::<bool>`, which removes the key and
/// parses the value's text with `bool::from_str`; the message of a parse
/// error is std's description of it, named by `bool_parse_error_text`.
#[verifier::external_body]
pub(crate) fn take_bool(config: &mut ConfigKeyMap, key: &str, diagnostics: &mut Vec<Diagnostic>) -> (r: Option<bool>)
    ensures
        config_entries(*final(config)) == without_key(config_entries(*old(config)), key@),
        took(old(diagnostics)@, final(diagnostics)@, key@,
            bool_at(config_entries(*old(config)), key@, |t: Seq<char>| bool_parse_error_text(t)), r),
{
    let mut found = Vec::new();
    let r = get_nullable_value::<bool>(config, key, &mut found);
    diagnostics.extend(found.into_iter().map(|d| Diagnostic { property_name: d.property_name, message: d.message }));
    r
}

/// Takes the `usize` stored under `key` out of the map.
///
/// Calls dprint's `get_nullable_value::<usize>`, which removes the key and
/// parses the value's text with `usize::from_str`; the message of a parse
/// error is std's description of it, named by `usize_parse_error_text`.
#[verifier::external_body]
pub(crate) fn take_usize(config: &mut ConfigKeyMap, key: &str, diagnostics: &mut Vec<Diagnostic>) -> (r: Option<usize>)
    ensures
        config_entries(*final(config)) == without_key(config_entries(*old(config)), key@),
        took(old(diagnostics)@, final(diagnostics)@, key@,
            unsigned_at(config_entries(*old(config)), key@, usize::MAX as nat,
                |t: Seq<char>| usize_parse_error_text(t)),
            match r { Some(n) => Some(n as nat), None => None }),
{
    let mut found = Vec::new();
    let r = get_nullable_value::<usize>(config, key, &mut found);
    diagnostics.extend(found.into_iter().map(|d| Diagnostic { property_name: d.property_name, message: d.message }));
    r
}

/// Takes the `u8` stored under `key` out of the map.
///
/// Calls dprint's `get_nullable_value::<u8>`, which removes the key and
/// parses the value's text with `u8::from_str`; the message of a parse
/// error is std's description of it, named by `u8_parse_error_text`.
#[verifier::external_body]
pub(crate) fn take_u8(config: &mut ConfigKeyMap, key: &str, diagnostics: &mut Vec<Diagnostic>) -> (r: Option<u8>)
    ensures
        config_entries(*final(config)) == without_key(config_entries(*old(config)), key@),
        took(old(diagnostics)@, final(diagnostics)@, key@,
            unsigned_at(config_entries(*old(config)), key@, u8::MAX as nat,
                |t: Seq<char>| u8_parse_error_text(t)),
            match r { Some(n) => Some(n as nat), None => None }),
{
    let mut found = Vec::new();
    let r = get_nullable_value::<u8>(config, key, &mut found);
    diagnostics.extend(found.into_iter().map(|d| Diagnostic { property_name: d.property_name, message: d.message }));
    r
}

/// Takes the string stored under `key` out of the map.
///
/// Calls dprint's `get_nullable_value::<String>`, which removes the key and
/// turns a string, number or boolean into its text.
#[verifier::external_body]
pub(crate) fn take_string(config: &mut ConfigKeyMap, key: &str, diagnostics: &mut Vec<Diagnostic>) -> (r: Option<String>)
    ensures
        config_entries(*final(config)) == without_key(config_entries(*old(config)), key@),
        took(old(diagnostics)@, final(diagnostics)@, key@,
            text_at(config_entries(*old(config)), key@),
            match r { Some(s) => Some(s@), None => None }),
{
    let mut found = Vec::new();
    let r = get_nullable_value::<String>(config, key, &mut found);
    diagnostics.extend(found.into_iter().map(|d| Diagnostic { property_name: d.property_name, message: d.message }));
    r
}

/// Takes the array stored under `key` out of the map, each item as its
/// string where it is one and `None` where it is not.
///
/// Calls dprint's `get_nullable_vec`, which removes the key, hands every item
/// of an array to the given closure in order, and adds a diagnostic where the
/// value is not an array. The closure here keeps every item.
#[verifier::external_body]
pub(crate) fn take_list(config: &mut ConfigKeyMap, key: &str, diagnostics: &mut Vec<Diagnostic>) -> (r: Option<Vec<ArrayItem>>)
    ensures
        config_entries(*final(config)) == without_key(config_entries(*old(config)), key@),
        match lookup(config_entries(*old(config)), key@) {
            None => r is None && final(diagnostics)@ == old(diagnostics)@,
            Some(RawValue::Array(items)) => r matches Some(v) && item_views(v@) == item_texts(items)
                && final(diagnostics)@ == old(diagnostics)@,
            Some(_) => r is None
                && appended_one(old(diagnostics)@, final(diagnostics)@, key@, expected_array_message()),
        },
{
    let mut found = Vec::new();
    let r = get_nullable_vec(config, key, |v, _i, _d| match v {
        ConfigKeyValue::String(s) => Some(ArrayItem { text: Some(s) }),
        _ => Some(ArrayItem { text: None }),
    }, &mut found);
    diagnostics.extend(found.into_iter().map(|d| Diagnostic { property_name: d.property_name, message: d.message }));
    r
}

/// One diagnostic for every entry left in the map, in the map's order.
///
/// Calls dprint's `get_unknown_property_diagnostics`.
#[verifier::external_body]
pub(crate) fn unknown_properties(config: ConfigKeyMap) -> (r: Vec<Diagnostic>)
    ensures
        r@.len() == config_entries(config).len(),
        forall|i: int| 0 <= i < r@.len() ==> {
            &&& (#[trigger] r@[i]).property_name@ == config_entries(config)[i].0
            &&& r@[i].message@ == unknown_property_message()
        },
{
    get_unknown_property_diagnostics(config).into_iter().map(|d| Diagnostic { property_name: d.property_name, message: d.message }).collect()
}

} // verus!
