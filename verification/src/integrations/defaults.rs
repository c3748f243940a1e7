//! macOS defaults: configured keys, their values, and the `defaults(1)` commands
//! that read and write them.

use vstd::prelude::*;
use vstd::string::*;

use crate::document::{lookup, toml_quote, toml_string_repr, TomlValue, find_key};
use crate::integrations::{DisplayValue, IntegrationChange};
use crate::number::{bits_equal, bits_finite, bits_nan, Real};
use crate::util::results::seq_result;
use crate::util::shell::{quote, quoted};
use crate::util::text::{
    bool_string, bool_text, chars_of, debug_quote, debug_str, decimal, decimal_string,
    is_control, is_control_char, same_text, string_of, trim, trim_chars,
};

verus! {

/// The path of the `defaults(1)` tool.
pub const DEFAULTS_CMD: &'static str = "/usr/bin/defaults";

/// One configured key in a macOS defaults domain.
#[derive(Debug)]
pub struct Setting {
    pub domain: String,
    pub key: String,
    pub value: Value,
}

/// A value that can be handed to `defaults(1)`.
#[derive(Debug)]
pub enum Value {
    Boolean(bool),
    Integer(i64),
    Float(Real),
    String(String),
}

/// Why a TOML value cannot be a defaults value.
#[derive(Debug)]
pub enum ValueError {
    /// A float that is infinite or NaN.
    NonFinite(Real),
    /// A datetime, array or table.
    Unsupported,
}

/// Why a string cannot be a defaults domain.
#[derive(Debug, Clone, Copy, PartialEq, Eq)]
pub enum DomainError {
    Empty,
    LeadingDash,
    ContainsSlash,
    ControlCharacter,
}

/// The check made on a defaults domain before it reaches `defaults(1)`: it
/// must not look like a file or an option.
pub open spec fn domain_check(domain: Seq<char>) -> Result<(), DomainError> {
    if domain.len() == 0 {
        Err(DomainError::Empty)
    } else if domain[0] == '-' {
        Err(DomainError::LeadingDash)
    } else if domain.contains('/') {
        Err(DomainError::ContainsSlash)
    } else if exists|i: int| 0 <= i < domain.len() && is_control(#[trigger] domain[i]) {
        Err(DomainError::ControlCharacter)
    } else {
        Ok(())
    }
}

/**
 * Validate that a defaults domain is valid
 *
 * Because `defaults` reads both a domain and a file, a domain must not look
 * like a file: it may not be empty, start with '-', contain '/', or contain
 * control characters.
 */
pub fn validate_domain(domain: &str) -> (r: Result<(), DomainError>)
    ensures
        r == domain_check(domain@),
{
    let cs = chars_of(domain);
    let n = cs.len();
    if n == 0 {
        return Err(DomainError::Empty);
    }
    if cs[0] == '-' {
        return Err(DomainError::LeadingDash);
    }
    let mut i: usize = 0;
    while i < n
        invariant
            n == cs@.len(),
            cs@ == domain@,
            n > 0,
            cs@[0] != '-',
            i <= n,
            forall|j: int| 0 <= j < i ==> cs@[j] != '/',
        decreases n - i,
    {
        if cs[i] == '/' {
            assert(domain@.contains('/')) by {
                assert(domain@[i as int] == '/');
            }
            return Err(DomainError::ContainsSlash);
        }
        i = i + 1;
    }
    assert(!domain@.contains('/'));
    let mut k: usize = 0;
    while k < n
        invariant
            n == cs@.len(),
            cs@ == domain@,
            n > 0,
            cs@[0] != '-',
            !domain@.contains('/'),
            k <= n,
            forall|j: int| 0 <= j < k ==> !is_control(#[trigger] cs@[j]),
        decreases n - k,
    {
        if is_control_char(cs[k]) {
            assert(is_control(domain@[k as int]));
            return Err(DomainError::ControlCharacter);
        }
        k = k + 1;
    }
    Ok(())
}

/// The defaults value for a TOML value.
pub open spec fn value_of_toml(value: TomlValue) -> Result<Value, ValueError> {
    match value {
        TomlValue::Boolean(b) => Ok(Value::Boolean(b)),
        TomlValue::Integer(i) => Ok(Value::Integer(i)),
        TomlValue::Float(r) => if bits_finite(r.bits) {
            Ok(Value::Float(r))
        } else {
            Err(ValueError::NonFinite(r))
        },
        TomlValue::String(s) => Ok(Value::String(s)),
        _ => Err(ValueError::Unsupported),
    }
}

/// The type option that `defaults write` takes for a value.
pub open spec fn type_option(value: Value) -> Seq<char> {
    match value {
        Value::Boolean(_) => "-bool"@,
        Value::Integer(_) => "-int"@,
        Value::Float(_) => "-float"@,
        Value::String(_) => "-string"@,
    }
}

/// The text of a value as `defaults write` takes it.
pub open spec fn argument_text(value: Value) -> Seq<char> {
    match value {
        Value::Boolean(b) => bool_text(b),
        Value::Integer(i) => decimal(i as int),
        Value::Float(r) => r.text@,
        Value::String(s) => s@,
    }
}

/// The text of a value as it is shown to the user: strings quoted.
pub open spec fn value_text(value: Value) -> Seq<char> {
    match value {
        Value::String(s) => debug_str(s@),
        _ => argument_text(value),
    }
}

/// Equality of values, as `==` on the values decides it.
pub open spec fn same_value(a: Value, b: Value) -> bool {
    match (a, b) {
        (Value::Boolean(x), Value::Boolean(y)) => x == y,
        (Value::Integer(x), Value::Integer(y)) => x == y,
        (Value::Float(x), Value::Float(y)) => bits_equal(x.bits, y.bits),
        (Value::String(x), Value::String(y)) => x@ == y@,
        _ => false,
    }
}

/// How a defaults value is presented.
pub open spec fn display_of(value: Value) -> DisplayValue {
    match value {
        Value::Boolean(b) => DisplayValue::Boolean(b),
        Value::Integer(i) => DisplayValue::Integer(i),
        Value::Float(r) => DisplayValue::Float(r),
        Value::String(s) => DisplayValue::String(s),
    }
}

impl Value {
    /// Convert a TOML value to this type
    pub fn from_toml(value: &TomlValue) -> (r: Result<Value, ValueError>)
        ensures
            r == value_of_toml(*value),
    {
        match value {
            TomlValue::Boolean(b) => Ok(Value::Boolean(*b)),
            TomlValue::Integer(i) => Ok(Value::Integer(*i)),
            TomlValue::Float(r) => {
                if r.is_finite() {
                    Ok(Value::Float(r.clone()))
                } else {
                    Err(ValueError::NonFinite(r.clone()))
                }
            },
            TomlValue::String(s) => Ok(Value::String(s.clone())),
            _ => Err(ValueError::Unsupported),
        }
    }

    /// Get the "type" arguments to the `defaults` command
    pub fn defaults_type(&self) -> (r: &'static str)
        ensures
            r@ == type_option(*self),
    {
        match self {
            Value::Boolean(_) => "-bool",
            Value::Integer(_) => "-int",
            Value::Float(_) => "-float",
            Value::String(_) => "-string",
        }
    }

    /// Get the value as an owned value suitable to passing to the `defaults`
    /// command as an argument
    pub fn argument(&self) -> (r: String)
        ensures
            r@ == argument_text(*self),
    {
        match self {
            Value::Boolean(b) => bool_string(*b),
            Value::Integer(i) => decimal_string(*i),
            Value::Float(r) => r.text.clone(),
            Value::String(s) => s.clone(),
        }
    }

    /// The value as it is shown to the user.
    pub fn to_text(&self) -> (r: String)
        ensures
            r@ == value_text(*self),
    {
        match self {
            Value::String(s) => debug_quote(s.as_str()),
            _ => self.argument(),
        }
    }

    /// Whether two values are equal.
    pub fn equals(&self, other: &Value) -> (r: bool)
        ensures
            r == same_value(*self, *other),
    {
        match (self, other) {
            (Value::Boolean(x), Value::Boolean(y)) => *x == *y,
            (Value::Integer(x), Value::Integer(y)) => *x == *y,
            (Value::Float(x), Value::Float(y)) => x.equals(y),
            (Value::String(x), Value::String(y)) => same_text(x.as_str(), y.as_str()),
            _ => false,
        }
    }

    /// The value prepared for presentation.
    pub fn to_display(&self) -> (r: DisplayValue)
        ensures
            r == display_of(*self),
    {
        match self {
            Value::Boolean(b) => DisplayValue::Boolean(*b),
            Value::Integer(i) => DisplayValue::Integer(*i),
            Value::Float(r) => DisplayValue::Float(r.clone()),
            Value::String(s) => DisplayValue::String(s.clone()),
        }
    }
}

impl Clone for Value {
    fn clone(&self) -> (r: Self)
        ensures
            r == *self,
    {
        match self {
            Value::Boolean(b) => Value::Boolean(*b),
            Value::Integer(i) => Value::Integer(*i),
            Value::Float(r) => Value::Float(r.clone()),
            Value::String(s) => Value::String(s.clone()),
        }
    }
}

impl Clone for Setting {
    fn clone(&self) -> (r: Self)
        ensures
            r == *self,
    {
        Setting { domain: self.domain.clone(), key: self.key.clone(), value: self.value.clone() }
    }
}


/// Why the `defaults` part of the configuration is refused.
#[derive(Debug)]
pub enum ParseError {
    /// The `defaults` key does not hold a table of domains.
    NotTable,
    /// A domain fails [`validate_domain`].
    InvalidDomain { domain: String, error: DomainError },
    /// A domain does not hold a table of keys.
    DomainNotTable { domain: String },
    /// A key holds a value that `defaults(1)` cannot take.
    UnsupportedType { domain: String, key: String, reason: ValueError },
}

/// The settings of the keys `entries` of one domain, in order; the first
/// unsupported value refuses them.
pub open spec fn settings_of_keys(domain: String, entries: Seq<(String, TomlValue)>) -> Result<
    Seq<Setting>,
    ParseError,
>
    decreases entries.len(),
{
    if entries.len() == 0 {
        Ok(seq![])
    } else {
        match settings_of_keys(domain, entries.drop_last()) {
            Err(e) => Err(e),
            Ok(before) => match value_of_toml(entries.last().1) {
                Err(reason) => Err(
                    ParseError::UnsupportedType { domain, key: entries.last().0, reason },
                ),
                Ok(value) => Ok(before.push(Setting { domain, key: entries.last().0, value })),
            },
        }
    }
}

/// The settings of one domain table.
pub open spec fn settings_of_domain(domain: String, contents: TomlValue) -> Result<
    Seq<Setting>,
    ParseError,
> {
    match domain_check(domain@) {
        Err(error) => Err(ParseError::InvalidDomain { domain, error }),
        Ok(_) => match contents {
            TomlValue::Table(t) => settings_of_keys(domain, t.entries@),
            _ => Err(ParseError::DomainNotTable { domain }),
        },
    }
}

/// The settings of the domain tables `entries`, in order.
pub open spec fn settings_of_domains(entries: Seq<(String, TomlValue)>) -> Result<
    Seq<Setting>,
    ParseError,
>
    decreases entries.len(),
{
    if entries.len() == 0 {
        Ok(seq![])
    } else {
        match settings_of_domains(entries.drop_last()) {
            Err(e) => Err(e),
            Ok(before) => match settings_of_domain(entries.last().0, entries.last().1) {
                Err(e) => Err(e),
                Ok(these) => Ok(before + these),
            },
        }
    }
}

/// The settings below the top-level `defaults` key.
pub open spec fn settings_of(value: TomlValue) -> Result<Seq<Setting>, ParseError> {
    match value {
        TomlValue::Table(t) => settings_of_domains(t.entries@),
        _ => Err(ParseError::NotTable),
    }
}

proof fn lemma_keys_error_stays(domain: String, entries: Seq<(String, TomlValue)>, k: int)
    requires
        0 <= k <= entries.len(),
        settings_of_keys(domain, entries.subrange(0, k)) is Err,
    ensures
        settings_of_keys(domain, entries) == settings_of_keys(domain, entries.subrange(0, k)),
    decreases entries.len() - k,
{
    if k == entries.len() {
        assert(entries.subrange(0, k) =~= entries);
    } else {
        assert(entries.drop_last().subrange(0, k) =~= entries.subrange(0, k));
        lemma_keys_error_stays(domain, entries.drop_last(), k);
    }
}

proof fn lemma_domains_error_stays(entries: Seq<(String, TomlValue)>, k: int)
    requires
        0 <= k <= entries.len(),
        settings_of_domains(entries.subrange(0, k)) is Err,
    ensures
        settings_of_domains(entries) == settings_of_domains(entries.subrange(0, k)),
    decreases entries.len() - k,
{
    if k == entries.len() {
        assert(entries.subrange(0, k) =~= entries);
    } else {
        assert(entries.drop_last().subrange(0, k) =~= entries.subrange(0, k));
        lemma_domains_error_stays(entries.drop_last(), k);
    }
}

fn parse_domain(domain: &String, contents: &TomlValue) -> (r: Result<Vec<Setting>, ParseError>)
    ensures
        seq_result(r) == settings_of_domain(*domain, *contents),
{
    match validate_domain(domain.as_str()) {
        Err(error) => {
            return Err(ParseError::InvalidDomain { domain: domain.clone(), error });
        },
        Ok(_) => {},
    }
    let table = match contents {
        TomlValue::Table(t) => t,
        _ => {
            return Err(ParseError::DomainNotTable { domain: domain.clone() });
        },
    };
    let entries = &table.entries;
    assert(settings_of_domain(*domain, *contents) == settings_of_keys(*domain, entries@));
    let mut settings: Vec<Setting> = Vec::new();
    let mut i: usize = 0;
    while i < entries.len()
        invariant
            i <= entries.len(),
            settings_of_domain(*domain, *contents) == settings_of_keys(*domain, entries@),
            settings_of_keys(*domain, entries@.subrange(0, i as int)) == Ok::<
                Seq<Setting>,
                ParseError,
            >(settings@),
        decreases entries.len() - i,
    {
        let ghost prefix = entries@.subrange(0, i as int + 1);
        assert(prefix.drop_last() =~= entries@.subrange(0, i as int));
        assert(prefix.last() == entries@[i as int]);
        let key = &entries[i].0;
        match Value::from_toml(&entries[i].1) {
            Err(reason) => {
                let e = ParseError::UnsupportedType {
                    domain: domain.clone(),
                    key: key.clone(),
                    reason,
                };
                proof {
                    assert(settings_of_keys(*domain, prefix) == Err::<Seq<Setting>, ParseError>(e));
                    lemma_keys_error_stays(*domain, entries@, i as int + 1);
                }
                return Err(e);
            },
            Ok(value) => {
                settings.push(Setting { domain: domain.clone(), key: key.clone(), value });
            },
        }
        i = i + 1;
    }
    assert(entries@.subrange(0, entries@.len() as int) =~= entries@);
    Ok(settings)
}

/// Parse the config value below the top-level `defaults` key.
pub fn parse(value: &TomlValue) -> (r: Result<Vec<Setting>, ParseError>)
    ensures
        seq_result(r) == settings_of(*value),
{
    let table = match value {
        TomlValue::Table(t) => t,
        _ => {
            return Err(ParseError::NotTable);
        },
    };
    let entries = &table.entries;
    assert(settings_of(*value) == settings_of_domains(entries@));
    let mut settings: Vec<Setting> = Vec::new();
    let mut i: usize = 0;
    while i < entries.len()
        invariant
            i <= entries.len(),
            settings_of(*value) == settings_of_domains(entries@),
            settings_of_domains(entries@.subrange(0, i as int)) == Ok::<
                Seq<Setting>,
                ParseError,
            >(settings@),
        decreases entries.len() - i,
    {
        let ghost prefix = entries@.subrange(0, i as int + 1);
        assert(prefix.drop_last() =~= entries@.subrange(0, i as int));
        assert(prefix.last() == entries@[i as int]);
        let mut these = match parse_domain(&entries[i].0, &entries[i].1) {
            Ok(these) => these,
            Err(e) => {
                proof {
                    assert(settings_of_domains(prefix) == Err::<Seq<Setting>, ParseError>(e));
                    lemma_domains_error_stays(entries@, i as int + 1);
                }
                return Err(e);
            },
        };
        let ghost these_seq = these@;
        let ghost before = settings@;
        settings.append(&mut these);
        assert(settings@ =~= before + these_seq);
        i = i + 1;
    }
    assert(entries@.subrange(0, entries@.len() as int) =~= entries@);
    Ok(settings)
}


/// Characters that a TOML bare key may hold.
pub open spec fn is_bare_key_char(c: char) -> bool {
    ||| ('a' <= c && c <= 'z')
    ||| ('A' <= c && c <= 'Z')
    ||| ('0' <= c && c <= '9')
    ||| c == '_' || c == '-'
}

/// The printable section name of a domain: `defaults.` and the domain, quoted
/// as a TOML string unless it is a bare key.
pub open spec fn section_name(domain: Seq<char>) -> Seq<char> {
    if forall|i: int| 0 <= i < domain.len() ==> is_bare_key_char(#[trigger] domain[i]) {
        "defaults."@ + domain
    } else {
        "defaults."@ + toml_string_repr(domain)
    }
}

fn is_bare_key_char_exec(c: char) -> (r: bool)
    ensures
        r == is_bare_key_char(c),
{
    ('a' <= c && c <= 'z') || ('A' <= c && c <= 'Z') || ('0' <= c && c <= '9') || c == '_' || c
        == '-'
}

/// Convert the defaults domain to a printable section name
pub fn section(domain: &str) -> (r: String)
    ensures
        r@ == section_name(domain@),
{
    let cs = chars_of(domain);
    let mut bare = true;
    let mut i: usize = 0;
    while i < cs.len()
        invariant
            cs@ == domain@,
            i <= cs.len(),
            bare == forall|j: int| 0 <= j < i ==> is_bare_key_char(#[trigger] cs@[j]),
        decreases cs.len() - i,
    {
        bare = bare && is_bare_key_char_exec(cs[i]);
        i = i + 1;
    }
    let r = String::from_str("defaults.");
    if bare {
        r.concat(domain)
    } else {
        let quoted_domain = toml_quote(domain);
        r.concat(quoted_domain.as_str())
    }
}

/// The processes to relaunch after a domain changes, so that they pick the
/// change up.
pub open spec fn relaunch_names(domain: Seq<char>) -> Seq<Seq<char>> {
    if domain == "com.apple.dock"@ {
        seq!["Dock"@]
    } else if domain == "com.apple.finder"@ {
        seq!["Finder"@]
    } else {
        seq![]
    }
}

/// The views of a list of strings.
pub open spec fn texts(v: Seq<String>) -> Seq<Seq<char>> {
    v.map_values(|s: String| s@)
}

/// The processes to relaunch after `domain` changes.
pub fn relaunches(domain: &str) -> (r: Vec<String>)
    ensures
        texts(r@) == relaunch_names(domain@),
{
    let mut r: Vec<String> = Vec::new();
    if same_text(domain, "com.apple.dock") {
        r.push(String::from_str("Dock"));
    } else if same_text(domain, "com.apple.finder") {
        r.push(String::from_str("Finder"));
    }
    assert(texts(r@) =~= relaunch_names(domain@));
    r
}

/// The shell command that writes a setting, every word quoted for the shell.
pub open spec fn write_command_text(setting: Setting) -> Seq<char> {
    DEFAULTS_CMD@ + " write "@ + quoted(setting.domain@) + " "@ + quoted(setting.key@) + " "@
        + type_option(setting.value) + " "@ + quoted(argument_text(setting.value))
}

/// Write the command needed to enforce a preference safely for the shell
pub fn write_command(setting: &Setting) -> (r: Result<String, DomainError>)
    ensures
        match domain_check(setting.domain@) {
            Err(e) => r == Err::<String, DomainError>(e),
            Ok(_) => r matches Ok(text) && text@ == write_command_text(*setting),
        },
{
    validate_domain(setting.domain.as_str())?;
    let mut r = String::from_str(DEFAULTS_CMD);
    r.append(" write ");
    let domain = quote(setting.domain.as_str());
    r.append(domain.as_str());
    r.append(" ");
    let key = quote(setting.key.as_str());
    r.append(key.as_str());
    r.append(" ");
    r.append(setting.value.defaults_type());
    r.append(" ");
    let argument = setting.value.argument();
    let argument = quote(argument.as_str());
    r.append(argument.as_str());
    Ok(r)
}

/// The arguments of the `defaults` command that writes a setting.
pub open spec fn write_argument_texts(setting: Setting) -> Seq<Seq<char>> {
    seq![
        "write"@,
        setting.domain@,
        setting.key@,
        type_option(setting.value),
        argument_text(setting.value),
    ]
}

/// The arguments to `defaults` that write a setting, once its domain is checked.
pub fn write_arguments(setting: &Setting) -> (r: Result<Vec<String>, DomainError>)
    ensures
        match domain_check(setting.domain@) {
            Err(e) => r == Err::<Vec<String>, DomainError>(e),
            Ok(_) => r matches Ok(v) && texts(v@) == write_argument_texts(*setting),
        },
{
    validate_domain(setting.domain.as_str())?;
    let mut v: Vec<String> = Vec::new();
    v.push(String::from_str("write"));
    v.push(setting.domain.clone());
    v.push(setting.key.clone());
    v.push(String::from_str(setting.value.defaults_type()));
    v.push(setting.value.argument());
    assert(texts(v@) =~= write_argument_texts(*setting));
    Ok(v)
}

/// The arguments to `defaults` that export a whole domain as a plist on its
/// standard output, once the domain is checked.
pub fn export_arguments(domain: &str) -> (r: Result<Vec<String>, DomainError>)
    ensures
        match domain_check(domain@) {
            Err(e) => r == Err::<Vec<String>, DomainError>(e),
            Ok(_) => r matches Ok(v) && texts(v@) == seq!["export"@, domain@, "-"@],
        },
{
    validate_domain(domain)?;
    let mut v: Vec<String> = Vec::new();
    v.push(String::from_str("export"));
    v.push(domain.to_owned());
    v.push(String::from_str("-"));
    assert(texts(v@) =~= seq!["export"@, domain@, "-"@]);
    Ok(v)
}


/// One value of a property list, as far as the defaults logic reads it.
#[derive(Debug)]
pub enum PlistValue {
    Boolean(bool),
    /// An integer: its value when it fits an `i64`, else `None`.
    Integer(Option<i64>),
    Real(Real),
    String(String),
    /// An array, dictionary, data, date or uid.
    Other,
}

/// The contents of an exported domain: its keys and values.
#[derive(Debug)]
pub struct DomainContents {
    pub entries: Vec<(String, PlistValue)>,
}

/// Why a domain could not be exported: what is told, and the error below it
/// where there is one.
#[derive(Debug)]
pub struct ExportFailure {
    pub message: String,
    pub cause: Option<String>,
}

/// What exporting one domain gave: its contents, or why it failed.
#[derive(Debug)]
pub struct DomainExport {
    pub domain: String,
    pub contents: Result<DomainContents, ExportFailure>,
}

/// An optional text by its characters.
pub open spec fn text_of_option(text: Option<String>) -> Option<Seq<char>> {
    match text {
        Some(t) => Some(t@),
        None => None,
    }
}

/// What an XML property list read from `defaults export` holds: the
/// contents of a dictionary, a plist of another kind, or why it could not be
/// read (as the reader's error displays itself).
#[derive(Debug)]
pub enum PlistReading {
    Dictionary(DomainContents),
    NotDictionary,
    Invalid(String),
}

/// What `plist::Value::from_reader_xml` reads from the given bytes, with a
/// dictionary's entries in the order the reader keeps them.
pub uninterp spec fn plist_reading(output: Seq<u8>) -> PlistReading;

/// Reads an XML property list with `plist::Value::from_reader_xml`: a
/// dictionary is handed on entry by entry (booleans, integers as `i64` where
/// they fit, reals by bits and text, strings; any other value as `Other`),
/// another value as `NotDictionary`, and a reader error by its text. The
/// contract names the outcome and says nothing of its contents.
#[verifier::external_body]
fn read_plist(output: &[u8]) -> (r: PlistReading)
    ensures
        r == plist_reading(output@),
{
    match plist::Value::from_reader_xml(output) {
        Ok(plist::Value::Dictionary(d)) => PlistReading::Dictionary(DomainContents {
            entries: d.into_iter().map(|(k, v)| (k, match v {
                plist::Value::Boolean(b) => PlistValue::Boolean(b),
                plist::Value::Integer(i) => PlistValue::Integer(i.as_signed()),
                plist::Value::Real(x) => PlistValue::Real(Real { bits: x.to_bits(), text: x.to_string() }),
                plist::Value::String(s) => PlistValue::String(s),
                _ => PlistValue::Other,
            })).collect(),
        }),
        Ok(_) => PlistReading::NotDictionary,
        Err(e) => PlistReading::Invalid(e.to_string()),
    }
}

/// What exporting `domain` gave, once its plist is read.
pub open spec fn export_reading_result(domain: Seq<char>, reading: PlistReading) -> Result<
    DomainContents,
    (Seq<char>, Option<Seq<char>>),
> {
    match reading {
        PlistReading::Dictionary(c) => Ok(c),
        PlistReading::NotDictionary => Err(
            ("defaults returned a non-dictionary plist for domain "@ + debug_str(domain), None),
        ),
        PlistReading::Invalid(e) => Err(
            ("defaults returned an invalid plist for domain "@ + debug_str(domain), Some(e@)),
        ),
    }
}

/// Whether `r` is `expected`, a failure taken by its message and cause.
pub open spec fn is_export_result(
    r: Result<DomainContents, ExportFailure>,
    expected: Result<DomainContents, (Seq<char>, Option<Seq<char>>)>,
) -> bool {
    match expected {
        Ok(c) => r == Ok::<DomainContents, ExportFailure>(c),
        Err((m, c)) => r matches Err(f) && f.message@ == m && text_of_option(f.cause) == c,
    }
}

/// What exporting `domain` gave, once its plist is read: the dictionary's
/// contents, or why the plist cannot be used.
pub fn export_of_reading(domain: &str, reading: PlistReading) -> (r: Result<
    DomainContents,
    ExportFailure,
>)
    ensures
        is_export_result(r, export_reading_result(domain@, reading)),
{
    match reading {
        PlistReading::Dictionary(c) => Ok(c),
        PlistReading::NotDictionary => Err(
            ExportFailure {
                message: String::from_str(
                    "defaults returned a non-dictionary plist for domain ",
                ).concat(debug_quote(domain).as_str()),
                cause: None,
            },
        ),
        PlistReading::Invalid(e) => Err(
            ExportFailure {
                message: String::from_str("defaults returned an invalid plist for domain ").concat(
                    debug_quote(domain).as_str(),
                ),
                cause: Some(e),
            },
        ),
    }
}

/// What `defaults export domain -` gave: when it failed, its standard error
/// without surrounding white space; else what the plist on its standard
/// output holds.
pub open spec fn export_output_result(
    domain: Seq<char>,
    success: bool,
    stdout: Seq<u8>,
    stderr: Seq<char>,
) -> Result<DomainContents, (Seq<char>, Option<Seq<char>>)> {
    if !success {
        Err(("defaults could not export domain "@ + debug_str(domain) + ": "@ + trim(stderr), None))
    } else {
        export_reading_result(domain, plist_reading(stdout))
    }
}

/// The contents of an exported domain, from the exit status, standard output
/// and standard error of `defaults export domain -`. The output is read only
/// when the command succeeded.
pub fn export_of_output(domain: &str, success: bool, stdout: &[u8], stderr: &str) -> (r: Result<
    DomainContents,
    ExportFailure,
>)
    ensures
        is_export_result(r, export_output_result(domain@, success, stdout@, stderr@)),
{
    if !success {
        let message = trim_chars(&chars_of(stderr));
        return Err(
            ExportFailure {
                message: String::from_str("defaults could not export domain ").concat(
                    debug_quote(domain).as_str(),
                ).concat(": ").concat(string_of(message.as_slice()).as_str()),
                cause: None,
            },
        );
    }
    let reading = read_plist(stdout);
    export_of_reading(domain, reading)
}

/// The defaults value of a plist value: booleans, integers that fit an `i64`,
/// reals and strings.
pub open spec fn value_of_plist(value: PlistValue) -> Option<Value> {
    match value {
        PlistValue::Boolean(b) => Some(Value::Boolean(b)),
        PlistValue::Integer(Some(i)) => Some(Value::Integer(i)),
        PlistValue::Integer(None) => None,
        PlistValue::Real(r) => Some(Value::Float(r)),
        PlistValue::String(s) => Some(Value::String(s)),
        PlistValue::Other => None,
    }
}

/// Convert a plist value to an internal value type
pub fn value_from_plist(value: &PlistValue) -> (r: Option<Value>)
    ensures
        r == value_of_plist(*value),
{
    match value {
        PlistValue::Boolean(b) => Some(Value::Boolean(*b)),
        PlistValue::Integer(Some(i)) => Some(Value::Integer(*i)),
        PlistValue::Integer(None) => None,
        PlistValue::Real(r) => Some(Value::Float(r.clone())),
        PlistValue::String(s) => Some(Value::String(s.clone())),
        PlistValue::Other => None,
    }
}

/// A single change to make to the system
#[derive(Debug)]
pub struct Change {
    pub setting: Setting,
    pub current: Option<Value>,
}

/// Why no plan can be made for the `defaults` settings.
#[derive(Debug)]
pub enum PlanError {
    /// A domain fails [`validate_domain`].
    InvalidDomain { domain: String, error: DomainError },
    /// A domain could not be exported.
    ExportFailed { domain: String, message: String, cause: Option<String> },
    /// No export of a domain was handed over.
    NotExported { domain: String },
}

impl Change {
    /// The change in one line: `domain.key: current -> value`.
    pub fn describe(&self) -> (r: String)
        ensures
            r@ == self.setting.domain@ + "."@ + self.setting.key@ + ": "@ + match self.current {
                Some(v) => value_text(v),
                None => "(unset)"@,
            } + " -> "@ + value_text(self.setting.value),
    {
        let mut r = self.setting.domain.clone();
        r.append(".");
        r.append(self.setting.key.as_str());
        r.append(": ");
        let current = match &self.current {
            Some(v) => v.to_text(),
            None => String::from_str("(unset)"),
        };
        r.append(current.as_str());
        r.append(" -> ");
        let desired = self.setting.value.to_text();
        r.append(desired.as_str());
        r
    }
}

impl IntegrationChange for Change {
    /// The section that the change is printed under.
    fn section(&self) -> (r: String)
        ensures
            r@ == section_name(self.setting.domain@),
    {
        section(self.setting.domain.as_str())
    }

    /// The key that the change sets.
    fn key(&self) -> (r: &str)
        ensures
            r@ == self.setting.key@,
    {
        self.setting.key.as_str()
    }

    /// The current value, for presentation.
    fn current(&self) -> (r: DisplayValue)
        ensures
            r == match self.current {
                Some(v) => display_of(v),
                None => DisplayValue::Missing,
            },
    {
        match &self.current {
            Some(v) => v.to_display(),
            None => DisplayValue::Missing,
        }
    }

    /// The configured value, for presentation.
    fn desired(&self) -> (r: DisplayValue)
        ensures
            r == display_of(self.setting.value),
    {
        self.setting.value.to_display()
    }

    /// Whether the current value already equals the configured one.
    fn is_applied(&self) -> (r: bool)
        ensures
            r == applied(*self),
    {
        match &self.current {
            Some(v) => v.equals(&self.setting.value),
            None => false,
        }
    }

    /// The shell command that makes the change.
    fn operation_hint(&self) -> (r: Result<String, DomainError>)
        ensures
            match domain_check(self.setting.domain@) {
                Err(e) => r == Err::<String, DomainError>(e),
                Ok(_) => r matches Ok(text) && text@ == write_command_text(self.setting),
            },
    {
        write_command(&self.setting)
    }

    /// The processes to relaunch once the change is made.
    fn relaunches(&self) -> (r: Vec<String>)
        ensures
            texts(r@) == relaunch_names(self.setting.domain@),
    {
        relaunches(self.setting.domain.as_str())
    }
}

impl Clone for Change {
    fn clone(&self) -> (r: Self)
        ensures
            r == *self,
    {
        let current = match &self.current {
            Some(v) => Some(v.clone()),
            None => None,
        };
        Change { setting: self.setting.clone(), current }
    }
}

/// The first export of `domain` among `exports`.
pub open spec fn export_of(exports: Seq<DomainExport>, domain: Seq<char>) -> Option<DomainExport>
    decreases exports.len(),
{
    if exports.len() == 0 {
        None
    } else if exports[0].domain@ == domain {
        Some(exports[0])
    } else {
        export_of(exports.drop_first(), domain)
    }
}

/// The contents of a domain as the exports give them.
pub open spec fn domain_state(domain: String, exports: Seq<DomainExport>) -> Result<
    DomainContents,
    PlanError,
> {
    match domain_check(domain@) {
        Err(error) => Err(PlanError::InvalidDomain { domain, error }),
        Ok(_) => match export_of(exports, domain@) {
            None => Err(PlanError::NotExported { domain }),
            Some(export) => match export.contents {
                Ok(contents) => Ok(contents),
                Err(f) => Err(
                    PlanError::ExportFailed { domain, message: f.message, cause: f.cause },
                ),
            },
        },
    }
}

/// The current value of `key` in a domain's contents.
pub open spec fn current_of(contents: DomainContents, key: Seq<char>) -> Option<Value> {
    match lookup(contents.entries@, key) {
        Some(v) => value_of_plist(v),
        None => None,
    }
}

/// The changes for `settings`, one for each in order, each with the current
/// value read from its domain's export; the first domain that fails refuses
/// the plan.
pub open spec fn changes_of(settings: Seq<Setting>, exports: Seq<DomainExport>) -> Result<
    Seq<Change>,
    PlanError,
>
    decreases settings.len(),
{
    if settings.len() == 0 {
        Ok(seq![])
    } else {
        match changes_of(settings.drop_last(), exports) {
            Err(e) => Err(e),
            Ok(before) => match domain_state(settings.last().domain, exports) {
                Err(e) => Err(e),
                Ok(contents) => Ok(
                    before.push(
                        Change {
                            setting: settings.last(),
                            current: current_of(contents, settings.last().key@),
                        },
                    ),
                ),
            },
        }
    }
}

/// Whether a change is already in place: the current value equals the
/// configured one.
pub open spec fn applied(change: Change) -> bool {
    match change.current {
        Some(v) => same_value(v, change.setting.value),
        None => false,
    }
}

/// The changes that are not yet in place, in order.
pub open spec fn pending(changes: Seq<Change>) -> Seq<Change>
    decreases changes.len(),
{
    if changes.len() == 0 {
        seq![]
    } else if applied(changes.last()) {
        pending(changes.drop_last())
    } else {
        pending(changes.drop_last()).push(changes.last())
    }
}

/// The distinct elements of `s`, in the order they first occur.
pub open spec fn distinct(s: Seq<Seq<char>>) -> Seq<Seq<char>>
    decreases s.len(),
{
    if s.len() == 0 {
        seq![]
    } else if distinct(s.drop_last()).contains(s.last()) {
        distinct(s.drop_last())
    } else {
        distinct(s.drop_last()).push(s.last())
    }
}

/// The domains of `settings`, in order.
pub open spec fn domains_of(settings: Seq<Setting>) -> Seq<Seq<char>> {
    settings.map_values(|s: Setting| s.domain@)
}

fn find_export(exports: &Vec<DomainExport>, domain: &str) -> (r: Option<usize>)
    ensures
        match export_of(exports@, domain@) {
            Some(x) => r matches Some(i) && i < exports@.len() && exports@[i as int] == x,
            None => r is None,
        },
{
    let mut i: usize = 0;
    assert(exports@.subrange(0, exports@.len() as int) =~= exports@);
    while i < exports.len()
        invariant
            i <= exports.len(),
            export_of(exports@, domain@) == export_of(
                exports@.subrange(i as int, exports@.len() as int),
                domain@,
            ),
        decreases exports.len() - i,
    {
        let ghost rest = exports@.subrange(i as int, exports@.len() as int);
        assert(rest.drop_first() =~= exports@.subrange(i + 1, exports@.len() as int));
        assert(rest[0] == exports@[i as int]);
        if same_text(exports[i].domain.as_str(), domain) {
            return Some(i);
        }
        i = i + 1;
    }
    None
}

proof fn lemma_changes_error_stays(settings: Seq<Setting>, exports: Seq<DomainExport>, k: int)
    requires
        0 <= k <= settings.len(),
        changes_of(settings.subrange(0, k), exports) is Err,
    ensures
        changes_of(settings, exports) == changes_of(settings.subrange(0, k), exports),
    decreases settings.len() - k,
{
    if k == settings.len() {
        assert(settings.subrange(0, k) =~= settings);
    } else {
        assert(settings.drop_last().subrange(0, k) =~= settings.subrange(0, k));
        lemma_changes_error_stays(settings.drop_last(), exports, k);
    }
}

fn current_in(contents: &DomainContents, key: &str) -> (r: Option<Value>)
    ensures
        r == current_of(*contents, key@),
{
    match find_key(&contents.entries, key) {
        Some(i) => value_from_plist(&contents.entries[i].1),
        None => None,
    }
}

/// Read current state and build an owned reconciliation plan: one change for
/// each setting, in order, with the current value that the export of its
/// domain holds.
pub fn plan(settings: &Vec<Setting>, exports: &Vec<DomainExport>) -> (r: Result<
    Vec<Change>,
    PlanError,
>)
    ensures
        seq_result(r) == changes_of(settings@, exports@),
{
    let mut changes: Vec<Change> = Vec::new();
    let mut i: usize = 0;
    while i < settings.len()
        invariant
            i <= settings.len(),
            changes_of(settings@.subrange(0, i as int), exports@) == Ok::<
                Seq<Change>,
                PlanError,
            >(changes@),
        decreases settings.len() - i,
    {
        let ghost prefix = settings@.subrange(0, i as int + 1);
        assert(prefix.drop_last() =~= settings@.subrange(0, i as int));
        assert(prefix.last() == settings@[i as int]);
        let setting = &settings[i];
        let state: Result<&DomainContents, PlanError> = match validate_domain(
            setting.domain.as_str(),
        ) {
            Err(error) => Err(PlanError::InvalidDomain { domain: setting.domain.clone(), error }),
            Ok(_) => match find_export(exports, setting.domain.as_str()) {
                None => Err(PlanError::NotExported { domain: setting.domain.clone() }),
                Some(j) => match &exports[j].contents {
                    Ok(contents) => Ok(contents),
                    Err(f) => Err(
                        PlanError::ExportFailed {
                            domain: setting.domain.clone(),
                            message: f.message.clone(),
                            cause: match &f.cause {
                                Some(c) => Some(c.clone()),
                                None => None,
                            },
                        },
                    ),
                },
            },
        };
        match state {
            Err(e) => {
                proof {
                    assert(changes_of(prefix, exports@) == Err::<Seq<Change>, PlanError>(e));
                    lemma_changes_error_stays(settings@, exports@, i as int + 1);
                }
                return Err(e);
            },
            Ok(contents) => {
                let current = current_in(contents, setting.key.as_str());
                changes.push(Change { setting: setting.clone(), current });
            },
        }
        i = i + 1;
    }
    assert(settings@.subrange(0, settings@.len() as int) =~= settings@);
    Ok(changes)
}

/// Calculate changes needed to reconcile a system: the changes of [`plan`]
/// that are not yet in place.
pub fn diff(settings: &Vec<Setting>, exports: &Vec<DomainExport>) -> (r: Result<
    Vec<Change>,
    PlanError,
>)
    ensures
        match changes_of(settings@, exports@) {
            Err(e) => r == Err::<Vec<Change>, PlanError>(e),
            Ok(changes) => r matches Ok(v) && v@ == pending(changes),
        },
{
    let changes = plan(settings, exports)?;
    let mut out: Vec<Change> = Vec::new();
    let mut i: usize = 0;
    while i < changes.len()
        invariant
            i <= changes.len(),
            out@ == pending(changes@.subrange(0, i as int)),
        decreases changes.len() - i,
    {
        let ghost prefix = changes@.subrange(0, i as int + 1);
        assert(prefix.drop_last() =~= changes@.subrange(0, i as int));
        assert(prefix.last() == changes@[i as int]);
        if !changes[i].is_applied() {
            out.push(changes[i].clone());
        }
        i = i + 1;
    }
    assert(changes@.subrange(0, changes@.len() as int) =~= changes@);
    Ok(out)
}

/// The domains that a plan must export: each configured domain once, in the
/// order in which the settings first name it.
pub fn export_order(settings: &Vec<Setting>) -> (r: Vec<String>)
    ensures
        texts(r@) == distinct(domains_of(settings@)),
{
    let mut r: Vec<String> = Vec::new();
    let mut i: usize = 0;
    while i < settings.len()
        invariant
            i <= settings.len(),
            texts(r@) == distinct(domains_of(settings@.subrange(0, i as int))),
        decreases settings.len() - i,
    {
        let ghost prefix = settings@.subrange(0, i as int + 1);
        assert(prefix.drop_last() =~= settings@.subrange(0, i as int));
        assert(domains_of(prefix).drop_last() =~= domains_of(settings@.subrange(0, i as int)));
        assert(domains_of(prefix).last() == settings@[i as int].domain@);
        let domain = &settings[i].domain;
        let mut seen = false;
        let mut j: usize = 0;
        while j < r.len()
            invariant
                j <= r.len(),
                seen == exists|k: int| 0 <= k < j && (#[trigger] r@[k])@ == domain@,
            decreases r.len() - j,
        {
            if same_text(r[j].as_str(), domain.as_str()) {
                seen = true;
            }
            j = j + 1;
        }
        proof {
            if seen {
                let k = choose|k: int| 0 <= k < r@.len() && (#[trigger] r@[k])@ == domain@;
                assert(texts(r@)[k] == domain@);
            } else {
                assert forall|k: int| 0 <= k < texts(r@).len() implies texts(r@)[k] != domain@ by {
                    assert(texts(r@)[k] == r@[k]@);
                }
            }
        }
        if !seen {
            r.push(domain.clone());
        }
        assert(texts(r@) =~= distinct(domains_of(prefix)));
        i = i + 1;
    }
    assert(settings@.subrange(0, settings@.len() as int) =~= settings@);
    r
}


/// What a refused domain is told.
pub open spec fn domain_error_text(error: DomainError, domain: Seq<char>) -> Seq<char> {
    match error {
        DomainError::Empty => "preference domain may not be empty"@,
        DomainError::LeadingDash => "preference domain may not start with '-': "@ + debug_str(domain),
        DomainError::ContainsSlash => "preference domain may not contain '/': "@ + debug_str(domain),
        DomainError::ControlCharacter => "preference domain may not contain control characters: "@
            + debug_str(domain),
    }
}

/// What a refused domain is told.
pub fn domain_error_message(error: DomainError, domain: &str) -> (r: String)
    ensures
        r@ == domain_error_text(error, domain@),
{
    match error {
        DomainError::Empty => String::from_str("preference domain may not be empty"),
        DomainError::LeadingDash => String::from_str(
            "preference domain may not start with '-': ",
        ).concat(debug_quote(domain).as_str()),
        DomainError::ContainsSlash => String::from_str(
            "preference domain may not contain '/': ",
        ).concat(debug_quote(domain).as_str()),
        DomainError::ControlCharacter => String::from_str(
            "preference domain may not contain control characters: ",
        ).concat(debug_quote(domain).as_str()),
    }
}

/// What a refused value is told.
pub open spec fn value_error_text(error: ValueError) -> Seq<char> {
    match error {
        ValueError::NonFinite(r) => "non-finite floats are not supported: "@ + r.text@,
        ValueError::Unsupported => "unsupported value type"@,
    }
}

impl ValueError {
    /// What a refused value is told.
    pub fn message(&self) -> (r: String)
        ensures
            r@ == value_error_text(*self),
    {
        match self {
            ValueError::NonFinite(r) => String::from_str("non-finite floats are not supported: ").concat(
                r.text.as_str(),
            ),
            ValueError::Unsupported => String::from_str("unsupported value type"),
        }
    }
}

/// What a refused `defaults` configuration is told.
pub open spec fn parse_error_text(error: ParseError) -> Seq<char> {
    match error {
        ParseError::NotTable => "the defaults namespace must contain domain tables"@,
        ParseError::InvalidDomain { domain, error } => domain_error_text(error, domain@),
        ParseError::DomainNotTable { domain } => "domain "@ + debug_str(domain@)
            + " must be a table - quote dotted domain names, for example [defaults.\"com.apple.dock\"]"@,
        ParseError::UnsupportedType { domain, key, reason } => "defaults."@ + domain@ + "."@ + key@
            + " unsupported type"@,
    }
}

impl ParseError {
    /// What a refused `defaults` configuration is told.
    pub fn message(&self) -> (r: String)
        ensures
            r@ == parse_error_text(*self),
    {
        match self {
            ParseError::NotTable => String::from_str(
                "the defaults namespace must contain domain tables",
            ),
            ParseError::InvalidDomain { domain, error } => domain_error_message(
                *error,
                domain.as_str(),
            ),
            ParseError::DomainNotTable { domain } => String::from_str("domain ").concat(
                debug_quote(domain.as_str()).as_str(),
            ).concat(
                " must be a table - quote dotted domain names, for example [defaults.\"com.apple.dock\"]",
            ),
            ParseError::UnsupportedType { domain, key, reason } => String::from_str(
                "defaults.",
            ).concat(domain.as_str()).concat(".").concat(key.as_str()).concat(
                " unsupported type",
            ),
        }
    }

    /// Why a value is refused, below the message.
    pub fn cause(&self) -> (r: Option<String>)
        ensures
            match *self {
                ParseError::UnsupportedType { reason, .. } => r matches Some(t) && t@
                    == value_error_text(reason),
                _ => r is None,
            },
    {
        match self {
            ParseError::UnsupportedType { reason, .. } => Some(reason.message()),
            _ => None,
        }
    }
}

/// What a failed `defaults` plan is told.
pub open spec fn plan_error_text(error: PlanError) -> Seq<char> {
    match error {
        PlanError::InvalidDomain { domain, error } => domain_error_text(error, domain@),
        PlanError::ExportFailed { message, .. } => message@,
        PlanError::NotExported { domain } => "defaults domain was not exported: "@ + debug_str(
            domain@,
        ),
    }
}

impl PlanError {
    /// What a failed `defaults` plan is told.
    pub fn message(&self) -> (r: String)
        ensures
            r@ == plan_error_text(*self),
    {
        match self {
            PlanError::InvalidDomain { domain, error } => domain_error_message(
                *error,
                domain.as_str(),
            ),
            PlanError::ExportFailed { message, .. } => message.clone(),
            PlanError::NotExported { domain } => String::from_str(
                "defaults domain was not exported: ",
            ).concat(debug_quote(domain.as_str()).as_str()),
        }
    }

    /// The error below the message, where there is one.
    pub fn cause(&self) -> (r: Option<String>)
        ensures
            match *self {
                PlanError::ExportFailed { cause, .. } => r == cause,
                _ => r is None,
            },
    {
        match self {
            PlanError::ExportFailed { cause, .. } => match cause {
                Some(c) => Some(c.clone()),
                None => None,
            },
            _ => None,
        }
    }
}


/// The export order names each domain once, and names exactly the domains
/// that the settings name.
pub proof fn lemma_export_order(settings: Seq<Setting>)
    ensures
        forall|i: int, j: int|
            0 <= i < j < distinct(domains_of(settings)).len() ==> distinct(domains_of(settings))[i]
                != distinct(domains_of(settings))[j],
        forall|x: Seq<char>|
            distinct(domains_of(settings)).contains(x) <==> exists|i: int|
                0 <= i < settings.len() && (#[trigger] settings[i]).domain@ == x,
    decreases settings.len(),
{
    lemma_distinct(domains_of(settings));
    assert forall|x: Seq<char>|
        domains_of(settings).contains(x) <==> exists|i: int|
            0 <= i < settings.len() && (#[trigger] settings[i]).domain@ == x by {
        if domains_of(settings).contains(x) {
            let i = choose|i: int| 0 <= i < domains_of(settings).len() && domains_of(settings)[i] == x;
            assert(settings[i].domain@ == x);
        }
        if exists|i: int| 0 <= i < settings.len() && (#[trigger] settings[i]).domain@ == x {
            let i = choose|i: int| 0 <= i < settings.len() && (#[trigger] settings[i]).domain@ == x;
            assert(domains_of(settings)[i] == x);
        }
    }
    assert forall|x: Seq<char>|
        distinct(domains_of(settings)).contains(x) <==> exists|i: int|
            0 <= i < settings.len() && (#[trigger] settings[i]).domain@ == x by {
        assert(distinct(domains_of(settings)).contains(x) <==> domains_of(settings).contains(x));
    }
}

proof fn lemma_distinct(s: Seq<Seq<char>>)
    ensures
        forall|i: int, j: int|
            0 <= i < j < distinct(s).len() ==> distinct(s)[i] != distinct(s)[j],
        forall|x: Seq<char>| distinct(s).contains(x) <==> s.contains(x),
    decreases s.len(),
{
    if s.len() > 0 {
        let p = s.drop_last();
        lemma_distinct(p);
        assert forall|x: Seq<char>| s.contains(x) <==> (p.contains(x) || x == s.last()) by {
            if s.contains(x) {
                let k = choose|k: int| 0 <= k < s.len() && s[k] == x;
                if k < s.len() - 1 {
                    assert(p[k] == x);
                }
            }
            if p.contains(x) {
                let k = choose|k: int| 0 <= k < p.len() && p[k] == x;
                assert(s[k] == x);
            }
            if x == s.last() {
                assert(s[s.len() - 1] == x);
            }
        }
        if !distinct(p).contains(s.last()) {
            let d = distinct(p).push(s.last());
            assert forall|x: Seq<char>| d.contains(x) <==> (distinct(p).contains(x) || x == s.last()) by {
                if d.contains(x) {
                    let k = choose|k: int| 0 <= k < d.len() && d[k] == x;
                    if k < d.len() - 1 {
                        assert(distinct(p)[k] == x);
                    }
                }
                if distinct(p).contains(x) {
                    let k = choose|k: int| 0 <= k < distinct(p).len() && distinct(p)[k] == x;
                    assert(d[k] == x);
                }
                if x == s.last() {
                    assert(d[d.len() - 1] == x);
                }
            }
            assert forall|i: int, j: int| 0 <= i < j < d.len() implies d[i] != d[j] by {
                if j == d.len() - 1 {
                    assert(distinct(p).contains(d[i]));
                }
            }
        }
    }
}

proof fn lemma_keys_same_domain(domain: String, entries: Seq<(String, TomlValue)>)
    ensures
        settings_of_keys(domain, entries) matches Ok(s) ==> forall|i: int|
            0 <= i < s.len() ==> (#[trigger] s[i]).domain == domain,
    decreases entries.len(),
{
    if entries.len() > 0 {
        lemma_keys_same_domain(domain, entries.drop_last());
    }
}

proof fn lemma_domains_valid(entries: Seq<(String, TomlValue)>)
    ensures
        settings_of_domains(entries) matches Ok(s) ==> forall|i: int|
            0 <= i < s.len() ==> domain_check((#[trigger] s[i]).domain@) is Ok,
    decreases entries.len(),
{
    if entries.len() > 0 {
        lemma_domains_valid(entries.drop_last());
        let last = entries.last();
        if let TomlValue::Table(t) = last.1 {
            lemma_keys_same_domain(last.0, t.entries@);
        }
        match settings_of_domains(entries.drop_last()) {
            Ok(before) => match settings_of_domain(last.0, last.1) {
                Ok(these) => {
                    assert forall|i: int| 0 <= i < (before + these).len() implies domain_check(
                        (#[trigger] (before + these)[i]).domain@,
                    ) is Ok by {
                        if i >= before.len() {
                            assert((before + these)[i] == these[i - before.len()]);
                        }
                    }
                },
                Err(_) => {},
            },
            Err(_) => {},
        }
    }
}

/// Every setting that a configuration yields names a domain that passes
/// [`validate_domain`], so planning never refuses a parsed domain.
pub proof fn lemma_parsed_domains_valid(value: TomlValue)
    ensures
        settings_of(value) matches Ok(s) ==> forall|i: int|
            0 <= i < s.len() ==> domain_check((#[trigger] s[i]).domain@) is Ok,
{
    if let TomlValue::Table(t) = value {
        lemma_domains_valid(t.entries@);
    }
}

/// A plan holds one change for each setting, in the order of the settings;
/// and a plan is made exactly when every setting's domain is valid and was
/// exported.
pub proof fn lemma_plan_shape(settings: Seq<Setting>, exports: Seq<DomainExport>)
    ensures
        changes_of(settings, exports) matches Ok(cs) ==> cs.len() == settings.len() && forall|
            i: int,
        | 0 <= i < settings.len() ==> (#[trigger] cs[i]).setting == settings[i],
        changes_of(settings, exports) is Ok <==> forall|i: int|
            0 <= i < settings.len() ==> domain_state((#[trigger] settings[i]).domain, exports) is Ok,
    decreases settings.len(),
{
    if settings.len() > 0 {
        let p = settings.drop_last();
        lemma_plan_shape(p, exports);
        assert forall|i: int| 0 <= i < p.len() implies #[trigger] p[i] == settings[i] by {}
        if changes_of(settings, exports) is Ok {
            assert forall|i: int| 0 <= i < settings.len() implies domain_state(
                (#[trigger] settings[i]).domain,
                exports,
            ) is Ok by {
                if i < p.len() {
                    assert(p[i] == settings[i]);
                }
            }
        }
        if forall|i: int|
            0 <= i < settings.len() ==> domain_state((#[trigger] settings[i]).domain, exports) is Ok {
            assert forall|i: int| 0 <= i < p.len() implies domain_state(
                (#[trigger] p[i]).domain,
                exports,
            ) is Ok by {
                assert(p[i] == settings[i]);
            }
            assert(domain_state(settings[settings.len() - 1].domain, exports) is Ok);
        }
    }
}

proof fn lemma_keys_finite(domain: String, entries: Seq<(String, TomlValue)>)
    ensures
        settings_of_keys(domain, entries) matches Ok(s) ==> forall|i: int|
            0 <= i < s.len() ==> !((#[trigger] s[i]).value matches Value::Float(r) && bits_nan(
                r.bits,
            )),
    decreases entries.len(),
{
    if entries.len() > 0 {
        lemma_keys_finite(domain, entries.drop_last());
    }
}

proof fn lemma_domains_finite(entries: Seq<(String, TomlValue)>)
    ensures
        settings_of_domains(entries) matches Ok(s) ==> forall|i: int|
            0 <= i < s.len() ==> !((#[trigger] s[i]).value matches Value::Float(r) && bits_nan(
                r.bits,
            )),
    decreases entries.len(),
{
    if entries.len() > 0 {
        lemma_domains_finite(entries.drop_last());
        let last = entries.last();
        if let TomlValue::Table(t) = last.1 {
            lemma_keys_finite(last.0, t.entries@);
        }
        match settings_of_domains(entries.drop_last()) {
            Ok(before) => match settings_of_domain(last.0, last.1) {
                Ok(these) => {
                    assert forall|i: int| 0 <= i < (before + these).len() implies !((
                    #[trigger] (before + these)[i]).value matches Value::Float(r) && bits_nan(
                        r.bits,
                    )) by {
                        if i >= before.len() {
                            assert((before + these)[i] == these[i - before.len()]);
                        }
                    }
                },
                Err(_) => {},
            },
            Err(_) => {},
        }
    }
}

/// The plist value that `defaults write` stores for a value.
pub open spec fn plist_of(value: Value) -> PlistValue {
    match value {
        Value::Boolean(b) => PlistValue::Boolean(b),
        Value::Integer(i) => PlistValue::Integer(Some(i)),
        Value::Float(r) => PlistValue::Real(r),
        Value::String(s) => PlistValue::String(s),
    }
}

/// Once written, a configured value is in place: reading back the plist
/// value that writing it stores gives a change that is applied, so a second
/// run changes nothing. (A NaN float would never be in place; configurations
/// refuse it.)
pub proof fn lemma_written_value_in_place(value: TomlValue, i: int)
    requires
        settings_of(value) is Ok,
        0 <= i < settings_of(value)->Ok_0.len(),
    ensures
        applied(
            Change {
                setting: settings_of(value)->Ok_0[i],
                current: value_of_plist(plist_of(settings_of(value)->Ok_0[i].value)),
            },
        ),
{
    if let TomlValue::Table(t) = value {
        lemma_domains_finite(t.entries@);
    }
    let s = settings_of(value)->Ok_0[i];
    assert(!(s.value matches Value::Float(r) && bits_nan(r.bits)));
    assert(value_of_plist(plist_of(s.value)) == Some(s.value));
}

/// Comparing two defaults values is equality: it is symmetric, values of
/// different kinds never compare equal, booleans, integers and strings
/// compare equal exactly when they are the same, and reals by IEEE `==`. So a
/// change is in place only when the current value is the configured one.
pub proof fn lemma_same_value_is_equality(a: Value, b: Value, change: Change)
    ensures
        same_value(a, b) == same_value(b, a),
        same_value(a, b) ==> (a is Boolean) == (b is Boolean) && (a is Integer) == (b is Integer)
            && (a is Float) == (b is Float) && (a is String) == (b is String),
        a matches Value::Boolean(x) ==> (b matches Value::Boolean(y) ==> (same_value(a, b) <==> x
            == y)),
        a matches Value::Integer(x) ==> (b matches Value::Integer(y) ==> (same_value(a, b) <==> x
            == y)),
        a matches Value::String(x) ==> (b matches Value::String(y) ==> (same_value(a, b) <==> x@
            == y@)),
        a matches Value::Float(x) ==> (b matches Value::Float(y) ==> (same_value(a, b) <==> bits_equal(
            x.bits,
            y.bits,
        ))),
        change.current is None ==> !applied(change),
        change.current == Some(a) && change.setting.value == b ==> (applied(change) <==> same_value(
            a,
            b,
        )),
{
    if let (Value::Float(x), Value::Float(y)) = (a, b) {
        let (p, q) = (x.bits, y.bits);
        assert(p | q == q | p) by (bit_vector);
    }
}

/// Each change's current value is read from the export of its own setting's
/// domain, under its own key.
pub proof fn lemma_changes_read_their_domain(settings: Seq<Setting>, exports: Seq<DomainExport>)
    ensures
        changes_of(settings, exports) matches Ok(cs) ==> forall|i: int|
            0 <= i < settings.len() ==> (domain_state((#[trigger] settings[i]).domain, exports) matches Ok(
                contents,
            ) && cs[i].current == current_of(contents, settings[i].key@)),
    decreases settings.len(),
{
    if settings.len() > 0 {
        let p = settings.drop_last();
        lemma_changes_read_their_domain(p, exports);
        lemma_plan_shape(p, exports);
        if changes_of(settings, exports) is Ok {
            let cs = changes_of(settings, exports)->Ok_0;
            let before = changes_of(p, exports)->Ok_0;
            assert forall|i: int| 0 <= i < settings.len() implies (domain_state(
                (#[trigger] settings[i]).domain,
                exports,
            ) matches Ok(contents) && cs[i].current == current_of(contents, settings[i].key@)) by {
                if i < p.len() {
                    assert(p[i] == settings[i]);
                    assert(cs[i] == before[i]);
                }
            }
        }
    }
}

} // verus!
