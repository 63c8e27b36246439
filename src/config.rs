//! Command-line settings, config-file settings, and the field-by-field
//! precedence that merges them with built-in defaults.
use vstd::prelude::*;
use crate::model::opt_text_view;
use crate::run::LintError;

verus! {

/// Settings given on the command line; each is independently optional.
#[derive(Debug, Clone, Default)]
pub struct Args {
    pub profile: Option<String>,
    pub format: Option<String>,
    pub output: Option<String>,
    pub config: Option<String>,
    pub deny: Option<String>,
    pub quiet: bool,
    pub verbose: u8,
}

/// Settings read from a config file; each is independently optional.
#[derive(Debug, Clone, Default)]
pub struct ConfigFile {
    pub profile: Option<String>,
    pub format: Option<String>,
    pub deny: Option<String>,
}

/// The fully resolved settings of one run.
#[derive(Debug, Clone)]
pub struct EffectiveConfig {
    pub profile: String,
    pub format: String,
    pub deny: String,
}

pub open spec fn default_profile() -> Seq<char> {
    seq!['h', 'i', 'g', 'h', '_', 'a', 's', 's', 'u', 'r', 'a', 'n', 'c', 'e']
}

pub open spec fn default_format() -> Seq<char> {
    seq!['t', 'e', 'x', 't']
}

pub open spec fn default_deny() -> Seq<char> {
    seq!['e', 'r', 'r', 'o', 'r']
}

/// The first value present among the command line and the config file, else
/// the default.
pub open spec fn first_present(cli: Option<String>, file: Option<String>, default: Seq<char>) -> Seq<
    char,
> {
    match cli {
        Some(c) => c@,
        None => match file {
            Some(f) => f@,
            None => default,
        },
    }
}

pub open spec fn file_profile(file: Option<ConfigFile>) -> Option<String> {
    match file {
        Some(c) => c.profile,
        None => None,
    }
}

pub open spec fn file_format(file: Option<ConfigFile>) -> Option<String> {
    match file {
        Some(c) => c.format,
        None => None,
    }
}

pub open spec fn file_deny(file: Option<ConfigFile>) -> Option<String> {
    match file {
        Some(c) => c.deny,
        None => None,
    }
}

fn pick(cli: &Option<String>, file: &Option<String>, default: &str) -> (r: String)
    ensures
        r@ == first_present(*cli, *file, default@),
{
    match cli {
        Some(c) => c.clone(),
        None => match file {
            Some(f) => f.clone(),
            None => default.to_owned(),
        },
    }
}

/// Resolves each setting on its own: the command line wins over the config
/// file, which wins over the built-in defaults (`high_assurance`, `text`,
/// `error`).
pub fn resolve_config(args: &Args, file: &Option<ConfigFile>) -> (r: EffectiveConfig)
    ensures
        r.profile@ == first_present(args.profile, file_profile(*file), default_profile()),
        r.format@ == first_present(args.format, file_format(*file), default_format()),
        r.deny@ == first_present(args.deny, file_deny(*file), default_deny()),
{
    proof {
        reveal_strlit("high_assurance");
        reveal_strlit("text");
        reveal_strlit("error");
    }
    let (fp, ff, fd) = match file {
        Some(c) => (c.profile.clone(), c.format.clone(), c.deny.clone()),
        None => (None, None, None),
    };
    EffectiveConfig {
        profile: pick(&args.profile, &fp, "high_assurance"),
        format: pick(&args.format, &ff, "text"),
        deny: pick(&args.deny, &fd, "error"),
    }
}

#[verifier::external_type_specification]
#[verifier::external_body]
#[verifier::reject_recursive_types(K)]
#[verifier::reject_recursive_types(V)]
pub struct ExTomlMap<K, V>(toml::map::Map<K, V>);

#[verifier::external_type_specification]
#[verifier::external_body]
pub struct ExTomlValue(toml::Value);

#[verifier::external_type_specification]
#[verifier::external_body]
pub struct ExTomlError(toml::de::Error);

/// A TOML value as far as the config file is concerned: a string, or
/// anything else.
pub enum TomlItem {
    Text(Seq<char>),
    Other,
}

/// What a TOML value holds.
pub uninterp spec fn toml_item(v: toml::Value) -> TomlItem;

/// The entries of a TOML table.
pub uninterp spec fn toml_entries(t: toml::Table) -> Map<Seq<char>, TomlItem>;

/// The entries of the table that `toml` reads from a text, if the text is a
/// TOML document.
pub uninterp spec fn toml_parse_of(s: Seq<char>) -> Option<Map<Seq<char>, TomlItem>>;

/// Relies on `toml::from_str` into a `toml::Table`: it succeeds exactly on
/// TOML documents, and what it reads depends on the text alone.
#[verifier::external_body]
fn toml_parse(text: &str) -> (r: Result<toml::Table, toml::de::Error>)
    ensures
        r is Ok <==> toml_parse_of(text@) is Some,
        r matches Ok(t) ==> Some(toml_entries(t)) == toml_parse_of(text@),
{
    toml::from_str::<toml::Table>(text)
}

/// Relies on `toml::map::Map::get`: the value under a key, if present.
#[verifier::external_body]
fn toml_get<'a>(t: &'a toml::Table, k: &str) -> (r: Option<&'a toml::Value>)
    ensures
        r is Some <==> toml_entries(*t).contains_key(k@),
        r matches Some(v) ==> toml_item(*v) == toml_entries(*t)[k@],
{
    t.get(k)
}

/// Relies on `toml::Value::as_str`: the text of a string value.
#[verifier::external_body]
fn toml_as_str(v: &toml::Value) -> (r: Option<&str>)
    ensures
        r is Some <==> toml_item(*v) is Text,
        r matches Some(s) ==> toml_item(*v) == TomlItem::Text(s@),
{
    v.as_str()
}

/// An optional string key of the config file: absent reads as `None`, a
/// string as its text, and any other value is malformed.
pub open spec fn optional_text(m: Map<Seq<char>, TomlItem>, k: Seq<char>) -> Option<
    Option<Seq<char>>,
> {
    if !m.contains_key(k) {
        Some(None)
    } else {
        match m[k] {
            TomlItem::Text(s) => Some(Some(s)),
            TomlItem::Other => None,
        }
    }
}

/// Whether a table's entries make a valid config file.
pub open spec fn config_entries_valid(m: Map<Seq<char>, TomlItem>) -> bool {
    &&& optional_text(m, "profile"@) is Some
    &&& optional_text(m, "format"@) is Some
    &&& optional_text(m, "deny"@) is Some
}

fn optional_text_of(t: &toml::Table, k: &str) -> (r: Option<Option<String>>)
    ensures
        r is Some <==> optional_text(toml_entries(*t), k@) is Some,
        r matches Some(o) ==> Some(opt_text_view(o)) == optional_text(toml_entries(*t), k@),
{
    match toml_get(t, k) {
        None => Some(None),
        Some(v) => match toml_as_str(v) {
            Some(s) => Some(Some(s.to_owned())),
            None => None,
        },
    }
}

/// Reads the config file's text: a TOML document whose keys `profile`,
/// `format` and `deny` are each absent or a string; other keys are ignored.
/// Anything else is a `ConfigParse` error naming `path`.
pub fn parse_config(path: &str, text: &str) -> (r: Result<ConfigFile, LintError>)
    ensures
        r is Ok <==> (toml_parse_of(text@) matches Some(m) && config_entries_valid(m)),
        r matches Err(e) ==> (e matches LintError::ConfigParse(p) && p@ == path@),
        r matches Ok(c) ==> toml_parse_of(text@) matches Some(m) && {
            &&& Some(opt_text_view(c.profile)) == optional_text(m, "profile"@)
            &&& Some(opt_text_view(c.format)) == optional_text(m, "format"@)
            &&& Some(opt_text_view(c.deny)) == optional_text(m, "deny"@)
        },
{
    let table = match toml_parse(text) {
        Ok(t) => t,
        Err(_) => {
            return Err(LintError::ConfigParse(path.to_owned()));
        },
    };
    let profile = optional_text_of(&table, "profile");
    let format = optional_text_of(&table, "format");
    let deny = optional_text_of(&table, "deny");
    match (profile, format, deny) {
        (Some(profile), Some(format), Some(deny)) => Ok(ConfigFile { profile, format, deny }),
        _ => Err(LintError::ConfigParse(path.to_owned())),
    }
}

} // verus!
