use vstd::prelude::*;

use crate::resources::types::map::split_lines;

verus! {

/// A parsed TOML document, carried through as it is.
#[verifier::external_type_specification]
#[verifier::external_body]
pub struct ExTomlValue(toml::Value);

/// What `text` reads as when parsed as a TOML document: the document's root,
/// whether that root is a table, and the keys of that table, or, where the text
/// is not TOML, the parser's message.
pub uninterp spec fn toml_document(text: Seq<char>) -> Result<
    (toml::Value, bool, Seq<Seq<char>>),
    Seq<char>,
>;

/// The white space that TOML skips around a line: space, tab, and the carriage
/// return of a CRLF line end.
pub open spec fn is_toml_space(c: char) -> bool {
    c == ' ' || c == '\t' || c == '\r'
}

/// `s` without the TOML white space at either end.
pub open spec fn trim_toml(s: Seq<char>) -> Seq<char>
    decreases s.len(),
{
    if s.len() > 0 && is_toml_space(s[0]) {
        trim_toml(s.drop_first())
    } else if s.len() > 0 && is_toml_space(s.last()) {
        trim_toml(s.drop_last())
    } else {
        s
    }
}

/// A character of a bare key: an ASCII letter or digit, `_` or `-`.
pub open spec fn is_bare_key_char(c: char) -> bool {
    ('A' <= c <= 'Z') || ('a' <= c <= 'z') || ('0' <= c <= '9') || c == '_' || c == '-'
}

/// A bare key: one or more bare-key characters.
pub open spec fn is_bare_key(key: Seq<char>) -> bool {
    key.len() > 0 && forall|i: int| 0 <= i < key.len() ==> #[trigger] is_bare_key_char(key[i])
}

/// A trimmed line that is a table header `[key]` with a bare key.
pub open spec fn is_header(line: Seq<char>) -> bool {
    &&& line.len() >= 3
    &&& line[0] == '['
    &&& line.last() == ']'
    &&& is_bare_key(line.subrange(1, line.len() - 1))
}

/// A line that holds none of the brackets, braces and quotes with which a
/// TOML value may run on over several lines.
pub open spec fn opens_nothing(line: Seq<char>) -> bool {
    forall|i: int|
        0 <= i < line.len() ==> {
            let c = #[trigger] line[i];
            c != '[' && c != ']' && c != '{' && c != '}' && c != '"' && c != '\''
        }
}

/// A trimmed line that is blank, a comment, a table header with a bare key,
/// or holds no bracket, brace or quote.
pub open spec fn is_plain_line(line: Seq<char>) -> bool {
    line.len() == 0 || line[0] == '#' || is_header(line) || opens_nothing(line)
}

/// A text whose every line is plain: no value in it runs on over a line end,
/// so each line stands for itself.
pub open spec fn plain_toml(text: Seq<char>) -> bool {
    forall|i: int|
        0 <= i < split_lines(text).len() ==> is_plain_line(
            trim_toml(#[trigger] split_lines(text)[i]),
        )
}

/// A trimmed line `key = ...` whose key, before its first `=`, is the bare
/// key `key`.
pub open spec fn is_pair_of(line: Seq<char>, key: Seq<char>) -> bool {
    exists|p: int|
        0 <= p < line.len() && line[p] == '=' && (forall|q: int|
            0 <= q < p ==> #[trigger] line[q] != '=') && trim_toml(line.subrange(0, p)) == key
            && is_bare_key(key)
}

/// Whether `text` puts `key` into the root table with a line of its own: a
/// table header `[key]`, or a pair `key = ...` above the first table header.
pub open spec fn declares_root_key(text: Seq<char>, key: Seq<char>) -> bool {
    let lines = split_lines(text);
    exists|i: int|
        0 <= i < lines.len() && {
            let line = trim_toml(#[trigger] lines[i]);
            ||| is_header(line) && line.subrange(1, line.len() - 1) == key
            ||| (forall|j: int| 0 <= j < i ==> !is_header(trim_toml(#[trigger] lines[j])))
                && is_pair_of(line, key)
        }
}

/// The views of some keys.
pub open spec fn key_views(keys: Seq<String>) -> Seq<Seq<char>> {
    keys.map_values(|key: String| key@)
}

/// Parses `text` with `toml::from_str` into a `toml::Value`, and lists the keys
/// of its root table. The contract claims that the parser's outcome depends on
/// the text alone: what it returns, the root with whether it is a table and its
/// keys, or the error's message, is what `toml_document` names for the text.
/// It claims one fact more, which the TOML grammar gives: in a text whose every
/// line stands for itself ([`plain_toml`]), each key that a line puts into the
/// root table ([`declares_root_key`]) is a key of the parsed root.
#[verifier::external_body]
fn parse_toml(text: &str) -> (parsed: Result<(toml::Value, bool, Vec<String>), String>)
    ensures
        match parsed {
            Ok((root, table, keys)) => toml_document(text@) == Ok::<
                (toml::Value, bool, Seq<Seq<char>>),
                Seq<char>,
            >((root, table, key_views(keys@))),
            Err(message) => toml_document(text@) == Err::<
                (toml::Value, bool, Seq<Seq<char>>),
                Seq<char>,
            >(message@),
        },
        parsed matches Ok((_, _, keys)) ==> (plain_toml(text@) ==> forall|key: Seq<char>|
            #[trigger] declares_root_key(text@, key) ==> key_views(keys@).contains(key)),
{
    match toml::from_str::<toml::Value>(text) {
        Ok(toml::Value::Table(table)) => {
            let keys = table.keys().cloned().collect();
            Ok((toml::Value::Table(table), true, keys))
        },
        Ok(other) => Ok((other, false, Vec::new())),
        Err(error) => Err(error.to_string()),
    }
}

/// Why a configuration text was refused.
#[derive(Debug, Clone, PartialEq, Eq)]
pub enum ConfigError {
    /// The text is not TOML; the parser's message says why.
    Syntax { reason: String },
    /// The document's root is not a table.
    NotATable,
}

/// A TOML configuration file: where it came from, its parsed root table and
/// that table's keys.
pub struct ConfigAsset {
    path: String,
    root: toml::Value,
    keys: Vec<String>,
}

impl ConfigAsset {
    /// Where the configuration was read from.
    pub closed spec fn path_view(&self) -> Seq<char> {
        self.path@
    }

    /// The parsed document.
    pub closed spec fn root_value(&self) -> toml::Value {
        self.root
    }

    /// The keys of the root table.
    pub closed spec fn root_keys_view(&self) -> Seq<Seq<char>> {
        key_views(self.keys@)
    }

    /// Builds the configuration read from `path` out of its text: the text
    /// must parse as TOML, and its root must be a table, which is kept. Where
    /// every line of the text stands for itself, each key that a line puts into
    /// the root (a table header `[key]`, or a pair above the first header) is a
    /// key of the kept root.
    pub fn parse(path: String, text: &str) -> (result: Result<ConfigAsset, ConfigError>)
        ensures
            result is Ok <==> toml_document(text@) matches Ok((_, true, _)),
            result matches Err(ConfigError::NotATable) <==> toml_document(text@) matches Ok(
                (_, false, _),
            ),
            result matches Err(ConfigError::Syntax { .. }) <==> toml_document(text@) is Err,
            result matches Ok(config) ==> config.path_view() == path@ && toml_document(text@)
                == Ok::<(toml::Value, bool, Seq<Seq<char>>), Seq<char>>(
                (config.root_value(), true, config.root_keys_view()),
            ),
            result matches Ok(config) ==> (plain_toml(text@) ==> forall|key: Seq<char>|
                #[trigger] declares_root_key(text@, key) ==> config.root_keys_view().contains(
                    key,
                )),
            result matches Err(ConfigError::Syntax { reason }) ==> toml_document(text@)
                == Err::<(toml::Value, bool, Seq<Seq<char>>), Seq<char>>(reason@),
    {
        match parse_toml(text) {
            Ok((root, table, keys)) => {
                if table {
                    Ok(ConfigAsset { path, root, keys })
                } else {
                    Err(ConfigError::NotATable)
                }
            },
            Err(reason) => Err(ConfigError::Syntax { reason }),
        }
    }

    /// Where the configuration was read from.
    pub fn path(&self) -> (path: &str)
        ensures
            path@ == self.path_view(),
    {
        self.path.as_str()
    }

    /// The parsed document, whose root is a table.
    pub fn root(&self) -> (root: &toml::Value)
        ensures
            *root == self.root_value(),
    {
        &self.root
    }

    /// The keys of the root table.
    pub fn root_keys(&self) -> (keys: &[String])
        ensures
            key_views(keys@) == self.root_keys_view(),
    {
        self.keys.as_slice()
    }
}

} // verus!
