//! The text that the inspection commands print, in each output format.
use vstd::prelude::*;
use crate::config::OutputFormat;
use crate::shell_words::{shlex_quote, try_quote_word};
use crate::text::{append_str, join, owned, views};
use crate::vars::{keys_increasing, pair_views};
use std::collections::BTreeMap;

verus! {

/// `serde_yaml::to_string` of a list of strings.
pub uninterp spec fn yaml_of_list(items: Seq<Seq<char>>) -> Seq<char>;

/// The lower-case hexadecimal digit of `d` (below 16).
pub open spec fn hex_digit(d: nat) -> char {
    if d < 10 {
        ((48 + d) as u8) as char
    } else {
        ((87 + d) as u8) as char
    }
}

/// How `serde_json` writes the character `c` inside a string: `"` and `\`
/// behind a backslash, the short escapes `\b \t \n \f \r`, other control
/// characters below U+0020 as `\u00` and two lower-case hex digits, every
/// other character as it is.
pub open spec fn json_char(c: char) -> Seq<char> {
    if c == '"' {
        seq!['\\', '"']
    } else if c == '\\' {
        seq!['\\', '\\']
    } else if c == '\x08' {
        seq!['\\', 'b']
    } else if c == '\t' {
        seq!['\\', 't']
    } else if c == '\n' {
        seq!['\\', 'n']
    } else if c == '\x0c' {
        seq!['\\', 'f']
    } else if c == '\r' {
        seq!['\\', 'r']
    } else if (c as u32) < 0x20 {
        seq!['\\', 'u', '0', '0', hex_digit((c as u32 / 16) as nat), hex_digit((c as u32 % 16) as nat)]
    } else {
        seq![c]
    }
}

/// The escaped characters of `s`.
pub open spec fn json_chars(s: Seq<char>) -> Seq<char>
    decreases s.len(),
{
    if s.len() == 0 {
        Seq::empty()
    } else {
        json_chars(s.drop_last()) + json_char(s.last())
    }
}

/// A JSON string literal holding `s`.
pub open spec fn json_string(s: Seq<char>) -> Seq<char> {
    seq!['"'] + json_chars(s) + seq!['"']
}

/// `serde_json::to_string_pretty` of a list of strings: `[]` when empty,
/// else one item per line, indented by two spaces, separated by commas.
pub open spec fn json_of_list(items: Seq<Seq<char>>) -> Seq<char> {
    if items.len() == 0 {
        "[]"@
    } else {
        "[\n"@ + join(items.map_values(|s: Seq<char>| "  "@ + json_string(s)), ",\n"@) + "\n]"@
    }
}

/// `serde_yaml::to_string` of a string.
pub uninterp spec fn yaml_of_str(s: Seq<char>) -> Seq<char>;

/// `serde_json::to_string_pretty` of a string: its JSON string literal.
pub open spec fn json_of_str(s: Seq<char>) -> Seq<char> {
    json_string(s)
}

/// `serde_yaml::to_string` of a map from strings to strings, given by its
/// entries in key order.
pub uninterp spec fn yaml_of_map(entries: Seq<(Seq<char>, Seq<char>)>) -> Seq<char>;

/// `serde_json::to_string_pretty` of a map from strings to strings, given
/// by its entries in key order: `{}` when empty, else one `"key": "value"`
/// per line, indented by two spaces, separated by commas.
pub open spec fn json_of_map(entries: Seq<(Seq<char>, Seq<char>)>) -> Seq<char> {
    if entries.len() == 0 {
        "{}"@
    } else {
        "{\n"@ + join(
            entries.map_values(|e: (Seq<char>, Seq<char>)| "  "@ + json_string(e.0) + ": "@ + json_string(e.1)),
            ",\n"@,
        ) + "\n}"@
    }
}

/// `serde_yaml::to_string(items)`. Trusted: it succeeds (serde_yaml fails
/// only when a `Serialize` impl or the UTF-8 conversion of its output fails,
/// neither of which happens for strings) and its text is the name
/// `yaml_of_list` of the items.
#[verifier::external_body]
fn yaml_list(items: &Vec<String>) -> (r: Result<String, String>)
    ensures
        r is Ok,
        r->Ok_0@ == yaml_of_list(views(items@)),
{
    serde_yaml::to_string(items).map_err(|e| e.to_string())
}

/// `serde_json::to_string_pretty(items)`. Trusted: it succeeds (serde_json
/// fails only when a `Serialize` impl fails or a map key is not a string,
/// neither of which happens here) and its text is `json_of_list` of the
/// items (`PrettyFormatter` with a two-space indent, strings escaped by
/// `format_escaped_str`).
#[verifier::external_body]
fn json_list(items: &Vec<String>) -> (r: Result<String, String>)
    ensures
        r is Ok,
        r->Ok_0@ == json_of_list(views(items@)),
{
    serde_json::to_string_pretty(items).map_err(|e| e.to_string())
}

/// `serde_yaml::to_string(value)`. Trusted: it succeeds, for the reason
/// given at `yaml_list`, and its text is the name `yaml_of_str` of the value.
#[verifier::external_body]
fn yaml_str(value: &str) -> (r: Result<String, String>)
    ensures
        r is Ok,
        r->Ok_0@ == yaml_of_str(value@),
{
    serde_yaml::to_string(value).map_err(|e| e.to_string())
}

/// `serde_json::to_string_pretty(value)`. Trusted: it succeeds, for the
/// reason given at `json_list`, and its text is `json_of_str` of the value.
#[verifier::external_body]
fn json_str(value: &str) -> (r: Result<String, String>)
    ensures
        r is Ok,
        r->Ok_0@ == json_of_str(value@),
{
    serde_json::to_string_pretty(value).map_err(|e| e.to_string())
}

/// `serde_yaml::to_string` of the `BTreeMap` holding `entries`, whose keys
/// are distinct and in order, so that the map holds them one for one in the
/// same order. Trusted: it succeeds, for the reason given at `yaml_list`, and
/// its text is the name `yaml_of_map` of the entries.
#[verifier::external_body]
fn yaml_map(entries: &Vec<(String, String)>) -> (r: Result<String, String>)
    requires
        keys_increasing(pair_views(entries@)),
    ensures
        r is Ok,
        r->Ok_0@ == yaml_of_map(pair_views(entries@)),
{
    let map: BTreeMap<&String, &String> = entries.iter().map(|(k, v)| (k, v)).collect();
    serde_yaml::to_string(&map).map_err(|e| e.to_string())
}

/// `serde_json::to_string_pretty` of the `BTreeMap` holding `entries`,
/// whose keys are distinct and in order. Trusted: it succeeds, for the reason
/// given at `json_list`, and its text is `json_of_map` of the entries (keys
/// escaped as strings are).
#[verifier::external_body]
fn json_map(entries: &Vec<(String, String)>) -> (r: Result<String, String>)
    requires
        keys_increasing(pair_views(entries@)),
    ensures
        r is Ok,
        r->Ok_0@ == json_of_map(pair_views(entries@)),
{
    let map: BTreeMap<&String, &String> = entries.iter().map(|(k, v)| (k, v)).collect();
    serde_json::to_string_pretty(&map).map_err(|e| e.to_string())
}

/// Each item on a line of its own.
pub open spec fn lines_of(items: Seq<Seq<char>>) -> Seq<char>
    decreases items.len(),
{
    if items.len() == 0 {
        Seq::empty()
    } else {
        lines_of(items.drop_last()) + items.last() + "\n"@
    }
}

/// Each entry on a line of its own, key and value separated by `sep`.
pub open spec fn entry_lines(entries: Seq<(Seq<char>, Seq<char>)>, sep: Seq<char>) -> Seq<char>
    decreases entries.len(),
{
    if entries.len() == 0 {
        Seq::empty()
    } else {
        entry_lines(entries.drop_last(), sep) + entries.last().0 + sep + entries.last().1 + "\n"@
    }
}

/// A rendering through a serializer: its `text` followed by `suffix`.
pub open spec fn rendered(r: Result<Seq<char>, Seq<char>>, text: Seq<char>, suffix: Seq<char>) -> bool {
    r == Ok::<Seq<char>, Seq<char>>(text + suffix)
}

/// The views of a serialization result.
pub open spec fn result_view(r: Result<String, String>) -> Result<Seq<char>, Seq<char>> {
    match r {
        Ok(s) => Ok(s@),
        Err(e) => Err(e@),
    }
}

/// The serializer's text, followed by a newline when `newline` is set.
fn finish(r: Result<String, String>, newline: bool) -> (o: Result<String, String>)
    requires
        r is Ok,
    ensures
        result_view(o) == Ok::<Seq<char>, Seq<char>>(
            r->Ok_0@ + if newline {
                "\n"@
            } else {
                Seq::empty()
            },
        ),
{
    let mut s = r.unwrap();
    if newline {
        append_str(&mut s, "\n");
    } else {
        assert(s@ + Seq::<char>::empty() =~= s@);
    }
    Ok(s)
}

/// `r` is the text of a list of `items` in `format`: a line per item (raw,
/// the default, and properties), YAML, or pretty JSON ending in a newline.
pub open spec fn list_rendered(r: Result<Seq<char>, Seq<char>>, items: Seq<Seq<char>>, format: Option<OutputFormat>) -> bool {
    match format {
        Some(OutputFormat::Yaml) => rendered(r, yaml_of_list(items), Seq::empty()),
        Some(OutputFormat::Json) => rendered(r, json_of_list(items), "\n"@),
        _ => r == Ok::<Seq<char>, Seq<char>>(lines_of(items)),
    }
}

/// `r` is the text of a single `value` in `format`: the value on a line
/// (raw, the default, and properties), YAML, or pretty JSON ending in a
/// newline.
pub open spec fn single_rendered(r: Result<Seq<char>, Seq<char>>, value: Seq<char>, format: Option<OutputFormat>) -> bool {
    match format {
        Some(OutputFormat::Yaml) => rendered(r, yaml_of_str(value), Seq::empty()),
        Some(OutputFormat::Json) => rendered(r, json_of_str(value), "\n"@),
        _ => r == Ok::<Seq<char>, Seq<char>>(value + "\n"@),
    }
}

/// `r` is the text of the map with `entries` (in key order) in `format`:
/// YAML (the default), a line `key<TAB>value` per entry (raw), a line
/// `key=value` per entry (properties), or pretty JSON ending in a newline.
pub open spec fn map_rendered(
    r: Result<Seq<char>, Seq<char>>,
    entries: Seq<(Seq<char>, Seq<char>)>,
    format: Option<OutputFormat>,
) -> bool {
    match format {
        Some(OutputFormat::Raw) => r == Ok::<Seq<char>, Seq<char>>(entry_lines(entries, "\t"@)),
        Some(OutputFormat::Properties) => r == Ok::<Seq<char>, Seq<char>>(entry_lines(entries, "="@)),
        Some(OutputFormat::Json) => rendered(r, json_of_map(entries), "\n"@),
        _ => rendered(r, yaml_of_map(entries), Seq::empty()),
    }
}

/// Renders a list of strings.
pub fn render_list(items: &Vec<String>, format: Option<OutputFormat>) -> (r: Result<String, String>)
    ensures
        list_rendered(result_view(r), views(items@), format),
{
    match format {
        Some(OutputFormat::Yaml) => finish(yaml_list(items), false),
        Some(OutputFormat::Json) => finish(json_list(items), true),
        _ => {
            let mut s = String::new();
            let mut i: usize = 0;
            while i < items.len()
                invariant
                    i <= items@.len(),
                    s@ == lines_of(views(items@).take(i as int)),
                decreases items@.len() - i,
            {
                assert(views(items@).take(i + 1).drop_last() =~= views(items@).take(i as int));
                append_str(&mut s, items[i].as_str());
                append_str(&mut s, "\n");
                i = i + 1;
            }
            assert(views(items@).take(items@.len() as int) =~= views(items@));
            Ok(s)
        },
    }
}

/// Renders a single string: itself on a line (raw, the default, and
/// properties), YAML, or pretty JSON ending in a newline.
pub fn render_single(value: &str, format: Option<OutputFormat>) -> (r: Result<String, String>)
    ensures
        single_rendered(result_view(r), value@, format),
{
    match format {
        Some(OutputFormat::Yaml) => finish(yaml_str(value), false),
        Some(OutputFormat::Json) => finish(json_str(value), true),
        _ => {
            let mut s = owned(value);
            append_str(&mut s, "\n");
            Ok(s)
        },
    }
}

/// Renders a map given by its entries in key order: YAML (the default), a
/// line `key<TAB>value` per entry (raw), a line `key=value` per entry
/// (properties), or pretty JSON ending in a newline.
pub fn render_map(entries: &Vec<(String, String)>, format: Option<OutputFormat>) -> (r: Result<String, String>)
    requires
        keys_increasing(pair_views(entries@)),
    ensures
        map_rendered(result_view(r), pair_views(entries@), format),
{
    match format {
        Some(OutputFormat::Raw) => {
            let t = entry_text(entries, "\t");
            Ok(t)
        },
        Some(OutputFormat::Properties) => {
            let t = entry_text(entries, "=");
            Ok(t)
        },
        Some(OutputFormat::Json) => finish(json_map(entries), true),
        _ => finish(yaml_map(entries), false),
    }
}

fn entry_text(entries: &Vec<(String, String)>, sep: &str) -> (s: String)
    ensures
        s@ == entry_lines(pair_views(entries@), sep@),
{
    let mut s = String::new();
    let mut i: usize = 0;
    while i < entries.len()
        invariant
            i <= entries@.len(),
            s@ == entry_lines(pair_views(entries@).take(i as int), sep@),
        decreases entries@.len() - i,
    {
        assert(pair_views(entries@).take(i + 1).drop_last() =~= pair_views(entries@).take(i as int));
        append_str(&mut s, entries[i].0.as_str());
        append_str(&mut s, sep);
        append_str(&mut s, entries[i].1.as_str());
        append_str(&mut s, "\n");
        i = i + 1;
    }
    assert(pair_views(entries@).take(entries@.len() as int) =~= pair_views(entries@));
    s
}

/// A word quoted for a shell, or as it is when it cannot be quoted (it holds
/// a nul character).
pub open spec fn quoted_word(w: Seq<char>) -> Seq<char> {
    if w.len() > 0 && w.contains('\0') {
        w
    } else {
        shlex_quote(w)
    }
}

/// The argv as a shell command line: each word quoted, separated by spaces.
pub fn format_command_args(args: Vec<String>) -> (s: String)
    ensures
        s@ == join(views(args@).map_values(|w: Seq<char>| quoted_word(w)), " "@),
{
    let ghost quoted = views(args@).map_values(|w: Seq<char>| quoted_word(w));
    let mut words: Vec<String> = Vec::new();
    let mut i: usize = 0;
    while i < args.len()
        invariant
            i <= args@.len(),
            quoted == views(args@).map_values(|w: Seq<char>| quoted_word(w)),
            views(words@) == quoted.take(i as int),
        decreases args@.len() - i,
    {
        let q = match try_quote_word(args[i].as_str()) {
            Some(q) => q,
            None => owned(args[i].as_str()),
        };
        assert(q@ == quoted[i as int]);
        let ghost before = words@;
        words.push(q);
        assert(views(words@) =~= views(before).push(q@));
        assert(quoted.take(i + 1) =~= quoted.take(i as int).push(quoted[i as int]));
        assert(views(words@) =~= quoted.take(i + 1));
        i = i + 1;
    }
    assert(quoted.take(args@.len() as int) =~= quoted);
    crate::text::join_strings(&words, " ")
}

} // verus!
