//! Format dispatch: maps a format identifier, case-insensitively, to an
//! external parse or serialize backend over the shared value model. The
//! backends themselves are outside collaborators; dispatch, identifier
//! handling and the error taxonomy are verified here.
use crate::error::DataError;
use crate::tabular::{csv_text_of, json_to_csv, records_spec};
use crate::text::{eq_ignore_case, lower_ascii};
use crate::value::{nest_le, Val, ValView};
use vstd::prelude::*;

verus! {

#[verifier::external_type_specification]
#[verifier::external_body]
pub struct ExJsonValue(serde_json::Value);

/// Bridges a serde_json tree into the value model: objects become entry
/// lists in the map's order, a number becomes its canonical text. Plumbing
/// for the backends below; nothing is claimed of it.
#[verifier::external_body]
pub(crate) fn from_json(j: serde_json::Value) -> (r: Val) {
    match j {
        serde_json::Value::Null => Val::Null,
        serde_json::Value::Bool(b) => Val::Bool(b),
        serde_json::Value::Number(n) => Val::Num(n.to_string()),
        serde_json::Value::String(s) => Val::Text(s),
        serde_json::Value::Array(a) => Val::Arr(a.into_iter().map(from_json).collect()),
        serde_json::Value::Object(o) => Val::Obj(
            o.into_iter().map(
                |(k, v)| crate::value::Entry { key: k, val: from_json(v) },
            ).collect(),
        ),
    }
}

/// Bridges the value model back into a serde_json tree, entry order kept; a
/// number payload that is not JSON number text becomes zero. Plumbing for the
/// backends below; nothing is claimed of it.
#[verifier::external_body]
pub(crate) fn to_json(v: &Val) -> (r: serde_json::Value) {
    match v {
        Val::Null => serde_json::Value::Null,
        Val::Bool(b) => serde_json::Value::Bool(*b),
        Val::Num(n) => serde_json::Value::Number(
            serde_json::from_str(n).unwrap_or_else(|_| serde_json::Number::from(0u8)),
        ),
        Val::Text(s) => serde_json::Value::String(s.clone()),
        Val::Arr(a) => serde_json::Value::Array(a.iter().map(to_json).collect()),
        Val::Obj(m) => serde_json::Value::Object(
            m.iter().map(|e| (e.key.clone(), to_json(&e.val))).collect(),
        ),
    }
}

/// The deepest container nesting the JSON parser accepts: its recursion
/// budget of 128 errors on the 128th nested container.
pub const JSON_NEST_LIMIT: usize = 127;

/// The deepest container nesting the YAML parser accepts: its recursion
/// budget of 128 covers both mappings and sequences and errors one level
/// later than the JSON parser's.
pub const YAML_NEST_LIMIT: usize = 128;

/// Whether `s` is a canonical number text: one that serde_json's own number
/// printing emits, and that re-parses to a number printing the same way.
pub uninterp spec fn canonical_num_text(s: Seq<char>) -> bool;

/// Every number in the tree carries canonical text.
pub open spec fn nums_canonical(v: ValView) -> bool
    decreases v,
{
    match v {
        ValView::Num(n) => canonical_num_text(n),
        ValView::Arr(a) => forall|i: int|
            0 <= i < a.len() ==> nums_canonical(#[trigger] a[i]),
        ValView::Obj(m) => forall|i: int|
            0 <= i < m.len() ==> nums_canonical((#[trigger] m[i]).val),
        _ => true,
    }
}

/// What JSON parsing yields under the value model: the value, or the
/// backend's error message.
pub uninterp spec fn json_parse_spec(content: Seq<char>) -> Result<ValView, Seq<char>>;

/// What YAML parsing yields under the value model: the value, or the
/// backend's error message.
pub uninterp spec fn yaml_parse_spec(content: Seq<char>) -> Result<ValView, Seq<char>>;

/// What TOML parsing yields under the value model: the value, or the
/// backend's error message.
pub uninterp spec fn toml_parse_spec(content: Seq<char>) -> Result<ValView, Seq<char>>;

/// What XML parsing yields under the value model: the value, or the
/// backend's error message.
pub uninterp spec fn xml_parse_spec(content: Seq<char>) -> Result<ValView, Seq<char>>;

/// What CSV parsing yields under the value model: the value, or the
/// backend's error message.
pub uninterp spec fn csv_parse_spec(content: Seq<char>) -> Result<ValView, Seq<char>>;

/// What JSON serialization emits for a value, `None` where it fails.
pub uninterp spec fn json_text_spec(v: ValView) -> Option<Seq<char>>;

/// What YAML serialization emits for a value, `None` where it fails.
pub uninterp spec fn yaml_text_spec(v: ValView) -> Option<Seq<char>>;

/// What TOML serialization emits for a value, `None` where it fails.
pub uninterp spec fn toml_text_spec(v: ValView) -> Option<Seq<char>>;

/// What XML serialization emits for a value, `None` where it fails.
pub uninterp spec fn xml_text_spec(v: ValView) -> Option<Seq<char>>;

/// Relies on serde_json::from_str: deterministic in the text, message
/// included; object keys are unique since duplicates collapse in serde_json's
/// map; the parser's recursion budget bounds the nesting of what it accepts.
#[verifier::external_body]
fn parse_json(content: &str) -> (r: Result<Val, String>)
    ensures
        match r {
            Ok(v) => {
                &&& json_parse_spec(content@) == Ok::<ValView, Seq<char>>(v@)
                &&& v@.wf()
                &&& nums_canonical(v@)
                &&& (v@ matches ValView::Num(n) ==> canonical_num_text(n))
                &&& nest_le(v@, JSON_NEST_LIMIT as int)
            },
            Err(m) => json_parse_spec(content@) == Err::<ValView, Seq<char>>(m@),
        },
{
    match serde_json::from_str::<serde_json::Value>(content) {
        Ok(j) => Ok(from_json(j)),
        Err(e) => Err(e.to_string()),
    }
}

/// Relies on serde_yaml::from_str: deterministic in the text, message
/// included; mapping keys are unique since duplicates are rejected or
/// collapsed; the parser's recursion budget bounds the nesting of what it
/// accepts.
#[verifier::external_body]
fn parse_yaml(content: &str) -> (r: Result<Val, String>)
    ensures
        match r {
            Ok(v) => yaml_parse_spec(content@) == Ok::<ValView, Seq<char>>(v@) && v@.wf()
                && nums_canonical(v@) && nest_le(v@, YAML_NEST_LIMIT as int),
            Err(m) => yaml_parse_spec(content@) == Err::<ValView, Seq<char>>(m@),
        },
{
    match serde_yaml::from_str::<serde_json::Value>(content) {
        Ok(j) => Ok(from_json(j)),
        Err(e) => Err(e.to_string()),
    }
}

/// Relies on toml::from_str: deterministic in the text, message included;
/// table keys are unique.
#[verifier::external_body]
fn parse_toml(content: &str) -> (r: Result<Val, String>)
    ensures
        match r {
            Ok(v) => toml_parse_spec(content@) == Ok::<ValView, Seq<char>>(v@) && v@.wf()
                && nums_canonical(v@),
            Err(m) => toml_parse_spec(content@) == Err::<ValView, Seq<char>>(m@),
        },
{
    match toml::from_str::<serde_json::Value>(content) {
        Ok(j) => Ok(from_json(j)),
        Err(e) => Err(e.to_string()),
    }
}

/// Relies on quick_xml::de::from_str: deterministic in the text, message
/// included; element names collapse into unique map keys.
#[verifier::external_body]
fn parse_xml(content: &str) -> (r: Result<Val, String>)
    ensures
        match r {
            Ok(v) => xml_parse_spec(content@) == Ok::<ValView, Seq<char>>(v@) && v@.wf()
                && nums_canonical(v@),
            Err(m) => xml_parse_spec(content@) == Err::<ValView, Seq<char>>(m@),
        },
{
    match quick_xml::de::from_str::<serde_json::Value>(content) {
        Ok(j) => Ok(from_json(j)),
        Err(e) => Err(e.to_string()),
    }
}

/// Relies on csv::Reader: the first line is headers, each further line one
/// record, deserialized field by field; deterministic in the text, message
/// included.
#[verifier::external_body]
fn parse_csv(content: &str) -> (r: Result<Val, String>)
    ensures
        match r {
            Ok(v) => csv_parse_spec(content@) == Ok::<ValView, Seq<char>>(v@) && v@.wf()
                && nums_canonical(v@),
            Err(m) => csv_parse_spec(content@) == Err::<ValView, Seq<char>>(m@),
        },
{
    let mut rdr = csv::ReaderBuilder::new().has_headers(true).from_reader(content.as_bytes());
    let rows: Result<Vec<serde_json::Map<String, serde_json::Value>>, csv::Error> =
        rdr.deserialize().collect();
    let rows = rows.map_err(|e| e.to_string())?;
    Ok(Val::Arr(rows.into_iter().map(|m| from_json(serde_json::Value::Object(m))).collect()))
}

/// Relies on serde_json::to_string_pretty, and on serde_json::from_str
/// reading its own output back: for a well-formed value whose numbers carry
/// canonical text, whenever the emitted text parses, it parses to the same
/// value, and it does parse when the value stays within the parser's nesting
/// budget (the serializer itself has none).
#[verifier::external_body]
fn write_json(v: &Val) -> (r: Result<String, String>)
    requires
        v@.wf(),
    ensures
        match r {
            Ok(t) => {
                &&& json_text_spec(v@) == Some(t@)
                &&& nums_canonical(v@) ==> {
                    &&& (json_parse_spec(t@) matches Ok(p) ==> p == v@)
                    &&& (nest_le(v@, JSON_NEST_LIMIT as int) ==> json_parse_spec(t@)
                        == Ok::<ValView, Seq<char>>(v@))
                }
            },
            Err(_) => json_text_spec(v@) is None,
        },
{
    serde_json::to_string_pretty(&to_json(v)).map_err(|e| e.to_string())
}

/// Relies on serde_yaml::to_string: deterministic in the value.
#[verifier::external_body]
fn write_yaml(v: &Val) -> (r: Result<String, String>)
    ensures
        match r {
            Ok(t) => yaml_text_spec(v@) == Some(t@),
            Err(_) => yaml_text_spec(v@) is None,
        },
{
    serde_yaml::to_string(&to_json(v)).map_err(|e| e.to_string())
}

/// Relies on toml::to_string_pretty: deterministic in the value.
#[verifier::external_body]
fn write_toml(v: &Val) -> (r: Result<String, String>)
    ensures
        match r {
            Ok(t) => toml_text_spec(v@) == Some(t@),
            Err(_) => toml_text_spec(v@) is None,
        },
{
    toml::to_string_pretty(&to_json(v)).map_err(|e| e.to_string())
}

/// Relies on quick_xml::se::to_string: deterministic in the value.
#[verifier::external_body]
fn write_xml(v: &Val) -> (r: Result<String, String>)
    ensures
        match r {
            Ok(t) => xml_text_spec(v@) == Some(t@),
            Err(_) => xml_text_spec(v@) is None,
        },
{
    quick_xml::se::to_string(&to_json(v)).map_err(|e| e.to_string())
}

/// Ground facts distinguishing the six format identifiers.
proof fn lemma_format_literals()
    ensures
        "json"@.len() == 4 && "json"@[0] == 'j',
        "yaml"@.len() == 4 && "yaml"@[0] == 'y' && "yaml"@[1] == 'a',
        "yml"@.len() == 3 && "yml"@[0] == 'y' && "yml"@[1] == 'm',
        "toml"@.len() == 4 && "toml"@[0] == 't',
        "xml"@.len() == 3 && "xml"@[0] == 'x',
        "csv"@.len() == 3 && "csv"@[0] == 'c',
{
    reveal_strlit("json");
    reveal_strlit("yaml");
    reveal_strlit("yml");
    reveal_strlit("toml");
    reveal_strlit("xml");
    reveal_strlit("csv");
}

/// The supported format identifiers, after lower-casing; `yml` is accepted
/// deliberately as an alias for yaml.
pub open spec fn recognized_format(f: Seq<char>) -> bool {
    ||| f == "json"@
    ||| f == "yaml"@
    ||| f == "yml"@
    ||| f == "toml"@
    ||| f == "xml"@
    ||| f == "csv"@
}

/// What parsing `content` as `f` yields: `None` for an unrecognized format,
/// otherwise the backend's outcome, message included.
pub open spec fn parse_result_spec(content: Seq<char>, f: Seq<char>) -> Option<
    Result<ValView, Seq<char>>,
> {
    if f == "json"@ {
        Some(json_parse_spec(content))
    } else if f == "yaml"@ || f == "yml"@ {
        Some(yaml_parse_spec(content))
    } else if f == "toml"@ {
        Some(toml_parse_spec(content))
    } else if f == "xml"@ {
        Some(xml_parse_spec(content))
    } else if f == "csv"@ {
        Some(csv_parse_spec(content))
    } else {
        None
    }
}

/// Parses `content` under the declared format. An unrecognized identifier
/// fails with `UnsupportedFormat` naming it; a backend failure becomes
/// `FormatError` carrying the backend's message unchanged; a parsed value is
/// well-formed with canonical number text, and within the parser's nesting
/// budget on the JSON path.
pub fn parse_content(content: &str, format: &str) -> (r: Result<Val, DataError>)
    ensures
        match parse_result_spec(content@, lower_ascii(format@)) {
            None => r matches Err(DataError::UnsupportedFormat(g)) && g@ == format@,
            Some(p) => match r {
                Ok(v) => p == Ok::<ValView, Seq<char>>(v@) && v@.wf() && nums_canonical(v@),
                Err(e) => e matches DataError::FormatError(m) && p == Err::<ValView, Seq<char>>(
                    m@,
                ),
            },
        },
        lower_ascii(format@) == "json"@ ==> match r {
            Ok(v) => nest_le(v@, JSON_NEST_LIMIT as int),
            Err(_) => true,
        },
{
    proof {
        lemma_format_literals();
    }
    let outcome = if eq_ignore_case(format, "json") {
        parse_json(content)
    } else if eq_ignore_case(format, "yaml") || eq_ignore_case(format, "yml") {
        parse_yaml(content)
    } else if eq_ignore_case(format, "toml") {
        parse_toml(content)
    } else if eq_ignore_case(format, "xml") {
        parse_xml(content)
    } else if eq_ignore_case(format, "csv") {
        parse_csv(content)
    } else {
        return Err(DataError::UnsupportedFormat(String::from_str(format)));
    };
    match outcome {
        Ok(v) => Ok(v),
        Err(m) => Err(DataError::FormatError(m)),
    }
}

/// Serializes a well-formed value into the target format. An unrecognized
/// identifier fails with `UnsupportedFormat`; backend failures become
/// `FormatError`; the tabular path always succeeds. JSON output parses back
/// to the same value whenever it parses at all, and it does parse for values
/// within the parser's nesting budget.
pub fn serialize_value(value: &Val, format: &str) -> (r: Result<String, DataError>)
    requires
        value@.wf(),
    ensures
        ({
            let f = lower_ascii(format@);
            &&& f == "json"@ ==> match r {
                Ok(t) => {
                    &&& json_text_spec(value@) == Some(t@)
                    &&& nums_canonical(value@) ==> {
                        &&& (json_parse_spec(t@) matches Ok(p) ==> p == value@)
                        &&& (nest_le(value@, JSON_NEST_LIMIT as int) ==> json_parse_spec(t@)
                            == Ok::<ValView, Seq<char>>(value@))
                    }
                },
                Err(e) => json_text_spec(value@) is None && e matches DataError::FormatError(_),
            }
            &&& (f == "yaml"@ || f == "yml"@) ==> match r {
                Ok(t) => yaml_text_spec(value@) == Some(t@),
                Err(e) => yaml_text_spec(value@) is None && e matches DataError::FormatError(_),
            }
            &&& f == "toml"@ ==> match r {
                Ok(t) => toml_text_spec(value@) == Some(t@),
                Err(e) => toml_text_spec(value@) is None && e matches DataError::FormatError(_),
            }
            &&& f == "xml"@ ==> match r {
                Ok(t) => xml_text_spec(value@) == Some(t@),
                Err(e) => xml_text_spec(value@) is None && e matches DataError::FormatError(_),
            }
            &&& f == "csv"@ ==> (r matches Ok(t) && t@ == csv_text_of(records_spec(value@)))
            &&& !recognized_format(f) ==> (r matches Err(DataError::UnsupportedFormat(g)) && g@
                == format@)
        }),
{
    proof {
        lemma_format_literals();
    }
    let outcome = if eq_ignore_case(format, "json") {
        write_json(value)
    } else if eq_ignore_case(format, "yaml") || eq_ignore_case(format, "yml") {
        write_yaml(value)
    } else if eq_ignore_case(format, "toml") {
        write_toml(value)
    } else if eq_ignore_case(format, "xml") {
        write_xml(value)
    } else if eq_ignore_case(format, "csv") {
        return json_to_csv(value);
    } else {
        return Err(DataError::UnsupportedFormat(String::from_str(format)));
    };
    match outcome {
        Ok(t) => Ok(t),
        Err(m) => Err(DataError::FormatError(m)),
    }
}

/// Parses `content` from the source format and serializes the value into the
/// target format. The source is parsed first, so its errors come first and
/// propagate with the backend's message unchanged; the serialization contract
/// is that of `serialize_value`.
pub fn convert_format(content: &str, source_format: &str, target_format: &str) -> (r: Result<
    String,
    DataError,
>)
    ensures
        match parse_result_spec(content@, lower_ascii(source_format@)) {
            None => r matches Err(DataError::UnsupportedFormat(g)) && g@ == source_format@,
            Some(p) => match p {
                Err(m) => r matches Err(DataError::FormatError(m2)) && m2@ == m,
                Ok(v) => {
                    let f = lower_ascii(target_format@);
                    &&& nums_canonical(v)
                    &&& lower_ascii(source_format@) == "json"@ ==> nest_le(
                        v,
                        JSON_NEST_LIMIT as int,
                    )
                    &&& f == "json"@ ==> match r {
                        Ok(t) => {
                            &&& json_text_spec(v) == Some(t@)
                            &&& (json_parse_spec(t@) matches Ok(p2) ==> p2 == v)
                            &&& (nest_le(v, JSON_NEST_LIMIT as int) ==> json_parse_spec(t@)
                                == Ok::<ValView, Seq<char>>(v))
                        },
                        Err(e) => json_text_spec(v) is None && e matches DataError::FormatError(
                            _,
                        ),
                    }
                    &&& (f == "yaml"@ || f == "yml"@) ==> match r {
                        Ok(t) => yaml_text_spec(v) == Some(t@),
                        Err(e) => yaml_text_spec(v) is None && e matches DataError::FormatError(
                            _,
                        ),
                    }
                    &&& f == "toml"@ ==> match r {
                        Ok(t) => toml_text_spec(v) == Some(t@),
                        Err(e) => toml_text_spec(v) is None && e matches DataError::FormatError(
                            _,
                        ),
                    }
                    &&& f == "xml"@ ==> match r {
                        Ok(t) => xml_text_spec(v) == Some(t@),
                        Err(e) => xml_text_spec(v) is None && e matches DataError::FormatError(_),
                    }
                    &&& f == "csv"@ ==> (r matches Ok(t) && t@ == csv_text_of(records_spec(v)))
                    &&& !recognized_format(f) ==> (r matches Err(
                        DataError::UnsupportedFormat(g),
                    ) && g@ == target_format@)
                },
            },
        },
{
    proof {
        lemma_format_literals();
    }
    let value = match parse_content(content, source_format) {
        Ok(v) => v,
        Err(e) => {
            return Err(e);
        },
    };
    serialize_value(&value, target_format)
}

} // verus!
