use vstd::prelude::*;

verus! {

// ---------------------------------------------------------------------------
// The boundary to the TOML parser.
//
// Task definition files are TOML text. The text is handed to the `toml`
// crate, which turns it into a document table; the schema rules of this
// library are then applied to that table by verified code. The document
// table is kept opaque; what the schema rules read of a table entry is
// modelled by `FieldModel`, and the contents of a table by `table_fields`.
// ---------------------------------------------------------------------------

#[verifier::external_type_specification]
#[verifier::external_body]
#[verifier::reject_recursive_types(K)]
#[verifier::reject_recursive_types(V)]
pub struct ExTomlMap<K, V>(toml::map::Map<K, V>);

#[verifier::external_type_specification]
#[verifier::external_body]
pub struct ExTomlValue(toml::Value);

/// What the schema rules can read of one table entry: a string, an array
/// whose elements are all strings, a nested table whose values are all
/// strings, or something of any other shape.
pub enum FieldModel {
    Str(Seq<char>),
    StrList(Seq<Seq<char>>),
    StrPairs(Seq<(Seq<char>, Seq<char>)>),
    Other,
}

/// The string held by a `Str` entry.
pub open spec fn fm_str(m: FieldModel) -> Seq<char> {
    match m {
        FieldModel::Str(s) => s,
        _ => Seq::empty(),
    }
}

/// The strings held by a `StrList` entry.
pub open spec fn fm_list(m: FieldModel) -> Seq<Seq<char>> {
    match m {
        FieldModel::StrList(l) => l,
        _ => Seq::empty(),
    }
}

/// The key/value pairs held by a `StrPairs` entry, in the table's iteration
/// order.
pub open spec fn fm_pairs(m: FieldModel) -> Seq<(Seq<char>, Seq<char>)> {
    match m {
        FieldModel::StrPairs(p) => p,
        _ => Seq::empty(),
    }
}

/// What a parsed document table holds, keyed by the entry names.
pub uninterp spec fn table_fields(t: toml::map::Map<String, toml::Value>) -> Map<
    Seq<char>,
    FieldModel,
>;

/// What parsing TOML text yields: the contents of the document table, or the
/// parser's diagnostic message. The `toml` crate's parse is a function of the
/// text alone, so repeated parses of identical text agree.
pub uninterp spec fn toml_table_of(s: Seq<char>) -> Result<Map<Seq<char>, FieldModel>, Seq<char>>;

/// Relies on `toml::from_str::<toml::Table>`: parses TOML text into a
/// document table, rejecting syntactically malformed text (including
/// duplicate keys) with a diagnostic message.
#[verifier::external_body]
pub(crate) fn parse_toml_table(s: &str) -> (r: Result<toml::map::Map<String, toml::Value>, String>)
    ensures
        r is Ok <==> toml_table_of(s@) is Ok,
        r matches Ok(t) ==> table_fields(t) == toml_table_of(s@)->Ok_0,
        r matches Err(m) ==> m@ == toml_table_of(s@)->Err_0,
{
    toml::from_str::<toml::Table>(s).map_err(|e| e.to_string())
}

/// Relies on `toml::map::Map::get` and `toml::Value::as_str`: looks an entry
/// up by name and hands its string contents out. `None`: no such entry;
/// `Some(None)`: the entry is not a string.
#[verifier::external_body]
pub(crate) fn table_get_str(t: &toml::map::Map<String, toml::Value>, key: &str) -> (r: Option<
    Option<String>,
>)
    ensures
        r is Some <==> table_fields(*t).contains_key(key@),
        r matches Some(v) ==> (v is Some <==> table_fields(*t)[key@] is Str),
        r matches Some(v) ==> (v matches Some(s) ==> s@ == fm_str(table_fields(*t)[key@])),
{
    match t.get(key) {
        None => None,
        Some(v) => Some(v.as_str().map(|s| s.to_owned())),
    }
}

/// Relies on `toml::map::Map::get`, `toml::Value::as_array` and
/// `toml::Value::as_str`: looks an entry up by name and hands its strings
/// out in array order. `None`: no such entry; `Some(None)`: the entry is not
/// an array of strings.
#[verifier::external_body]
pub(crate) fn table_get_str_list(t: &toml::map::Map<String, toml::Value>, key: &str) -> (r: Option<
    Option<Vec<String>>,
>)
    ensures
        r is Some <==> table_fields(*t).contains_key(key@),
        r matches Some(v) ==> (v is Some <==> table_fields(*t)[key@] is StrList),
        r matches Some(v) ==> (v matches Some(items) ==> items.deep_view() == fm_list(
            table_fields(*t)[key@],
        )),
{
    match t.get(key) {
        None => None,
        Some(v) => Some(v.as_array().and_then(|a| {
            a.iter().map(|e| e.as_str().map(|s| s.to_owned())).collect::<Option<Vec<String>>>()
        })),
    }
}

/// Relies on `toml::map::Map::get`, `toml::Value::as_table`,
/// `toml::map::Map::iter` and `toml::Value::as_str`: looks an entry up by
/// name and hands its key/value pairs out in the table's iteration order.
/// `None`: no such entry; `Some(None)`: the entry is not a table of string
/// values. The keys are pairwise distinct: a table maps each key once, and
/// its iteration visits each key once.
#[verifier::external_body]
pub(crate) fn table_get_str_pairs(t: &toml::map::Map<String, toml::Value>, key: &str) -> (r: Option<
    Option<Vec<(String, String)>>,
>)
    ensures
        r is Some <==> table_fields(*t).contains_key(key@),
        r matches Some(v) ==> (v is Some <==> table_fields(*t)[key@] is StrPairs),
        r matches Some(v) ==> (v matches Some(pairs) ==> pairs.deep_view() == fm_pairs(
            table_fields(*t)[key@],
        )),
        r matches Some(v) ==> (v matches Some(pairs) ==> (forall|p: int, q: int|
            0 <= p < q < pairs.deep_view().len() ==> pairs.deep_view()[p].0
                != pairs.deep_view()[q].0)),
{
    match t.get(key) {
        None => None,
        Some(v) => Some(v.as_table().and_then(|m| {
            m.iter().map(|(k, e)| e.as_str().map(|s| (k.clone(), s.to_owned()))).collect::<Option<
                Vec<(String, String)>,
            >>()
        })),
    }
}

} // verus!
