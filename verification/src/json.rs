use vstd::prelude::*;

use crate::errors::CfhdbError;
use crate::strutil::str_eq;

verus! {

/// A catalog JSON document, modelled with plain library values so that the
/// normalization rules over it can be verified.
///
/// Numbers are kept only when they have an `i64` representation; any other
/// number is flattened to `Null` by the trusted parser, which leaves every
/// accessor below (string, array, boolean and integer reads) with the value
/// it would have seen anyway.
pub enum Json {
    Null,
    Bool(bool),
    Int(i64),
    Str(String),
    Arr(Vec<Json>),
    Obj(Vec<(String, Json)>),
}

/// The first binding of `key` among the pairs of an object, if any.
pub open spec fn spec_lookup(pairs: Seq<(String, Json)>, key: Seq<char>) -> Option<Json>
    decreases pairs.len(),
{
    if pairs.len() == 0 {
        None
    } else if pairs[0].0@ == key {
        Some(pairs[0].1)
    } else {
        spec_lookup(pairs.drop_first(), key)
    }
}

/// Indexing a document by key: a binding of an object, `None` for an absent
/// key or a non-object.
pub open spec fn spec_index(j: Json, key: Seq<char>) -> Option<Json> {
    match j {
        Json::Obj(pairs) => spec_lookup(pairs@, key),
        _ => None,
    }
}

/// The string at `key`, or `d` when the key is absent or not a string.
pub open spec fn spec_str_field_or(j: Json, key: Seq<char>, d: Seq<char>) -> Seq<char> {
    match spec_index(j, key) {
        Some(Json::Str(s)) => s@,
        _ => d,
    }
}

/// The boolean at `key`, defaulting to `false`.
pub open spec fn spec_bool_field(j: Json, key: Seq<char>) -> bool {
    match spec_index(j, key) {
        Some(Json::Bool(b)) => b,
        _ => false,
    }
}

/// The integer at `key`, defaulting to `0`.
pub open spec fn spec_int_field(j: Json, key: Seq<char>) -> i64 {
    match spec_index(j, key) {
        Some(Json::Int(n)) => n,
        _ => 0,
    }
}

/// An array element coerced to a string: non-strings become empty.
pub open spec fn spec_coerce_str(x: Json) -> Seq<char> {
    match x {
        Json::Str(s) => s@,
        _ => Seq::empty(),
    }
}

/// The list of strings at `key`: array elements coerced one by one, an empty
/// list when the key is absent or not an array.
pub open spec fn spec_str_list(j: Json, key: Seq<char>) -> Seq<Seq<char>> {
    match spec_index(j, key) {
        Some(Json::Arr(items)) => items@.map_values(|x: Json| spec_coerce_str(x)),
        _ => Seq::empty(),
    }
}

/// The localized description: the locale-qualified key wins when present and
/// non-empty, then the base key, then the empty string.
pub open spec fn spec_desc(j: Json, locale: Seq<char>) -> Seq<char> {
    let qualified = spec_index(j, "i18n_desc["@ + locale + "]"@);
    match qualified {
        Some(Json::Str(t)) => if t@.len() > 0 {
            t@
        } else {
            spec_str_field_or(j, "i18n_desc"@, Seq::empty())
        },
        _ => spec_str_field_or(j, "i18n_desc"@, Seq::empty()),
    }
}

/// The `packages` field: `None` stands for a corrupt shape; otherwise the
/// parsed optional package list.  A string value (an inline packages-as-shell
/// command) and an absent key both carry no package list; an array is the
/// list itself; any other shape is a schema violation.
pub open spec fn spec_packages(j: Json) -> Option<Option<Seq<Seq<char>>>> {
    match spec_index(j, "packages"@) {
        None => Some(None),
        Some(Json::Str(s)) => Some(None),
        Some(Json::Arr(items)) => Some(Some(items@.map_values(|x: Json| spec_coerce_str(x)))),
        Some(_) => None,
    }
}

/// An optional script fragment: the field read as a string with empty
/// default, with the sentinel string value meaning "no script".
pub open spec fn spec_script(j: Json, key: Seq<char>) -> Option<Seq<char>> {
    let v = spec_str_field_or(j, key, Seq::empty());
    if v == "Option::is_none"@ {
        None
    } else {
        Some(v)
    }
}

/// The items of the top-level `profiles` array, when the document is an
/// object carrying one; any other shape yields an empty catalog.
pub open spec fn spec_profiles_array(doc: Json) -> Option<Seq<Json>> {
    match spec_index(doc, "profiles"@) {
        Some(Json::Arr(items)) => Some(items@),
        _ => None,
    }
}

/// Whether every entry of a profiles array has a well-shaped `packages`
/// field; one violation corrupts the whole catalog.
pub open spec fn all_packages_ok(items: Seq<Json>) -> bool {
    forall|k: int| 0 <= k < items.len() ==> #[trigger] spec_packages(items[k]) is Some
}

impl Json {
    /// The top-level `profiles` array of a catalog document, if any.
    pub fn profiles_array(&self) -> (r: Option<&Vec<Json>>)
        ensures
            match r {
                Some(items) => spec_profiles_array(*self) == Some(items@),
                None => spec_profiles_array(*self) is None,
            },
    {
        match self.lookup("profiles") {
            Some(v) => match v {
                Json::Arr(items) => Some(items),
                _ => None,
            },
            None => None,
        }
    }

    /// First binding of `key` when this document is an object holding it.
    pub fn lookup<'a>(&'a self, key: &str) -> (r: Option<&'a Json>)
        ensures
            match r {
                Some(v) => spec_index(*self, key@) == Some(*v),
                None => spec_index(*self, key@) is None,
            },
    {
        match self {
            Json::Obj(pairs) => {
                proof {
                    assert(pairs@.skip(0) =~= pairs@);
                }
                let mut i: usize = 0;
                while i < pairs.len()
                    invariant
                        0 <= i <= pairs.len(),
                        spec_lookup(pairs@, key@) == spec_lookup(pairs@.skip(i as int), key@),
                    decreases pairs.len() - i,
                {
                    proof {
                        assert(pairs@.skip(i as int)[0] == pairs@[i as int]);
                    }
                    if str_eq(pairs[i].0.as_str(), key) {
                        proof {
                            assert(pairs@.skip(i as int).len() > 0);
                            assert(pairs@.skip(i as int)[0].0@ == key@);
                            assert(spec_lookup(pairs@.skip(i as int), key@)
                                == Some(pairs@[i as int].1));
                        }
                        return Some(&pairs[i].1);
                    }
                    proof {
                        assert(pairs@.skip(i as int).drop_first() =~= pairs@.skip(i as int + 1));
                    }
                    i += 1;
                }
                proof {
                    assert(pairs@.skip(pairs.len() as int).len() == 0);
                }
                None
            },
            _ => None,
        }
    }

    /// The string at `key`, or a copy of `default`.
    pub fn str_field_or(&self, key: &str, default: &str) -> (r: String)
        ensures
            r@ == spec_str_field_or(*self, key@, default@),
    {
        match self.lookup(key) {
            Some(v) => match v {
                Json::Str(s) => s.clone(),
                _ => default.to_owned(),
            },
            None => default.to_owned(),
        }
    }

    /// The string at `key`, or the empty string.
    pub fn str_field_or_empty(&self, key: &str) -> (r: String)
        ensures
            r@ == spec_str_field_or(*self, key@, Seq::empty()),
    {
        match self.lookup(key) {
            Some(v) => match v {
                Json::Str(s) => s.clone(),
                _ => String::new(),
            },
            None => String::new(),
        }
    }

    /// The boolean at `key`, defaulting to `false`.
    pub fn bool_field(&self, key: &str) -> (r: bool)
        ensures
            r == spec_bool_field(*self, key@),
    {
        match self.lookup(key) {
            Some(v) => match v {
                Json::Bool(b) => *b,
                _ => false,
            },
            None => false,
        }
    }

    /// The integer at `key`, defaulting to `0`.
    pub fn int_field(&self, key: &str) -> (r: i64)
        ensures
            r == spec_int_field(*self, key@),
    {
        match self.lookup(key) {
            Some(v) => match v {
                Json::Int(n) => *n,
                _ => 0,
            },
            None => 0,
        }
    }

    /// The list of strings at `key` with element coercion.
    pub fn str_list_field(&self, key: &str) -> (r: Vec<String>)
        ensures
            r.deep_view() == spec_str_list(*self, key@),
    {
        match self.lookup(key) {
            Some(v) => match v {
                Json::Arr(items) => {
                    let r = coerce_str_items(items);
                    proof {
                        assert(r.deep_view() =~= spec_str_list(*self, key@));
                    }
                    r
                },
                _ => {
                    let r: Vec<String> = Vec::new();
                    proof {
                        assert(r.deep_view() =~= spec_str_list(*self, key@));
                    }
                    r
                },
            },
            None => {
                let r: Vec<String> = Vec::new();
                proof {
                    assert(r.deep_view() =~= spec_str_list(*self, key@));
                }
                r
            },
        }
    }

    /// The localized description with the locale-then-base fallback order.
    pub fn desc_field(&self, locale: &str) -> (r: String)
        ensures
            r@ == spec_desc(*self, locale@),
    {
        let mut qualified_key = String::from_str("i18n_desc[");
        qualified_key.append(locale);
        qualified_key.append("]");
        match self.lookup(qualified_key.as_str()) {
            Some(v) => match v {
                Json::Str(t) => {
                    if !t.as_str().is_empty() {
                        t.clone()
                    } else {
                        self.str_field_or_empty("i18n_desc")
                    }
                },
                _ => self.str_field_or_empty("i18n_desc"),
            },
            None => self.str_field_or_empty("i18n_desc"),
        }
    }

    /// The optional package list, or the corrupt-catalog error on a
    /// packages field that is neither a string nor an array.
    pub fn packages_field(&self) -> (r: Result<Option<Vec<String>>, CfhdbError>)
        ensures
            match r {
                Ok(p) => spec_packages(*self) == Some(p.deep_view()),
                Err(e) => spec_packages(*self) is None && e == CfhdbError::CatalogCorrupt,
            },
    {
        match self.lookup("packages") {
            None => Ok(None),
            Some(v) => match v {
                Json::Str(_) => Ok(None),
                Json::Arr(items) => Ok(Some(coerce_str_items(items))),
                _ => Err(CfhdbError::CatalogCorrupt),
            },
        }
    }

    /// The optional script fragment at `key`, decoding the sentinel.
    pub fn script_field(&self, key: &str) -> (r: Option<String>)
        ensures
            r.deep_view() == spec_script(*self, key@),
    {
        let v = self.str_field_or_empty(key);
        if str_eq(v.as_str(), "Option::is_none") {
            None
        } else {
            Some(v)
        }
    }
}

/// Copies an array of documents into strings, coercing each element.
fn coerce_str_items(items: &Vec<Json>) -> (r: Vec<String>)
    ensures
        r.deep_view() == items@.map_values(|x: Json| spec_coerce_str(x)),
{
    let mut out: Vec<String> = Vec::new();
    let mut i: usize = 0;
    while i < items.len()
        invariant
            0 <= i <= items.len(),
            out@.len() == i,
            forall|j: int| 0 <= j < i ==> #[trigger] out@[j]@ == spec_coerce_str(items@[j]),
        decreases items.len() - i,
    {
        let x: String = match &items[i] {
            Json::Str(s) => s.clone(),
            _ => String::new(),
        };
        proof {
            assert(x@ == spec_coerce_str(items@[i as int]));
        }
        out.push(x);
        i += 1;
    }
    proof {
        assert(out.deep_view() =~= items@.map_values(|x: Json| spec_coerce_str(x)));
    }
    out
}

/// What the catalog parser turns a JSON text into: `None` for invalid JSON,
/// otherwise the document tree.  The result depends on the text alone.
pub uninterp spec fn json_of(s: Seq<char>) -> Option<Json>;

#[verifier::external_type_specification]
#[verifier::external_body]
pub struct ExValue(serde_json::Value);

/// Trusted structural copy of a parsed `serde_json` tree into the library's
/// document model: one arm per `serde_json::Value` variant, with numbers
/// outside the `i64` range flattened to null.
#[verifier::external_body]
fn value_to_json(v: serde_json::Value) -> Json {
    match v {
        serde_json::Value::Null => Json::Null,
        serde_json::Value::Bool(b) => Json::Bool(b),
        serde_json::Value::Number(n) => match n.as_i64() {
            Some(i) => Json::Int(i),
            None => Json::Null,
        },
        serde_json::Value::String(s) => Json::Str(s),
        serde_json::Value::Array(a) => Json::Arr(a.into_iter().map(value_to_json).collect()),
        serde_json::Value::Object(o) => Json::Obj(
            o.into_iter().map(|(k, x)| (k, value_to_json(x))).collect(),
        ),
    }
}

/// Relies on `serde_json::from_str::<serde_json::Value>`: parses a JSON text,
/// returning `None` exactly when the text is not valid JSON.  The parse is a
/// function of the text alone, named by [`json_of`].
#[verifier::external_body]
pub fn parse_json(s: &str) -> (r: Option<Json>)
    ensures
        r == json_of(s@),
{
    serde_json::from_str::<serde_json::Value>(s).ok().map(value_to_json)
}

} // verus!
