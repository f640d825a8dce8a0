//! Decoding of the remote catalog's metadata: the latest release tag and the
//! list of installable font package names. The JSON parsing itself is done by
//! serde_json behind trusted wrappers; the extraction logic around it is
//! verified.

use vstd::prelude::*;
use vstd::string::*;

use crate::FontError;

verus! {

#[verifier::external_type_specification]
#[verifier::external_body]
pub struct ExValue(serde_json::Value);

#[verifier::external_type_specification]
#[verifier::external_body]
pub struct ExJsonError(serde_json::Error);

/// Whether a text is well-formed JSON, as serde_json's parser decides it.
pub uninterp spec fn json_wf(s: Seq<char>) -> bool;

/// The document serde_json's parser reads out of a well-formed text.
pub uninterp spec fn json_doc_of(s: Seq<char>) -> serde_json::Value;

/// The member a JSON value holds under a key, as serde_json's lookup decides
/// it: None when the value is no object or has no such member.
pub uninterp spec fn json_member_of(v: serde_json::Value, key: Seq<char>) -> Option<
    serde_json::Value,
>;

/// The text of a JSON string value: None when the value is none.
pub uninterp spec fn json_str_of(v: serde_json::Value) -> Option<Seq<char>>;

/// The elements of a JSON array value: None when the value is no array.
pub uninterp spec fn json_arr_of(v: serde_json::Value) -> Option<Seq<serde_json::Value>>;

/// Relies on serde_json::from_str for Value: it succeeds exactly on
/// well-formed JSON, and document and outcome depend on the text alone.
#[verifier::external_body]
fn parse_json(s: &str) -> (r: Result<serde_json::Value, serde_json::Error>)
    ensures
        (r matches Ok(_)) <==> json_wf(s@),
        r matches Ok(v) ==> v == json_doc_of(s@),
{
    serde_json::from_str(s)
}

/// Relies on serde_json::Value::get: the member of a JSON object under the
/// given key, a function of the value and the key alone.
#[verifier::external_body]
fn json_member<'a>(v: &'a serde_json::Value, key: &str) -> (r: Option<&'a serde_json::Value>)
    ensures
        r matches Some(m) ==> json_member_of(*v, key@) == Some(*m),
        r is None ==> json_member_of(*v, key@) is None,
{
    v.get(key)
}

/// Relies on serde_json::Value::as_str: the text of a JSON string value, a
/// function of the value alone.
#[verifier::external_body]
fn json_as_string(v: &serde_json::Value) -> (r: Option<String>)
    ensures
        r matches Some(s) ==> json_str_of(*v) == Some(s@),
        r is None ==> json_str_of(*v) is None,
{
    match v.as_str() {
        Some(s) => Some(s.to_owned()),
        None => None,
    }
}

/// Relies on serde_json::Value::as_array: the elements of a JSON array, a
/// function of the value alone.
#[verifier::external_body]
fn json_as_array<'a>(v: &'a serde_json::Value) -> (r: Option<&'a Vec<serde_json::Value>>)
    ensures
        r matches Some(a) ==> json_arr_of(*v) == Some(a@),
        r is None ==> json_arr_of(*v) is None,
{
    v.as_array()
}

/// The latest release tag a metadata text carries: the string member under
/// `tag_name` of the parsed document, or None when the text does not parse,
/// the member is absent, or the member is no string.
pub open spec fn spec_tag_of(s: Seq<char>) -> Option<Seq<char>> {
    if !json_wf(s) {
        None
    } else {
        match json_member_of(json_doc_of(s), "tag_name"@) {
            Some(m) => json_str_of(m),
            None => None,
        }
    }
}

/// What the release-metadata decoder returns for each possible outcome of the
/// member lookup: the tag's text when the member was a string, and a parse
/// error when it was absent or no string.
pub fn tag_from_member(m: Option<String>) -> (r: Result<String, FontError>)
    ensures
        m matches Some(s) ==> r matches Ok(t) && t@ == s@,
        m is None ==> r matches Err(FontError::Parse(_)),
{
    match m {
        Some(s) => Ok(s),
        None => Err(FontError::Parse("the release metadata has no tag field".to_owned())),
    }
}

/// Extract the latest release tag out of the release-metadata document: the
/// string member under `tag_name`. Malformed JSON, a missing member or a
/// non-string member all surface as a parse error.
pub fn latest_release_version(body: &str) -> (r: Result<String, FontError>)
    ensures
        spec_tag_of(body@) matches Some(t) ==> r matches Ok(res) && res@ == t,
        spec_tag_of(body@) is None ==> r matches Err(FontError::Parse(_)),
{
    let v = match parse_json(body) {
        Ok(v) => v,
        Err(_) => {
            return Err(FontError::Parse("the release metadata is not valid JSON".to_owned()));
        },
    };
    let tag = match json_member(&v, "tag_name") {
        Some(t) => json_as_string(t),
        None => None,
    };
    tag_from_member(tag)
}

/// The elements of the catalog document an API response text carries, or
/// None when the text does not parse or the document is no array.
pub open spec fn spec_catalog_arr(s: Seq<char>) -> Option<Seq<serde_json::Value>> {
    if !json_wf(s) {
        None
    } else {
        json_arr_of(json_doc_of(s))
    }
}

/// The name one catalog entry carries: its string member under `name`.
pub open spec fn spec_entry_name(v: serde_json::Value) -> Option<Seq<char>> {
    match json_member_of(v, "name"@) {
        Some(m) => json_str_of(m),
        None => None,
    }
}

/// Whether a response text is a decodable catalog: an array whose every
/// element carries a string name.
pub open spec fn spec_catalog_ok(s: Seq<char>) -> bool {
    match spec_catalog_arr(s) {
        Some(elems) => forall|i: int|
            0 <= i < elems.len() ==> spec_entry_name(#[trigger] elems[i]) is Some,
        None => false,
    }
}

/// Whether `names` is the catalog a response text carries: one name per
/// array element, in response order.
pub open spec fn spec_catalog_names(s: Seq<char>, names: Seq<Seq<char>>) -> bool {
    match spec_catalog_arr(s) {
        Some(elems) => names.len() == elems.len() && forall|i: int|
            0 <= i < elems.len() ==> spec_entry_name(#[trigger] elems[i]) == Some(names[i]),
        None => false,
    }
}

/// What the catalog decoder returns for each possible outcome of the
/// per-entry name lookups: the names in entry order when every entry had a
/// string name, and a parse error as soon as one had none.
pub fn collect_names(entries: Vec<Option<String>>) -> (r: Result<Vec<String>, FontError>)
    ensures
        (forall|i: int| 0 <= i < entries@.len() ==> entries@[i] is Some) ==> (r matches Ok(v)
            && v@.len() == entries@.len() && (forall|i: int|
            0 <= i < entries@.len() ==> (#[trigger] entries@[i] matches Some(s) ==> v@[i]@
                == s@))),
        (exists|i: int| 0 <= i < entries@.len() && entries@[i] is None) ==> r matches Err(
            FontError::Parse(_),
        ),
{
    let mut names: Vec<String> = Vec::new();
    let mut i: usize = 0;
    while i < entries.len()
        invariant
            0 <= i <= entries@.len(),
            names@.len() == i,
            forall|j: int| 0 <= j < i ==> entries@[j] is Some,
            forall|j: int|
                0 <= j < i ==> (#[trigger] entries@[j] matches Some(s) ==> names@[j]@ == s@),
        decreases entries@.len() - i,
    {
        match &entries[i] {
            Some(s) => names.push(s.clone()),
            None => {
                return Err(FontError::Parse("a catalog entry has no name field".to_owned()));
            },
        }
        i += 1;
    }
    Ok(names)
}

/// Extract the catalog out of the patched-fonts listing: the string member
/// under `name` of every entry of the array, in response order. Malformed
/// JSON, a non-array document or a nameless entry all surface as a parse
/// error.
pub fn list_remote_fonts(body: &str) -> (r: Result<Vec<String>, FontError>)
    ensures
        spec_catalog_ok(body@) ==> (r matches Ok(names) && spec_catalog_names(
            body@,
            names.deep_view(),
        )),
        !spec_catalog_ok(body@) ==> r matches Err(FontError::Parse(_)),
{
    let v = match parse_json(body) {
        Ok(v) => v,
        Err(_) => {
            return Err(FontError::Parse("the catalog response is not valid JSON".to_owned()));
        },
    };
    let arr = match json_as_array(&v) {
        Some(a) => a,
        None => {
            return Err(FontError::Parse("the catalog response is not a JSON array".to_owned()));
        },
    };
    let mut entries: Vec<Option<String>> = Vec::new();
    let mut i: usize = 0;
    while i < arr.len()
        invariant
            0 <= i <= arr@.len(),
            entries@.len() == i,
            spec_catalog_arr(body@) == Some(arr@),
            forall|j: int|
                0 <= j < i ==> (#[trigger] entries@[j] matches Some(s) ==> spec_entry_name(arr@[j])
                    == Some(s@)),
            forall|j: int|
                0 <= j < i ==> (entries@[j] is None ==> (#[trigger] spec_entry_name(arr@[j]))
                    is None),
        decreases arr@.len() - i,
    {
        let nm = match json_member(&arr[i], "name") {
            Some(x) => json_as_string(x),
            None => None,
        };
        entries.push(nm);
        i += 1;
    }
    let ghost ents = entries@;
    let r = collect_names(entries);
    match r {
        Ok(names) => {
            proof {
                assert forall|j: int| 0 <= j < ents.len() implies (#[trigger] ents[j]) is Some by {
                    if ents[j] is None {
                        assert(spec_entry_name(arr@[j]) is None);
                    }
                }
                assert forall|j: int|
                    0 <= j < arr@.len() implies (#[trigger] spec_entry_name(arr@[j])) == Some(
                    names.deep_view()[j],
                ) by {
                    match ents[j] {
                        Some(s) => {
                            assert(names@[j]@ == s@);
                            assert(names.deep_view()[j] == names@[j]@);
                        },
                        None => {
                            assert(false);
                        },
                    }
                }
                assert(spec_catalog_ok(body@));
                assert(names.deep_view().len() == arr@.len());
                assert(spec_catalog_names(body@, names.deep_view()));
            }
            Ok(names)
        },
        Err(e) => {
            proof {
                if spec_catalog_ok(body@) {
                    assert forall|j: int|
                        0 <= j < ents.len() implies (#[trigger] ents[j]) is Some by {
                        if ents[j] is None {
                            assert(spec_entry_name(arr@[j]) is None);
                            assert(spec_entry_name(arr@[j]) is Some);
                        }
                    }
                    assert(false);
                }
            }
            Err(e)
        },
    }
}

} // verus!
