//! The metadata a container must present before it counts as a detector.
//!
//! The handshake asks the container for its description; a detector is only
//! accepted when the answer is a well-formed metadata object.

use vstd::prelude::*;
use vstd::string::StringExecFns;

use crate::json;
use crate::json::{Json, JsonSpec};
use crate::text;

verus! {

/// The kind of estimate a detector announces it will produce.
#[derive(Debug, Clone, Copy, PartialEq, Eq, Structural)]
pub enum OutputType {
    Point,
    Ellipse,
    Mask,
}

/// The self-description of a detector image.
#[derive(Debug, Clone, PartialEq, Eq)]
pub struct MetaData {
    pub name: String,
    pub additional_information: String,
    pub authors: Vec<String>,
    pub license: String,
    pub prediction: OutputType,
}

/// Why a metadata handshake failed.
#[derive(Debug, Clone, PartialEq, Eq)]
pub enum Error {
    /// The request itself could not be exchanged.
    ConnectionFailed,
    /// The container answered with a status other than success; carries the
    /// status and the response text.
    RequestFailed(u16, String),
    /// The body of a successful answer does not describe a detector.
    InvalidPayload(String),
}

// Metadata member keys as byte sequences.
pub open spec fn key_name() -> Seq<u8> {
    seq![110u8, 97u8, 109u8, 101u8]
}

pub open spec fn key_additional_information() -> Seq<u8> {
    seq![
        97u8, 100u8, 100u8, 105u8, 116u8, 105u8, 111u8, 110u8, 97u8, 108u8, 95u8, 105u8, 110u8,
        102u8, 111u8, 114u8, 109u8, 97u8, 116u8, 105u8, 111u8, 110u8,
    ]
}

pub open spec fn key_authors() -> Seq<u8> {
    seq![97u8, 117u8, 116u8, 104u8, 111u8, 114u8, 115u8]
}

pub open spec fn key_license() -> Seq<u8> {
    seq![108u8, 105u8, 99u8, 101u8, 110u8, 115u8, 101u8]
}

pub open spec fn key_prediction() -> Seq<u8> {
    seq![112u8, 114u8, 101u8, 100u8, 105u8, 99u8, 116u8, 105u8, 111u8, 110u8]
}

pub open spec fn tag_mask() -> Seq<u8> {
    seq![77u8, 97u8, 115u8, 107u8]
}

/// The member named `key` as string bytes.
pub open spec fn spec_get_str(ms: Seq<(Seq<u8>, JsonSpec)>, key: Seq<u8>) -> Option<Seq<u8>> {
    match json::spec_obj_get(ms, key) {
        Some(JsonSpec::Str(s)) => Some(s),
        _ => None,
    }
}

/// The authors array as string bytes, from position `i` on; fails when an
/// element is not a string.
pub open spec fn spec_author_list(els: Seq<JsonSpec>, i: int) -> Option<Seq<Seq<u8>>>
    decreases els.len() - i,
{
    if !(0 <= i <= els.len()) {
        None
    } else if i == els.len() {
        Some(Seq::empty())
    } else {
        match els[i] {
            JsonSpec::Str(s) => match spec_author_list(els, i + 1) {
                Some(rest) => Some(seq![s] + rest),
                None => None,
            },
            _ => None,
        }
    }
}

/// The announced output type, read from the `prediction` member.
pub open spec fn spec_output_type(t: Seq<u8>) -> Option<OutputType> {
    if t == crate::estimate::tag_point() {
        Some(OutputType::Point)
    } else if t == crate::estimate::tag_ellipse() {
        Some(OutputType::Ellipse)
    } else if t == tag_mask() {
        Some(OutputType::Mask)
    } else {
        None
    }
}

/// The raw fields of a metadata object: name, additional information,
/// authors, license and output type. `None` when the value is not a
/// well-formed metadata object.
pub open spec fn spec_meta_fields(v: JsonSpec) -> Option<
    (Seq<u8>, Seq<u8>, Seq<Seq<u8>>, Seq<u8>, OutputType),
> {
    match v {
        JsonSpec::Obj(ms) => match (spec_get_str(ms, key_name()), spec_get_str(
            ms,
            key_additional_information(),
        ), json::spec_obj_get(ms, key_authors()), spec_get_str(ms, key_license()), spec_get_str(
            ms,
            key_prediction(),
        )) {
            (Some(n), Some(ai), Some(JsonSpec::Arr(als)), Some(li), Some(pr)) => match (
                spec_author_list(als, 0),
                spec_output_type(pr),
            ) {
                (Some(authors), Some(output)) => Some((n, ai, authors, li, output)),
                _ => None,
            },
            _ => None,
        },
        _ => None,
    }
}

/// The description used when a successful answer does not parse as a
/// metadata object.
pub open spec fn invalid_payload_text() -> Seq<char> {
    "response is not a metadata object"@
}

impl MetaData {
    /// Reads the metadata out of the handshake response: a success status
    /// whose body is a metadata object yields the metadata; any other status
    /// is reported with its response text, and a success whose body is
    /// malformed is an invalid payload.
    pub fn from_response(status: u16, body: Vec<u8>) -> (r: Result<MetaData, Error>)
        ensures
            status != 200 && text::utf8_valid(body@) ==> (r matches Err(
                Error::RequestFailed(s, m),
            ) && s == status && m@ == text::utf8_chars(body@)),
            status != 200 && !text::utf8_valid(body@) ==> (r matches Err(
                Error::RequestFailed(s, m),
            ) && s == status && m@ == "<Invalid error message>"@),
            status == 200 && spec_decoded_meta(body@) is None ==> (r matches Err(
                Error::InvalidPayload(m),
            ) && m@ == invalid_payload_text()),
            status == 200 && spec_decoded_meta(body@) is Some ==> (if meta_fields_valid(
                spec_decoded_meta(body@)->Some_0,
            ) {
                r matches Ok(m) && meta_matches(m, spec_decoded_meta(body@)->Some_0)
            } else {
                r matches Err(e) && (e matches Error::InvalidPayload(msg) && msg@
                    == invalid_payload_text())
            }),
    {
        if status != 200 {
            let msg = match text::utf8_string(&body) {
                Some(m) => m,
                None => {
                    let m = "<Invalid error message>".to_owned();
                    m
                },
            };
            return Err(Error::RequestFailed(status, msg));
        }
        let parsed = match json::parse_json(body.as_slice()) {
            Some(v) => v,
            None => {
                return Err(Error::InvalidPayload("response is not a metadata object".to_owned()));
            },
        };
        match meta_from_json(&parsed) {
            Some(m) => Ok(m),
            None => Err(Error::InvalidPayload("response is not a metadata object".to_owned())),
        }
    }
}

/// Holds when every raw text field of the metadata is valid text: the
/// condition under which the handshake is owed success.
pub open spec fn meta_fields_valid(
    fields: (Seq<u8>, Seq<u8>, Seq<Seq<u8>>, Seq<u8>, OutputType),
) -> bool {
    &&& text::utf8_valid(fields.0)
    &&& text::utf8_valid(fields.1)
    &&& forall|i: int| 0 <= i < fields.2.len() ==> text::utf8_valid(#[trigger] fields.2[i])
    &&& text::utf8_valid(fields.3)
}

/// Holds when the decoded metadata corresponds to the raw fields: each text
/// field is the decoded form of its bytes.
pub open spec fn meta_matches(
    m: MetaData,
    fields: (Seq<u8>, Seq<u8>, Seq<Seq<u8>>, Seq<u8>, OutputType),
) -> bool {
    &&& m.name@ == text::utf8_chars(fields.0)
    &&& m.additional_information@ == text::utf8_chars(fields.1)
    &&& m.authors.deep_view().len() == fields.2.len()
    &&& forall|i: int|
        0 <= i < fields.2.len() ==> m.authors.deep_view()[i] == text::utf8_chars(fields.2[i])
    &&& m.license@ == text::utf8_chars(fields.3)
    &&& m.prediction == fields.4
}

/// The raw metadata fields of a whole response body.
pub open spec fn spec_decoded_meta(bytes: Seq<u8>) -> Option<
    (Seq<u8>, Seq<u8>, Seq<Seq<u8>>, Seq<u8>, OutputType),
> {
    match json::spec_parse_json(bytes) {
        Some(v) => spec_meta_fields(v),
        None => None,
    }
}

fn get_str_bytes<'a>(ms: &'a Vec<(Vec<u8>, Json)>, key: &[u8]) -> (r: Option<&'a Vec<u8>>)
    ensures
        match r {
            None => spec_get_str(json::json_view_members(ms@, 0), key@) is None,
            Some(s) => spec_get_str(json::json_view_members(ms@, 0), key@) == Some(s@),
        },
{
    match json::obj_get(ms, key) {
        Some(Json::Str(s)) => Some(s),
        _ => None,
    }
}

/// Reads the metadata out of a parsed JSON value; `None` when a member is
/// missing, of the wrong shape, or not valid text.
fn meta_from_json(v: &Json) -> (r: Option<MetaData>)
    ensures
        spec_meta_fields(v@) is None ==> r is None,
        spec_meta_fields(v@) matches Some(fields) ==> (if meta_fields_valid(fields) {
            r matches Some(m) && meta_matches(m, fields)
        } else {
            r is None
        }),
{
    let ms = match v {
        Json::Obj(ms) => ms,
        _ => {
            return None;
        },
    };
    let name_key = {
        let k = vec![110u8, 97u8, 109u8, 101u8];
        proof {
            assert(k@ =~= key_name());
        }
        k
    };
    let ai_key = {
        let k = vec![
            97u8, 100u8, 100u8, 105u8, 116u8, 105u8, 111u8, 110u8, 97u8, 108u8, 95u8, 105u8,
            110u8, 102u8, 111u8, 114u8, 109u8, 97u8, 116u8, 105u8, 111u8, 110u8,
        ];
        proof {
            assert(k@ =~= key_additional_information());
        }
        k
    };
    let authors_key = {
        let k = vec![97u8, 117u8, 116u8, 104u8, 111u8, 114u8, 115u8];
        proof {
            assert(k@ =~= key_authors());
        }
        k
    };
    let license_key = {
        let k = vec![108u8, 105u8, 99u8, 101u8, 110u8, 115u8, 101u8];
        proof {
            assert(k@ =~= key_license());
        }
        k
    };
    let prediction_key = {
        let k = vec![112u8, 114u8, 101u8, 100u8, 105u8, 99u8, 116u8, 105u8, 111u8, 110u8];
        proof {
            assert(k@ =~= key_prediction());
        }
        k
    };
    let name_bytes = match get_str_bytes(ms, name_key.as_slice()) {
        Some(s) => s,
        None => {
            return None;
        },
    };
    let ai_bytes = match get_str_bytes(ms, ai_key.as_slice()) {
        Some(s) => s,
        None => {
            return None;
        },
    };
    let authors_arr = match json::obj_get(ms, authors_key.as_slice()) {
        Some(Json::Arr(els)) => els,
        _ => {
            return None;
        },
    };
    let license_bytes = match get_str_bytes(ms, license_key.as_slice()) {
        Some(s) => s,
        None => {
            return None;
        },
    };
    let prediction_bytes = match get_str_bytes(ms, prediction_key.as_slice()) {
        Some(s) => s,
        None => {
            return None;
        },
    };
    let prediction = {
        let point_tag = vec![80u8, 111u8, 105u8, 110u8, 116u8];
        let ellipse_tag = vec![69u8, 108u8, 108u8, 105u8, 112u8, 115u8, 101u8];
        let mask_tag = vec![77u8, 97u8, 115u8, 107u8];
        proof {
            assert(point_tag@ =~= crate::estimate::tag_point());
            assert(ellipse_tag@ =~= crate::estimate::tag_ellipse());
            assert(mask_tag@ =~= tag_mask());
        }
        if json::bytes_eq(prediction_bytes.as_slice(), point_tag.as_slice()) {
            OutputType::Point
        } else if json::bytes_eq(prediction_bytes.as_slice(), ellipse_tag.as_slice()) {
            OutputType::Ellipse
        } else if json::bytes_eq(prediction_bytes.as_slice(), mask_tag.as_slice()) {
            OutputType::Mask
        } else {
            return None;
        }
    };
    let ghost author_bytes = spec_author_list(json::json_view_elems(authors_arr@, 0), 0);
    let authors = match authors_from_arr(authors_arr) {
        Some(a) => a,
        None => {
            proof {
                if spec_meta_fields(v@) is Some {
                    let fields = spec_meta_fields(v@)->Some_0;
                    assert(fields.2 == author_bytes->Some_0);
                    assert(!meta_fields_valid(fields));
                }
            }
            return None;
        },
    };
    let name = match text::utf8_string(name_bytes) {
        Some(s) => s,
        None => {
            return None;
        },
    };
    let additional_information = match text::utf8_string(ai_bytes) {
        Some(s) => s,
        None => {
            return None;
        },
    };
    let license = match text::utf8_string(license_bytes) {
        Some(s) => s,
        None => {
            return None;
        },
    };
    Some(MetaData { name, additional_information, authors, license, prediction })
}

/// Decodes every element of the authors array as text.
fn authors_from_arr(els: &Vec<Json>) -> (r: Option<Vec<String>>)
    ensures
        match spec_author_list(json::json_view_elems(els@, 0), 0) {
            Some(bs) => if forall|i: int|
                0 <= i < bs.len() ==> text::utf8_valid(#[trigger] bs[i]) {
                r matches Some(a) && a.deep_view().len() == bs.len() && forall|i: int|
                    0 <= i < bs.len() ==> a.deep_view()[i] == text::utf8_chars(bs[i])
            } else {
                r is None
            },
            None => r is None,
        },
{
    proof {
        json::lemma_json_view_elems(els@, 0);
    }
    let ghost vels = json::json_view_elems(els@, 0);
    let mut out: Vec<String> = Vec::new();
    let mut i: usize = 0;
    while i < els.len()
        invariant
            i <= els@.len(),
            vels == json::json_view_elems(els@, 0),
            vels.len() == els@.len(),
            forall|k: int| 0 <= k < els@.len() ==> vels[k] == json::json_view(els@[k]),
            forall|k: int| 0 <= k < i ==> #[trigger] vels[k] is Str,
            out.deep_view().len() == i,
            spec_author_list(vels, 0) matches Some(bs) ==> forall|k: int|
                0 <= k < i ==> out.deep_view()[k] == text::utf8_chars(#[trigger] bs[k]),
            spec_author_list(vels, 0) matches Some(bs2) ==> forall|k: int|
                0 <= k < i ==> text::utf8_valid(#[trigger] bs2[k]),
        decreases els@.len() - i,
    {
        let s = match &els[i] {
            Json::Str(s) => s,
            _ => {
                proof {
                    lemma_author_list_not_str(vels, i as int);
                }
                return None;
            },
        };
        let decoded = match text::utf8_string(s) {
            Some(d) => d,
            None => {
                proof {
                    if spec_author_list(vels, 0) is Some {
                        lemma_author_list_index(vels, i as int);
                        assert(spec_author_list(vels, 0)->Some_0[i as int] == s@);
                        assert(!text::utf8_valid(spec_author_list(vels, 0)->Some_0[i as int]));
                    }
                }
                return None;
            },
        };
        proof {
            if spec_author_list(vels, 0) is Some {
                lemma_author_list_index(vels, i as int);
            }
        }
        let ghost prev_dv = out.deep_view();
        out.push(decoded);
        proof {
            assert(out.deep_view() =~= prev_dv.push(decoded@));
        }
        i += 1;
    }
    proof {
        if spec_author_list(vels, 0) is None {
            lemma_author_list_total(vels, 0);
        } else {
            lemma_author_list_len(vels, 0);
        }
    }
    Some(out)
}

/// When every element is a string, the author list succeeds and holds each
/// string's bytes at its position.
proof fn lemma_author_list_total(els: Seq<JsonSpec>, i: int)
    requires
        0 <= i <= els.len(),
        forall|k: int| i <= k < els.len() ==> #[trigger] els[k] is Str,
    ensures
        spec_author_list(els, i) is Some,
    decreases els.len() - i,
{
    if i < els.len() {
        lemma_author_list_total(els, i + 1);
    }
}

/// A non-string element makes the author list fail.
proof fn lemma_author_list_not_str(els: Seq<JsonSpec>, j: int)
    requires
        0 <= j < els.len(),
        !(els[j] is Str),
    ensures
        spec_author_list(els, 0) is None,
{
    lemma_author_list_not_str_from(els, 0, j);
}

proof fn lemma_author_list_not_str_from(els: Seq<JsonSpec>, i: int, j: int)
    requires
        0 <= i <= j < els.len(),
        !(els[j] is Str),
    ensures
        spec_author_list(els, i) is None,
    decreases j - i,
{
    if i < j {
        lemma_author_list_not_str_from(els, i + 1, j);
    }
}

/// A successful author list holds each string's bytes at its position.
proof fn lemma_author_list_index(els: Seq<JsonSpec>, j: int)
    requires
        0 <= j < els.len(),
        spec_author_list(els, 0) is Some,
    ensures
        spec_author_list(els, 0)->Some_0.len() == els.len(),
        els[j] is Str,
        spec_author_list(els, 0)->Some_0[j] == els[j]->Str_0,
    decreases els.len(),
{
    lemma_author_list_index_from(els, 0, j);
}

proof fn lemma_author_list_index_from(els: Seq<JsonSpec>, i: int, j: int)
    requires
        0 <= i <= j < els.len(),
        spec_author_list(els, i) is Some,
    ensures
        spec_author_list(els, i)->Some_0.len() == els.len() - i,
        els[j] is Str,
        spec_author_list(els, i)->Some_0[j - i] == els[j]->Str_0,
    decreases els.len() - i,
{
    lemma_author_list_len(els, i);
    if i < j {
        lemma_author_list_index_from(els, i + 1, j);
    } else {
        lemma_author_list_len(els, i + 1);
    }
}

proof fn lemma_author_list_len(els: Seq<JsonSpec>, i: int)
    requires
        0 <= i <= els.len(),
        spec_author_list(els, i) is Some,
    ensures
        spec_author_list(els, i)->Some_0.len() == els.len() - i,
    decreases els.len() - i,
{
    if i < els.len() {
        lemma_author_list_len(els, i + 1);
    }
}

} // verus!
