//! The geometric output of a detector for one sample, and its wire codec.
//!
//! An estimate travels as a JSON object tagged by a `type` member. The
//! numeric fields are decimals (see [`crate::json::Number`]); a missing
//! `confidence` member means the confidence is unknown, not zero.

use vstd::prelude::*;

use crate::json;
use crate::json::{Json, JsonSpec, Number};

verus! {

/// A pixel position inside a sample.
#[derive(Debug, Clone, Copy, PartialEq, Eq, Structural)]
pub struct Position {
    pub x: u32,
    pub y: u32,
}

/// The dimensions of the sample an estimate refers to.
#[derive(Debug, Clone, Copy, PartialEq, Eq, Structural)]
pub struct Sample {
    pub width: u32,
    pub height: u32,
}

/// An angle in radians, carried as a decimal number.
#[derive(Debug, Clone, Copy, PartialEq, Eq, Structural)]
pub struct Radian(pub Number);

/// A single-point pupil estimate.
#[derive(Debug, Clone, Copy, PartialEq, Eq, Structural)]
pub struct Point {
    pub pos: Position,
    pub confidence: Option<Number>,
    pub sample: Sample,
}

/// An elliptic pupil estimate.
#[derive(Debug, Clone, Copy, PartialEq, Eq, Structural)]
pub struct Ellipse {
    pub pos: Position,
    pub major: Number,
    pub minor: Number,
    pub angle: Radian,
    pub confidence: Option<Number>,
    pub sample: Sample,
}

/// The estimate a detector returned for one sample.
#[derive(Debug, Clone, Copy, PartialEq, Eq, Structural)]
pub enum Estimate {
    Point(Point),
    Ellipse(Ellipse),
}

// ---------------------------------------------------------------------------
// Member keys and type tags, as byte sequences
// ---------------------------------------------------------------------------

pub open spec fn key_type() -> Seq<u8> {
    seq![116u8, 121u8, 112u8, 101u8]
}

pub open spec fn key_x() -> Seq<u8> {
    seq![120u8]
}

pub open spec fn key_y() -> Seq<u8> {
    seq![121u8]
}

pub open spec fn key_confidence() -> Seq<u8> {
    seq![99u8, 111u8, 110u8, 102u8, 105u8, 100u8, 101u8, 110u8, 99u8, 101u8]
}

pub open spec fn key_sample() -> Seq<u8> {
    seq![115u8, 97u8, 109u8, 112u8, 108u8, 101u8]
}

pub open spec fn key_width() -> Seq<u8> {
    seq![119u8, 105u8, 100u8, 116u8, 104u8]
}

pub open spec fn key_height() -> Seq<u8> {
    seq![104u8, 101u8, 105u8, 103u8, 104u8, 116u8]
}

pub open spec fn key_major() -> Seq<u8> {
    seq![109u8, 97u8, 106u8, 111u8, 114u8]
}

pub open spec fn key_minor() -> Seq<u8> {
    seq![109u8, 105u8, 110u8, 111u8, 114u8]
}

pub open spec fn key_angle() -> Seq<u8> {
    seq![97u8, 110u8, 103u8, 108u8, 101u8]
}

pub open spec fn tag_point() -> Seq<u8> {
    seq![80u8, 111u8, 105u8, 110u8, 116u8]
}

pub open spec fn tag_ellipse() -> Seq<u8> {
    seq![69u8, 108u8, 108u8, 105u8, 112u8, 115u8, 101u8]
}

// ---------------------------------------------------------------------------
// Model of the encoded form
// ---------------------------------------------------------------------------

/// A whole number as a JSON value.
pub open spec fn num_of_u32(v: u32) -> JsonSpec {
    JsonSpec::Num(Number { negative: false, mantissa: v as u64, scale: 0 })
}

/// The JSON object for the sample dimensions.
pub open spec fn spec_sample_json(s: Sample) -> JsonSpec {
    JsonSpec::Obj(seq![(key_width(), num_of_u32(s.width)), (key_height(), num_of_u32(s.height))])
}

/// The members a confidence contributes: none when it is unknown.
pub open spec fn spec_confidence_members(c: Option<Number>) -> Seq<(Seq<u8>, JsonSpec)> {
    match c {
        None => Seq::empty(),
        Some(n) => seq![(key_confidence(), JsonSpec::Num(n))],
    }
}

/// The JSON object an estimate encodes to: the tag, the coordinates, the
/// shape parameters for an ellipse, the confidence when known, the sample.
pub open spec fn spec_estimate_json(e: Estimate) -> JsonSpec {
    match e {
        Estimate::Point(p) => JsonSpec::Obj(
            seq![
                (key_type(), JsonSpec::Str(tag_point())),
                (key_x(), num_of_u32(p.pos.x)),
                (key_y(), num_of_u32(p.pos.y)),
            ] + spec_confidence_members(p.confidence) + seq![
                (key_sample(), spec_sample_json(p.sample)),
            ],
        ),
        Estimate::Ellipse(el) => JsonSpec::Obj(
            seq![
                (key_type(), JsonSpec::Str(tag_ellipse())),
                (key_x(), num_of_u32(el.pos.x)),
                (key_y(), num_of_u32(el.pos.y)),
                (key_major(), JsonSpec::Num(el.major)),
                (key_minor(), JsonSpec::Num(el.minor)),
                (key_angle(), JsonSpec::Num(el.angle.0)),
            ] + spec_confidence_members(el.confidence) + seq![
                (key_sample(), spec_sample_json(el.sample)),
            ],
        ),
    }
}

/// Holds when every number inside the estimate can be written.
pub open spec fn estimate_wf(e: Estimate) -> bool {
    match e {
        Estimate::Point(p) => confidence_wf(p.confidence),
        Estimate::Ellipse(el) => confidence_wf(el.confidence) && json::number_wf(el.major)
            && json::number_wf(el.minor) && json::number_wf(el.angle.0),
    }
}

pub open spec fn confidence_wf(c: Option<Number>) -> bool {
    match c {
        None => true,
        Some(n) => json::number_wf(n),
    }
}

// ---------------------------------------------------------------------------
// Decoding
// ---------------------------------------------------------------------------

/// The member named `key` as an unsigned 32-bit integer.
pub open spec fn spec_get_u32(ms: Seq<(Seq<u8>, JsonSpec)>, key: Seq<u8>) -> Option<u32> {
    match json::spec_obj_get(ms, key) {
        Some(v) => json::spec_num_u32(v),
        None => None,
    }
}

/// The member named `key` as a decimal number.
pub open spec fn spec_get_number(ms: Seq<(Seq<u8>, JsonSpec)>, key: Seq<u8>) -> Option<Number> {
    match json::spec_obj_get(ms, key) {
        Some(JsonSpec::Num(n)) => Some(n),
        _ => None,
    }
}

/// The confidence member: absent or null means unknown, a number means
/// known, anything else is malformed.
pub open spec fn spec_get_confidence(ms: Seq<(Seq<u8>, JsonSpec)>) -> Option<Option<Number>> {
    match json::spec_obj_get(ms, key_confidence()) {
        None => Some(None),
        Some(JsonSpec::Null) => Some(None),
        Some(JsonSpec::Num(n)) => Some(Some(n)),
        Some(_) => None,
    }
}

/// The sample member: an object holding `width` and `height`.
pub open spec fn spec_get_sample(ms: Seq<(Seq<u8>, JsonSpec)>) -> Option<Sample> {
    match json::spec_obj_get(ms, key_sample()) {
        Some(JsonSpec::Obj(sms)) => match (spec_get_u32(sms, key_width()), spec_get_u32(
            sms,
            key_height(),
        )) {
            (Some(w), Some(h)) => Some(Sample { width: w, height: h }),
            _ => None,
        },
        _ => None,
    }
}

pub open spec fn spec_point_from(ms: Seq<(Seq<u8>, JsonSpec)>) -> Option<Estimate> {
    match (spec_get_u32(ms, key_x()), spec_get_u32(ms, key_y()), spec_get_confidence(ms),
    spec_get_sample(ms)) {
        (Some(x), Some(y), Some(c), Some(s)) => Some(
            Estimate::Point(Point { pos: Position { x, y }, confidence: c, sample: s }),
        ),
        _ => None,
    }
}

pub open spec fn spec_ellipse_from(ms: Seq<(Seq<u8>, JsonSpec)>) -> Option<Estimate> {
    match (spec_get_u32(ms, key_x()), spec_get_u32(ms, key_y()), spec_get_number(ms, key_major()),
    spec_get_number(ms, key_minor()), spec_get_number(ms, key_angle()), spec_get_confidence(ms),
    spec_get_sample(ms)) {
        (Some(x), Some(y), Some(major), Some(minor), Some(angle), Some(c), Some(s)) => Some(
            Estimate::Ellipse(
                Ellipse {
                    pos: Position { x, y },
                    major,
                    minor,
                    angle: Radian(angle),
                    confidence: c,
                    sample: s,
                },
            ),
        ),
        _ => None,
    }
}

/// The estimate a parsed JSON value describes, if it is well-formed. Members
/// may stand in any order; unknown members are ignored.
pub open spec fn spec_estimate_from_json(v: JsonSpec) -> Option<Estimate> {
    match v {
        JsonSpec::Obj(ms) => match json::spec_obj_get(ms, key_type()) {
            Some(JsonSpec::Str(t)) => if t == tag_point() {
                spec_point_from(ms)
            } else if t == tag_ellipse() {
                spec_ellipse_from(ms)
            } else {
                None
            },
            _ => None,
        },
        _ => None,
    }
}

/// The estimate a response body decodes to: the body must parse as JSON and
/// describe a well-formed estimate.
pub open spec fn spec_decode_estimate(bytes: Seq<u8>) -> Option<Estimate> {
    match json::spec_parse_json(bytes) {
        Some(v) => spec_estimate_from_json(v),
        None => None,
    }
}

// ---------------------------------------------------------------------------
// Executable codec
// ---------------------------------------------------------------------------

fn key_type_vec() -> (r: Vec<u8>)
    ensures
        r@ == key_type(),
{
    let r = vec![116u8, 121u8, 112u8, 101u8];
    proof {
        assert(r@ =~= key_type());
    }
    r
}

fn key_x_vec() -> (r: Vec<u8>)
    ensures
        r@ == key_x(),
{
    let r = vec![120u8];
    proof {
        assert(r@ =~= key_x());
    }
    r
}

fn key_y_vec() -> (r: Vec<u8>)
    ensures
        r@ == key_y(),
{
    let r = vec![121u8];
    proof {
        assert(r@ =~= key_y());
    }
    r
}

fn key_confidence_vec() -> (r: Vec<u8>)
    ensures
        r@ == key_confidence(),
{
    let r = vec![99u8, 111u8, 110u8, 102u8, 105u8, 100u8, 101u8, 110u8, 99u8, 101u8];
    proof {
        assert(r@ =~= key_confidence());
    }
    r
}

fn key_sample_vec() -> (r: Vec<u8>)
    ensures
        r@ == key_sample(),
{
    let r = vec![115u8, 97u8, 109u8, 112u8, 108u8, 101u8];
    proof {
        assert(r@ =~= key_sample());
    }
    r
}

fn key_width_vec() -> (r: Vec<u8>)
    ensures
        r@ == key_width(),
{
    let r = vec![119u8, 105u8, 100u8, 116u8, 104u8];
    proof {
        assert(r@ =~= key_width());
    }
    r
}

fn key_height_vec() -> (r: Vec<u8>)
    ensures
        r@ == key_height(),
{
    let r = vec![104u8, 101u8, 105u8, 103u8, 104u8, 116u8];
    proof {
        assert(r@ =~= key_height());
    }
    r
}

fn key_major_vec() -> (r: Vec<u8>)
    ensures
        r@ == key_major(),
{
    let r = vec![109u8, 97u8, 106u8, 111u8, 114u8];
    proof {
        assert(r@ =~= key_major());
    }
    r
}

fn key_minor_vec() -> (r: Vec<u8>)
    ensures
        r@ == key_minor(),
{
    let r = vec![109u8, 105u8, 110u8, 111u8, 114u8];
    proof {
        assert(r@ =~= key_minor());
    }
    r
}

fn key_angle_vec() -> (r: Vec<u8>)
    ensures
        r@ == key_angle(),
{
    let r = vec![97u8, 110u8, 103u8, 108u8, 101u8];
    proof {
        assert(r@ =~= key_angle());
    }
    r
}

fn tag_point_vec() -> (r: Vec<u8>)
    ensures
        r@ == tag_point(),
{
    let r = vec![80u8, 111u8, 105u8, 110u8, 116u8];
    proof {
        assert(r@ =~= tag_point());
    }
    r
}

fn tag_ellipse_vec() -> (r: Vec<u8>)
    ensures
        r@ == tag_ellipse(),
{
    let r = vec![69u8, 108u8, 108u8, 105u8, 112u8, 115u8, 101u8];
    proof {
        assert(r@ =~= tag_ellipse());
    }
    r
}

fn u32_json(v: u32) -> (r: Json)
    ensures
        r@ == num_of_u32(v),
{
    Json::Num(Number { negative: false, mantissa: v as u64, scale: 0 })
}

fn sample_to_json(s: &Sample) -> (r: Json)
    ensures
        r@ == spec_sample_json(*s),
{
    let mut ms: Vec<(Vec<u8>, Json)> = Vec::new();
    ms.push((key_width_vec(), u32_json(s.width)));
    ms.push((key_height_vec(), u32_json(s.height)));
    let r = Json::Obj(ms);
    proof {
        broadcast use json::lemma_json_view_members_index;
        json::lemma_json_view_members(r->Obj_0@, 0);
        assert(json::json_view_members(r->Obj_0@, 0) =~= spec_sample_json(*s)->Obj_0);
    }
    r
}

impl Estimate {
    /// The JSON value this estimate encodes to.
    pub fn to_json(&self) -> (r: Json)
        ensures
            r@ == spec_estimate_json(*self),
    {
        let mut ms: Vec<(Vec<u8>, Json)> = Vec::new();
        match self {
            Estimate::Point(p) => {
                ms.push((key_type_vec(), Json::Str(tag_point_vec())));
                ms.push((key_x_vec(), u32_json(p.pos.x)));
                ms.push((key_y_vec(), u32_json(p.pos.y)));
                if let Some(c) = &p.confidence {
                    ms.push((key_confidence_vec(), Json::Num(*c)));
                }
                ms.push((key_sample_vec(), sample_to_json(&p.sample)));
            },
            Estimate::Ellipse(el) => {
                ms.push((key_type_vec(), Json::Str(tag_ellipse_vec())));
                ms.push((key_x_vec(), u32_json(el.pos.x)));
                ms.push((key_y_vec(), u32_json(el.pos.y)));
                ms.push((key_major_vec(), Json::Num(el.major)));
                ms.push((key_minor_vec(), Json::Num(el.minor)));
                ms.push((key_angle_vec(), Json::Num(el.angle.0)));
                if let Some(c) = &el.confidence {
                    ms.push((key_confidence_vec(), Json::Num(*c)));
                }
                ms.push((key_sample_vec(), sample_to_json(&el.sample)));
            },
        }
        let r = Json::Obj(ms);
        proof {
            broadcast use json::lemma_json_view_members_index;
            json::lemma_json_view_members(r->Obj_0@, 0);
            assert(json::json_view_members(r->Obj_0@, 0) =~= spec_estimate_json(*self)->Obj_0);
        }
        r
    }

    /// Encodes this estimate as the body of a detection response.
    pub fn encode(&self) -> (r: Vec<u8>)
        requires
            estimate_wf(*self),
        ensures
            r@ == json::spec_write_json(spec_estimate_json(*self)),
    {
        let v = self.to_json();
        proof {
            lemma_estimate_json_wf(*self);
        }
        json::to_bytes(&v)
    }

    /// Decodes a detection response body into an estimate.
    pub fn decode(bytes: &[u8]) -> (r: Option<Estimate>)
        ensures
            r == spec_decode_estimate(bytes@),
    {
        match json::parse_json(bytes) {
            Some(v) => estimate_from_json(&v),
            None => None,
        }
    }
}

proof fn lemma_estimate_json_wf(e: Estimate)
    requires
        estimate_wf(e),
    ensures
        json::json_wf(spec_estimate_json(e)),
{
    reveal_with_fuel(json::json_wf_members, 12);
    let ms = spec_estimate_json(e)->Obj_0;
    match e {
        Estimate::Point(p) => {
            match p.confidence {
                None => {
                    assert(json::json_wf_members(spec_sample_json(p.sample)->Obj_0, 0));
                    assert(json::json_wf_members(ms, 0));
                },
                Some(_) => {
                    assert(json::json_wf_members(spec_sample_json(p.sample)->Obj_0, 0));
                    assert(json::json_wf_members(ms, 0));
                },
            }
        },
        Estimate::Ellipse(el) => {
            match el.confidence {
                None => {
                    assert(json::json_wf_members(spec_sample_json(el.sample)->Obj_0, 0));
                    assert(json::json_wf_members(ms, 0));
                },
                Some(_) => {
                    assert(json::json_wf_members(spec_sample_json(el.sample)->Obj_0, 0));
                    assert(json::json_wf_members(ms, 0));
                },
            }
        },
    }
}

fn get_u32(ms: &Vec<(Vec<u8>, Json)>, key: &[u8]) -> (r: Option<u32>)
    ensures
        r == spec_get_u32(json::json_view_members(ms@, 0), key@),
{
    match json::obj_get(ms, key) {
        Some(v) => json::num_u32(v),
        None => None,
    }
}

fn get_number(ms: &Vec<(Vec<u8>, Json)>, key: &[u8]) -> (r: Option<Number>)
    ensures
        r == spec_get_number(json::json_view_members(ms@, 0), key@),
{
    match json::obj_get(ms, key) {
        Some(Json::Num(n)) => Some(*n),
        Some(_) => None,
        None => None,
    }
}

fn get_confidence(ms: &Vec<(Vec<u8>, Json)>) -> (r: Option<Option<Number>>)
    ensures
        r == spec_get_confidence(json::json_view_members(ms@, 0)),
{
    let key = key_confidence_vec();
    match json::obj_get(ms, key.as_slice()) {
        None => Some(None),
        Some(Json::Null) => Some(None),
        Some(Json::Num(n)) => Some(Some(*n)),
        Some(_) => None,
    }
}

fn get_sample(ms: &Vec<(Vec<u8>, Json)>) -> (r: Option<Sample>)
    ensures
        r == spec_get_sample(json::json_view_members(ms@, 0)),
{
    let key = key_sample_vec();
    match json::obj_get(ms, key.as_slice()) {
        Some(Json::Obj(sms)) => {
            let wkey = key_width_vec();
            let hkey = key_height_vec();
            match (get_u32(sms, wkey.as_slice()), get_u32(sms, hkey.as_slice())) {
                (Some(w), Some(h)) => Some(Sample { width: w, height: h }),
                _ => None,
            }
        },
        _ => None,
    }
}

/// Reads an estimate out of a parsed JSON value.
pub fn estimate_from_json(v: &Json) -> (r: Option<Estimate>)
    ensures
        r == spec_estimate_from_json(v@),
{
    match v {
        Json::Obj(ms) => {
            let tkey = key_type_vec();
            match json::obj_get(ms, tkey.as_slice()) {
                Some(Json::Str(t)) => {
                    let pt = tag_point_vec();
                    let elt = tag_ellipse_vec();
                    if json::bytes_eq(t.as_slice(), pt.as_slice()) {
                        let xkey = key_x_vec();
                        let ykey = key_y_vec();
                        match (get_u32(ms, xkey.as_slice()), get_u32(ms, ykey.as_slice()),
                        get_confidence(ms), get_sample(ms)) {
                            (Some(x), Some(y), Some(c), Some(s)) => Some(
                                Estimate::Point(
                                    Point { pos: Position { x, y }, confidence: c, sample: s },
                                ),
                            ),
                            _ => None,
                        }
                    } else if json::bytes_eq(t.as_slice(), elt.as_slice()) {
                        let xkey = key_x_vec();
                        let ykey = key_y_vec();
                        let majkey = key_major_vec();
                        let minkey = key_minor_vec();
                        let akey = key_angle_vec();
                        match (get_u32(ms, xkey.as_slice()), get_u32(ms, ykey.as_slice()),
                        get_number(ms, majkey.as_slice()), get_number(ms, minkey.as_slice()),
                        get_number(ms, akey.as_slice()), get_confidence(ms), get_sample(ms)) {
                            (
                                Some(x),
                                Some(y),
                                Some(major),
                                Some(minor),
                                Some(angle),
                                Some(c),
                                Some(s),
                            ) => Some(
                                Estimate::Ellipse(
                                    Ellipse {
                                        pos: Position { x, y },
                                        major,
                                        minor,
                                        angle: Radian(angle),
                                        confidence: c,
                                        sample: s,
                                    },
                                ),
                            ),
                            _ => None,
                        }
                    } else {
                        None
                    }
                },
                Some(_) => None,
                None => None,
            }
        },
        _ => None,
    }
}

// ---------------------------------------------------------------------------
// The round trip of the estimate codec
// ---------------------------------------------------------------------------

proof fn lemma_keys_plain()
    ensures
        json::plain_bytes(key_type()),
        json::plain_bytes(key_x()),
        json::plain_bytes(key_y()),
        json::plain_bytes(key_confidence()),
        json::plain_bytes(key_sample()),
        json::plain_bytes(key_width()),
        json::plain_bytes(key_height()),
        json::plain_bytes(key_major()),
        json::plain_bytes(key_minor()),
        json::plain_bytes(key_angle()),
        json::plain_bytes(tag_point()),
        json::plain_bytes(tag_ellipse()),
{
}

proof fn lemma_keys_distinct()
    ensures
        key_x() != key_y(),
        key_major() != key_minor(),
        key_major() != key_angle(),
        key_minor() != key_angle(),
        tag_point() != tag_ellipse(),
{
    assert(key_x()[0] == 120 && key_y()[0] == 121);
    assert(key_major()[1] == 97 && key_minor()[1] == 105);
    assert(key_major()[0] == 109 && key_angle()[0] == 97);
    assert(key_minor()[0] == 109 && key_angle()[0] == 97);
}

/// The members of the sample object round-trip and look up correctly.
proof fn lemma_sample_json(sm: Sample)
    ensures
        json::round_trippable(spec_sample_json(sm)),
        json::json_depth(spec_sample_json(sm)) == 1,
        spec_get_sample(seq![(key_sample(), spec_sample_json(sm))]) == Some(sm),
{
    reveal_with_fuel(json::round_trippable, 5);
    reveal_with_fuel(json::round_trippable_members, 5);
    reveal_with_fuel(json::json_depth, 5);
    reveal_with_fuel(json::json_depth_members, 5);
    reveal_with_fuel(json::spec_obj_get_from, 5);
    lemma_keys_plain();
    let sms = spec_sample_json(sm)->Obj_0;
    assert(json::round_trippable(num_of_u32(sm.width)));
    assert(json::round_trippable(num_of_u32(sm.height)));
    assert(json::json_depth(num_of_u32(sm.width)) == 0);
    assert(json::json_depth(num_of_u32(sm.height)) == 0);
    assert(sms == seq![(key_width(), num_of_u32(sm.width)), (key_height(), num_of_u32(sm.height))]);
    assert(json::round_trippable_members(sms, 2));
    assert(json::round_trippable_members(sms, 1));
    assert(json::round_trippable_members(sms, 0));
    assert(json::json_depth_members(sms, 0) == 0);
    assert(json::spec_obj_get(seq![(key_sample(), spec_sample_json(sm))], key_sample())
        == Some(spec_sample_json(sm)));
    assert(json::spec_obj_get(sms, key_width()) == Some(num_of_u32(sm.width)));
    assert(key_width() != key_height());
    assert(json::spec_obj_get_from(sms, key_height(), 0) == json::spec_obj_get_from(
        sms,
        key_height(),
        1,
    ));
    assert(json::spec_obj_get(sms, key_height()) == Some(num_of_u32(sm.height)));
}

/// Encoding an estimate and decoding the result yields the estimate back.
pub proof fn lemma_estimate_round_trip(e: Estimate)
    requires
        estimate_wf(e),
    ensures
        spec_decode_estimate(json::spec_write_json(spec_estimate_json(e))) == Some(e),
{
    match e {
        Estimate::Point(p) => {
            lemma_point_round_trip(p);
        },
        Estimate::Ellipse(el) => {
            lemma_ellipse_round_trip(el);
        },
    }
}

#[verifier::rlimit(80)]
proof fn lemma_point_round_trip(p: Point)
    requires
        estimate_wf(Estimate::Point(p)),
    ensures
        spec_decode_estimate(json::spec_write_json(spec_estimate_json(Estimate::Point(p))))
            == Some(Estimate::Point(p)),
{
    reveal_with_fuel(json::round_trippable, 12);
    reveal_with_fuel(json::round_trippable_members, 12);
    reveal_with_fuel(json::json_depth, 12);
    reveal_with_fuel(json::json_depth_members, 12);
    reveal_with_fuel(json::spec_obj_get_from, 12);
    lemma_keys_plain();
    lemma_keys_distinct();
    let e = Estimate::Point(p);
    let v = spec_estimate_json(e);
    let ms = v->Obj_0;
        lemma_sample_json(p.sample);
        match p.confidence {
            Some(n) => {
                assert(ms =~= seq![
                    (key_type(), JsonSpec::Str(tag_point())),
                    (key_x(), num_of_u32(p.pos.x)),
                    (key_y(), num_of_u32(p.pos.y)),
                    (key_confidence(), JsonSpec::Num(n)),
                    (key_sample(), spec_sample_json(p.sample)),
                ]);
            },
            None => {
                assert(ms =~= seq![
                    (key_type(), JsonSpec::Str(tag_point())),
                    (key_x(), num_of_u32(p.pos.x)),
                    (key_y(), num_of_u32(p.pos.y)),
                    (key_sample(), spec_sample_json(p.sample)),
                ]);
            },
        }
        assert(json::round_trippable(JsonSpec::Str(tag_point())));
        assert(json::round_trippable(num_of_u32(p.pos.x)));
        assert(json::round_trippable(num_of_u32(p.pos.y)));
        assert(json::json_depth(JsonSpec::Str(tag_point())) == 0);
        assert(json::json_depth(num_of_u32(p.pos.x)) == 0);
        assert(json::json_depth(num_of_u32(p.pos.y)) == 0);
        if p.confidence is Some {
            assert(json::round_trippable(JsonSpec::Num(p.confidence->0)));
            assert(json::json_depth(JsonSpec::Num(p.confidence->0)) == 0);
        }
        assert(json::round_trippable(v));
        assert(json::json_depth(v) <= 2);
        json::lemma_parse_written_json(v);
        assert(spec_estimate_from_json(v) == Some(e));
}

#[verifier::rlimit(80)]
proof fn lemma_ellipse_round_trip(el: Ellipse)
    requires
        estimate_wf(Estimate::Ellipse(el)),
    ensures
        spec_decode_estimate(json::spec_write_json(spec_estimate_json(Estimate::Ellipse(el))))
            == Some(Estimate::Ellipse(el)),
{
    reveal_with_fuel(json::round_trippable, 12);
    reveal_with_fuel(json::round_trippable_members, 12);
    reveal_with_fuel(json::json_depth, 12);
    reveal_with_fuel(json::json_depth_members, 12);
    reveal_with_fuel(json::spec_obj_get_from, 12);
    lemma_keys_plain();
    lemma_keys_distinct();
    let e = Estimate::Ellipse(el);
    let v = spec_estimate_json(e);
    let ms = v->Obj_0;
        lemma_sample_json(el.sample);
        match el.confidence {
            Some(n) => {
                assert(ms =~= seq![
                    (key_type(), JsonSpec::Str(tag_ellipse())),
                    (key_x(), num_of_u32(el.pos.x)),
                    (key_y(), num_of_u32(el.pos.y)),
                    (key_major(), JsonSpec::Num(el.major)),
                    (key_minor(), JsonSpec::Num(el.minor)),
                    (key_angle(), JsonSpec::Num(el.angle.0)),
                    (key_confidence(), JsonSpec::Num(n)),
                    (key_sample(), spec_sample_json(el.sample)),
                ]);
            },
            None => {
                assert(ms =~= seq![
                    (key_type(), JsonSpec::Str(tag_ellipse())),
                    (key_x(), num_of_u32(el.pos.x)),
                    (key_y(), num_of_u32(el.pos.y)),
                    (key_major(), JsonSpec::Num(el.major)),
                    (key_minor(), JsonSpec::Num(el.minor)),
                    (key_angle(), JsonSpec::Num(el.angle.0)),
                    (key_sample(), spec_sample_json(el.sample)),
                ]);
            },
        }
        assert(json::round_trippable(JsonSpec::Str(tag_ellipse())));
        assert(json::round_trippable(num_of_u32(el.pos.x)));
        assert(json::round_trippable(num_of_u32(el.pos.y)));
        assert(json::round_trippable(JsonSpec::Num(el.major)));
        assert(json::round_trippable(JsonSpec::Num(el.minor)));
        assert(json::round_trippable(JsonSpec::Num(el.angle.0)));
        assert(json::json_depth(JsonSpec::Str(tag_ellipse())) == 0);
        assert(json::json_depth(num_of_u32(el.pos.x)) == 0);
        assert(json::json_depth(num_of_u32(el.pos.y)) == 0);
        assert(json::json_depth(JsonSpec::Num(el.major)) == 0);
        assert(json::json_depth(JsonSpec::Num(el.minor)) == 0);
        assert(json::json_depth(JsonSpec::Num(el.angle.0)) == 0);
        if el.confidence is Some {
            assert(json::round_trippable(JsonSpec::Num(el.confidence->0)));
            assert(json::json_depth(JsonSpec::Num(el.confidence->0)) == 0);
        }
        assert(json::round_trippable(v));
        assert(json::json_depth(v) <= 2);
        json::lemma_parse_written_json(v);
        assert(spec_estimate_from_json(v) == Some(e));
}

impl From<Point> for Estimate {
    fn from(point: Point) -> (r: Self) {
        Estimate::Point(point)
    }
}

impl vstd::std_specs::convert::FromSpecImpl<Point> for Estimate {
    open spec fn obeys_from_spec() -> bool {
        true
    }

    open spec fn from_spec(point: Point) -> Self {
        Estimate::Point(point)
    }
}

impl From<Ellipse> for Estimate {
    fn from(ellipse: Ellipse) -> (r: Self) {
        Estimate::Ellipse(ellipse)
    }
}

impl vstd::std_specs::convert::FromSpecImpl<Ellipse> for Estimate {
    open spec fn obeys_from_spec() -> bool {
        true
    }

    open spec fn from_spec(ellipse: Ellipse) -> Self {
        Estimate::Ellipse(ellipse)
    }
}

} // verus!
