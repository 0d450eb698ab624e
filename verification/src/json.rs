//! The JSON wire format of the detection protocol.
//!
//! The containers speak JSON: detector configurations are sent as JSON
//! bodies, and metadata, session ids and estimates come back as JSON bodies.
//! This module holds the structured value type together with a verified
//! writer and a verified parser for it.
//!
//! Numbers are decimals: an optional sign, an integer part and an optional
//! fraction, held exactly as a mantissa and a scale. Exponent notation and
//! `\u` string escapes are not part of the accepted grammar; a body using
//! them is rejected like any other malformed body.

use vstd::prelude::*;

verus! {

/// A decimal number: `(-1)^negative * mantissa / 10^scale`.
#[derive(Debug, Clone, Copy, PartialEq, Eq, Structural)]
pub struct Number {
    pub negative: bool,
    pub mantissa: u64,
    pub scale: u8,
}

/// Holds when a number can be written: at most 19 fraction digits, so that
/// `10^scale` fits in a `u64`.
pub open spec fn number_wf(n: Number) -> bool {
    n.scale <= 19
}

/// A structured JSON value.
#[derive(Debug, PartialEq, Eq)]
pub enum Json {
    Null,
    Bool(bool),
    Num(Number),
    /// String contents as UTF-8 bytes, with escapes already resolved.
    Str(Vec<u8>),
    Arr(Vec<Json>),
    Obj(Vec<(Vec<u8>, Json)>),
}

/// The mathematical model of a JSON value.
pub enum JsonSpec {
    Null,
    Bool(bool),
    Num(Number),
    Str(Seq<u8>),
    Arr(Seq<JsonSpec>),
    Obj(Seq<(Seq<u8>, JsonSpec)>),
}

pub open spec fn json_view(v: Json) -> JsonSpec
    decreases v, 1int, 0int,
{
    match v {
        Json::Null => JsonSpec::Null,
        Json::Bool(b) => JsonSpec::Bool(b),
        Json::Num(n) => JsonSpec::Num(n),
        Json::Str(s) => JsonSpec::Str(s@),
        Json::Arr(els) => JsonSpec::Arr(json_view_elems(els@, 0)),
        Json::Obj(ms) => JsonSpec::Obj(json_view_members(ms@, 0)),
    }
}

pub open spec fn json_view_elems(els: Seq<Json>, i: int) -> Seq<JsonSpec>
    decreases els, 2int, els.len() - i,
{
    if i < 0 || i >= els.len() {
        Seq::empty()
    } else {
        seq![json_view(els[i])] + json_view_elems(els, i + 1)
    }
}

pub open spec fn json_view_members(ms: Seq<(Vec<u8>, Json)>, i: int) -> Seq<(Seq<u8>, JsonSpec)>
    decreases ms, 2int, ms.len() - i,
{
    if i < 0 || i >= ms.len() {
        Seq::empty()
    } else {
        seq![(ms[i].0@, json_view(ms[i].1))] + json_view_members(ms, i + 1)
    }
}

pub broadcast proof fn lemma_json_view_elems(els: Seq<Json>, i: int)
    requires
        0 <= i <= els.len(),
    ensures
        (#[trigger] json_view_elems(els, i)).len() == els.len() - i,
        forall|k: int|
            i <= k < els.len() ==> json_view_elems(els, i)[k - i] == json_view(#[trigger] els[k]),
    decreases els.len() - i,
{
    if i < els.len() {
        lemma_json_view_elems(els, i + 1);
    }
}

pub broadcast proof fn lemma_json_view_members(ms: Seq<(Vec<u8>, Json)>, i: int)
    requires
        0 <= i <= ms.len(),
    ensures
        (#[trigger] json_view_members(ms, i)).len() == ms.len() - i,
        forall|k: int|
            i <= k < ms.len() ==> json_view_members(ms, i)[k - i] == (
                ms[k].0@,
                json_view(#[trigger] ms[k].1),
            ),
    decreases ms.len() - i,
{
    if i < ms.len() {
        lemma_json_view_members(ms, i + 1);
    }
}


pub broadcast proof fn lemma_json_view_members_index(ms: Seq<(Vec<u8>, Json)>, k: int)
    requires
        0 <= k < ms.len(),
    ensures
        json_view_members(ms, 0).len() == ms.len(),
        #[trigger] json_view_members(ms, 0)[k] == (ms[k].0@, json_view(ms[k].1)),
{
    lemma_json_view_members(ms, 0);
}

pub broadcast proof fn lemma_json_view_elems_index(els: Seq<Json>, k: int)
    requires
        0 <= k < els.len(),
    ensures
        json_view_elems(els, 0).len() == els.len(),
        #[trigger] json_view_elems(els, 0)[k] == json_view(els[k]),
{
    lemma_json_view_elems(els, 0);
}

impl View for Json {
    type V = JsonSpec;

    open spec fn view(&self) -> JsonSpec {
        json_view(*self)
    }
}

/// Holds when every number inside `v` can be written.
pub open spec fn json_wf(v: JsonSpec) -> bool
    decreases v, 1int,
{
    match v {
        JsonSpec::Null => true,
        JsonSpec::Bool(_) => true,
        JsonSpec::Num(n) => number_wf(n),
        JsonSpec::Str(_) => true,
        JsonSpec::Arr(els) => json_wf_elems(els, 0),
        JsonSpec::Obj(ms) => json_wf_members(ms, 0),
    }
}

pub open spec fn json_wf_elems(els: Seq<JsonSpec>, i: int) -> bool
    decreases els, 2int, els.len() - i,
{
    if i < 0 || i >= els.len() {
        true
    } else {
        json_wf(els[i]) && json_wf_elems(els, i + 1)
    }
}

pub open spec fn json_wf_members(ms: Seq<(Seq<u8>, JsonSpec)>, i: int) -> bool
    decreases ms, 2int, ms.len() - i,
{
    if i < 0 || i >= ms.len() {
        true
    } else {
        json_wf(ms[i].1) && json_wf_members(ms, i + 1)
    }
}

// ---------------------------------------------------------------------------
// Digits
// ---------------------------------------------------------------------------

/// Ten to the `k`-th power.
pub open spec fn pow10(k: nat) -> nat
    decreases k,
{
    if k == 0 {
        1
    } else {
        10 * pow10((k - 1) as nat)
    }
}

proof fn lemma_pow10_pos(k: nat)
    ensures
        pow10(k) >= 1,
    decreases k,
{
    if k > 0 {
        lemma_pow10_pos((k - 1) as nat);
    }
}

proof fn lemma_pow10_mono(a: nat, b: nat)
    requires
        a <= b,
    ensures
        pow10(a) <= pow10(b),
    decreases b,
{
    if a < b {
        lemma_pow10_mono(a, (b - 1) as nat);
        lemma_pow10_pos((b - 1) as nat);
    }
}

/// The decimal digits of `n`, most significant first.
pub open spec fn spec_digits(n: nat) -> Seq<u8>
    decreases n,
{
    if n < 10 {
        seq![(n + 48) as u8]
    } else {
        spec_digits(n / 10).push(((n % 10) + 48) as u8)
    }
}

/// The last `width` decimal digits of `n`, zero-padded on the left.
pub open spec fn spec_padded_digits(n: nat, width: nat) -> Seq<u8>
    decreases width,
{
    if width == 0 {
        Seq::empty()
    } else {
        spec_padded_digits(n / 10, (width - 1) as nat).push(((n % 10) + 48) as u8)
    }
}

/// Appends the decimal digits of `n` to `out`.
pub fn push_digits(n: u64, out: &mut Vec<u8>)
    ensures
        final(out)@ == old(out)@ + spec_digits(n as nat),
    decreases n,
{
    if n < 10 {
        out.push((n as u8) + 48);
    } else {
        push_digits(n / 10, out);
        out.push(((n % 10) as u8) + 48);
    }
}

/// Appends the last `width` decimal digits of `n` to `out`.
fn push_padded_digits(n: u64, width: u8, out: &mut Vec<u8>)
    ensures
        final(out)@ == old(out)@ + spec_padded_digits(n as nat, width as nat),
    decreases width,
{
    if width > 0 {
        push_padded_digits(n / 10, width - 1, out);
        out.push(((n % 10) as u8) + 48);
    }
}

/// Ten to the `k`-th power as a machine integer.
fn pow10_u64(k: u8) -> (r: u64)
    requires
        k <= 19,
    ensures
        r == pow10(k as nat),
{
    let mut r: u64 = 1;
    let mut i: u8 = 0;
    while i < k
        invariant
            i <= k <= 19,
            r == pow10(i as nat),
        decreases k - i,
    {
        proof {
            reveal_with_fuel(pow10, 21);
            assert(pow10(19) == 10000000000000000000);
            lemma_pow10_mono((i + 1) as nat, 19);
        }
        r = r * 10;
        i = i + 1;
    }
    r
}

// ---------------------------------------------------------------------------
// Writer
// ---------------------------------------------------------------------------

/// The written form of a number.
pub open spec fn spec_write_number(n: Number) -> Seq<u8> {
    let sign: Seq<u8> = if n.negative {
        seq![45u8]
    } else {
        Seq::empty()
    };
    if n.scale == 0 {
        sign + spec_digits(n.mantissa as nat)
    } else {
        sign + spec_digits(n.mantissa as nat / pow10(n.scale as nat)) + seq![46u8]
            + spec_padded_digits(n.mantissa as nat, n.scale as nat)
    }
}

/// The escape of one string byte: quotes and backslashes get a backslash,
/// control bytes become a `\u00..` sequence, everything else stands as is.
pub open spec fn spec_escape_byte(b: u8) -> Seq<u8> {
    if b == 34 {
        seq![92u8, 34u8]
    } else if b == 92 {
        seq![92u8, 92u8]
    } else if b < 32 {
        seq![92u8, 117u8, 48u8, 48u8, hex_digit((b / 16) as nat), hex_digit((b % 16) as nat)]
    } else {
        seq![b]
    }
}

/// The lower-case hexadecimal digit of a value below sixteen.
pub open spec fn hex_digit(n: nat) -> u8 {
    if n < 10 {
        (n + 48) as u8
    } else {
        (n + 87) as u8
    }
}

/// The escaped form of the string bytes from position `i` on.
pub open spec fn spec_escaped_from(s: Seq<u8>, i: int) -> Seq<u8>
    decreases s.len() - i,
{
    if i < 0 || i >= s.len() {
        Seq::empty()
    } else {
        spec_escape_byte(s[i]) + spec_escaped_from(s, i + 1)
    }
}

/// The written form of a string: quoted and escaped.
pub open spec fn spec_write_string(s: Seq<u8>) -> Seq<u8> {
    seq![34u8] + spec_escaped_from(s, 0) + seq![34u8]
}

/// The written form of a JSON value: no whitespace, members and elements in
/// their stored order.
pub open spec fn spec_write_json(v: JsonSpec) -> Seq<u8>
    decreases v, 1int,
{
    match v {
        JsonSpec::Null => seq![110u8, 117u8, 108u8, 108u8],
        JsonSpec::Bool(b) => if b {
            seq![116u8, 114u8, 117u8, 101u8]
        } else {
            seq![102u8, 97u8, 108u8, 115u8, 101u8]
        },
        JsonSpec::Num(n) => spec_write_number(n),
        JsonSpec::Str(s) => spec_write_string(s),
        JsonSpec::Arr(els) => seq![91u8] + spec_write_elems(els, 0) + seq![93u8],
        JsonSpec::Obj(ms) => seq![123u8] + spec_write_members(ms, 0) + seq![125u8],
    }
}

pub open spec fn spec_write_elems(els: Seq<JsonSpec>, i: int) -> Seq<u8>
    decreases els, 2int, els.len() - i,
{
    if i < 0 || i >= els.len() {
        Seq::empty()
    } else {
        (if i > 0 {
            seq![44u8]
        } else {
            Seq::empty()
        }) + spec_write_json(els[i]) + spec_write_elems(els, i + 1)
    }
}

pub open spec fn spec_write_members(ms: Seq<(Seq<u8>, JsonSpec)>, i: int) -> Seq<u8>
    decreases ms, 2int, ms.len() - i,
{
    if i < 0 || i >= ms.len() {
        Seq::empty()
    } else {
        (if i > 0 {
            seq![44u8]
        } else {
            Seq::empty()
        }) + spec_write_string(ms[i].0) + seq![58u8] + spec_write_json(ms[i].1)
            + spec_write_members(ms, i + 1)
    }
}

/// Appends the written form of the number to `out`.
pub fn write_number(n: &Number, out: &mut Vec<u8>)
    requires
        number_wf(*n),
    ensures
        final(out)@ == old(out)@ + spec_write_number(*n),
{
    if n.negative {
        out.push(45);
    }
    if n.scale == 0 {
        push_digits(n.mantissa, out);
    } else {
        let p = pow10_u64(n.scale);
        proof {
            lemma_pow10_pos(n.scale as nat);
        }
        push_digits(n.mantissa / p, out);
        out.push(46);
        push_padded_digits(n.mantissa, n.scale, out);
    }
    proof {
        assert(out@ =~= old(out)@ + spec_write_number(*n));
    }
}

/// Appends the quoted, escaped form of the string bytes to `out`.
pub fn write_string(s: &Vec<u8>, out: &mut Vec<u8>)
    ensures
        final(out)@ == old(out)@ + spec_write_string(s@),
{
    out.push(34);
    let ghost total = old(out)@ + seq![34u8] + spec_escaped_from(s@, 0);
    let mut i: usize = 0;
    while i < s.len()
        invariant
            i <= s.len(),
            total == old(out)@ + seq![34u8] + spec_escaped_from(s@, 0),
            out@ + spec_escaped_from(s@, i as int) == total,
        decreases s.len() - i,
    {
        let b = s[i];
        if b == 34 {
            out.push(92);
            out.push(34);
        } else if b == 92 {
            out.push(92);
            out.push(92);
        } else if b < 32 {
            out.push(92);
            out.push(117);
            out.push(48);
            out.push(48);
            let hi = b / 16;
            let lo = b % 16;
            out.push(if hi < 10 { hi + 48 } else { hi + 87 });
            out.push(if lo < 10 { lo + 48 } else { lo + 87 });
        } else {
            out.push(b);
        }
        proof {
            assert(out@ + spec_escaped_from(s@, i + 1) =~= total);
        }
        i += 1;
    }
    out.push(34);
    proof {
        assert(out@ =~= old(out)@ + spec_write_string(s@));
    }
}

/// Appends the written form of the value to `out`.
pub fn write_json(v: &Json, out: &mut Vec<u8>)
    requires
        json_wf(v@),
    ensures
        final(out)@ == old(out)@ + spec_write_json(v@),
    decreases *v,
{
    match v {
        Json::Null => {
            out.push(110);
            out.push(117);
            out.push(108);
            out.push(108);
            proof {
                assert(out@ =~= old(out)@ + spec_write_json(v@));
            }
        },
        Json::Bool(b) => {
            if *b {
                out.push(116);
                out.push(114);
                out.push(117);
                out.push(101);
            } else {
                out.push(102);
                out.push(97);
                out.push(108);
                out.push(115);
                out.push(101);
            }
            proof {
                assert(out@ =~= old(out)@ + spec_write_json(v@));
            }
        },
        Json::Num(n) => {
            write_number(n, out);
        },
        Json::Str(s) => {
            write_string(s, out);
        },
        Json::Arr(els) => {
            let ghost view_els = v@->Arr_0;
            proof {
                lemma_json_view_elems(els@, 0);
            }
            out.push(91);
            let ghost total = old(out)@ + seq![91u8] + spec_write_elems(view_els, 0);
            let mut i: usize = 0;
            while i < els.len()
                invariant
                    i <= els.len(),
                    *v == Json::Arr(*els),
                    view_els == v@->Arr_0,
                    view_els.len() == els@.len(),
                    forall|k: int| 0 <= k < els@.len() ==> view_els[k] == els@[k]@,
                    json_wf(v@),
                    total == old(out)@ + seq![91u8] + spec_write_elems(view_els, 0),
                    out@ + spec_write_elems(view_els, i as int) == total,
                decreases els.len() - i,
            {
                proof {
                    assert(decreases_to!(*v => v->Arr_0));
                    assert(v->Arr_0 == *els);
                    assert(decreases_to!(*els => els@));
                    assert(decreases_to!(els@ => els@[i as int]));
                    assert(decreases_to!(*v => els@[i as int]));
                    lemma_json_wf_elems_at(view_els, i as int);
                }
                if i > 0 {
                    out.push(44);
                }
                write_json(&els[i], out);
                proof {
                    assert(out@ + spec_write_elems(view_els, i + 1) =~= total);
                }
                i += 1;
            }
            out.push(93);
            proof {
                assert(out@ =~= old(out)@ + spec_write_json(v@));
            }
        },
        Json::Obj(ms) => {
            let ghost view_ms = v@->Obj_0;
            proof {
                lemma_json_view_members(ms@, 0);
            }
            out.push(123);
            let ghost total = old(out)@ + seq![123u8] + spec_write_members(view_ms, 0);
            let mut i: usize = 0;
            while i < ms.len()
                invariant
                    i <= ms.len(),
                    *v == Json::Obj(*ms),
                    view_ms == v@->Obj_0,
                    view_ms.len() == ms@.len(),
                    forall|k: int| 0 <= k < ms@.len() ==> view_ms[k] == (
                        ms@[k].0@,
                        ms@[k].1@,
                    ),
                    json_wf(v@),
                    total == old(out)@ + seq![123u8] + spec_write_members(view_ms, 0),
                    out@ + spec_write_members(view_ms, i as int) == total,
                decreases ms.len() - i,
            {
                proof {
                    assert(decreases_to!(*v => v->Obj_0));
                    assert(v->Obj_0 == *ms);
                    assert(decreases_to!(*ms => ms@));
                    assert(decreases_to!(ms@ => ms@[i as int]));
                    assert(decreases_to!(ms@[i as int] => ms@[i as int].1));
                    assert(decreases_to!(*v => ms@[i as int].1));
                    lemma_json_wf_members_at(view_ms, i as int);
                }
                if i > 0 {
                    out.push(44);
                }
                write_string(&ms[i].0, out);
                out.push(58);
                write_json(&ms[i].1, out);
                proof {
                    assert(out@ + spec_write_members(view_ms, i + 1) =~= total);
                }
                i += 1;
            }
            out.push(125);
            proof {
                assert(out@ =~= old(out)@ + spec_write_json(v@));
            }
        },
    }
}

proof fn lemma_json_wf_elems_at(els: Seq<JsonSpec>, i: int)
    requires
        json_wf_elems(els, 0),
        0 <= i < els.len(),
    ensures
        json_wf(els[i]),
{
    lemma_json_wf_elems_step(els, 0, i);
}

proof fn lemma_json_wf_elems_step(els: Seq<JsonSpec>, j: int, i: int)
    requires
        json_wf_elems(els, j),
        0 <= j <= i < els.len(),
    ensures
        json_wf(els[i]),
    decreases i - j,
{
    if j < i {
        lemma_json_wf_elems_step(els, j + 1, i);
    }
}

proof fn lemma_json_wf_members_at(ms: Seq<(Seq<u8>, JsonSpec)>, i: int)
    requires
        json_wf_members(ms, 0),
        0 <= i < ms.len(),
    ensures
        json_wf(ms[i].1),
{
    lemma_json_wf_members_step(ms, 0, i);
}

proof fn lemma_json_wf_members_step(ms: Seq<(Seq<u8>, JsonSpec)>, j: int, i: int)
    requires
        json_wf_members(ms, j),
        0 <= j <= i < ms.len(),
    ensures
        json_wf(ms[i].1),
    decreases i - j,
{
    if j < i {
        lemma_json_wf_members_step(ms, j + 1, i);
    }
}

/// Writes the value as a fresh byte vector.
pub fn to_bytes(v: &Json) -> (r: Vec<u8>)
    requires
        json_wf(v@),
    ensures
        r@ == spec_write_json(v@),
{
    let mut out: Vec<u8> = Vec::new();
    write_json(v, &mut out);
    out
}

/// Checks that every number inside `v` can be written.
pub fn check_wf(v: &Json) -> (r: bool)
    ensures
        r == json_wf(v@),
    decreases *v,
{
    match v {
        Json::Null => true,
        Json::Bool(_) => true,
        Json::Num(n) => n.scale <= 19,
        Json::Str(_) => true,
        Json::Arr(els) => {
            let ghost view_els = v@->Arr_0;
            proof {
                lemma_json_view_elems(els@, 0);
            }
            let mut i: usize = 0;
            let mut ok = true;
            while i < els.len()
                invariant
                    i <= els.len(),
                    *v == Json::Arr(*els),
                    view_els == v@->Arr_0,
                    view_els.len() == els@.len(),
                    forall|k: int| 0 <= k < els@.len() ==> view_els[k] == els@[k]@,
                    ok == json_wf_elems_upto(view_els, i as int),
                decreases els.len() - i,
            {
                proof {
                    assert(decreases_to!(*v => v->Arr_0));
                    assert(v->Arr_0 == *els);
                    assert(decreases_to!(*els => els@));
                    assert(decreases_to!(els@ => els@[i as int]));
                    assert(decreases_to!(*v => els@[i as int]));
                }
                let c = check_wf(&els[i]);
                proof {
                    if ok && c {
                        assert forall|k: int| 0 <= k < i + 1 && k < view_els.len() implies json_wf(
                            #[trigger] view_els[k],
                        ) by {}
                    } else {
                        assert(!(json_wf_elems_upto(view_els, i as int) && json_wf(
                            view_els[i as int],
                        )));
                        assert(!json_wf_elems_upto(view_els, i as int + 1));
                    }
                }
                ok = ok && c;
                i += 1;
            }
            proof {
                lemma_json_wf_elems_upto_full(view_els);
            }
            ok
        },
        Json::Obj(ms) => {
            let ghost view_ms = v@->Obj_0;
            proof {
                lemma_json_view_members(ms@, 0);
            }
            let mut i: usize = 0;
            let mut ok = true;
            while i < ms.len()
                invariant
                    i <= ms.len(),
                    *v == Json::Obj(*ms),
                    view_ms == v@->Obj_0,
                    view_ms.len() == ms@.len(),
                    forall|k: int| 0 <= k < ms@.len() ==> view_ms[k] == (
                        ms@[k].0@,
                        ms@[k].1@,
                    ),
                    ok == json_wf_members_upto(view_ms, i as int),
                decreases ms.len() - i,
            {
                proof {
                    assert(decreases_to!(*v => v->Obj_0));
                    assert(v->Obj_0 == *ms);
                    assert(decreases_to!(*ms => ms@));
                    assert(decreases_to!(ms@ => ms@[i as int]));
                    assert(decreases_to!(ms@[i as int] => ms@[i as int].1));
                    assert(decreases_to!(*v => ms@[i as int].1));
                }
                let c = check_wf(&ms[i].1);
                proof {
                    if ok && c {
                        assert forall|k: int| 0 <= k < i + 1 && k < view_ms.len() implies json_wf(
                            #[trigger] view_ms[k].1,
                        ) by {}
                    } else {
                        assert(!(json_wf_members_upto(view_ms, i as int) && json_wf(
                            view_ms[i as int].1,
                        )));
                        assert(!json_wf_members_upto(view_ms, i as int + 1));
                    }
                }
                ok = ok && c;
                i += 1;
            }
            proof {
                lemma_json_wf_members_upto_full(view_ms);
            }
            ok
        },
    }
}

/// Holds when the elements strictly before position `i` are well-formed.
pub open spec fn json_wf_elems_upto(els: Seq<JsonSpec>, i: int) -> bool {
    forall|k: int| 0 <= k < i && k < els.len() ==> json_wf(#[trigger] els[k])
}

/// Holds when the member values strictly before position `i` are well-formed.
pub open spec fn json_wf_members_upto(ms: Seq<(Seq<u8>, JsonSpec)>, i: int) -> bool {
    forall|k: int| 0 <= k < i && k < ms.len() ==> json_wf(#[trigger] ms[k].1)
}

proof fn lemma_json_wf_elems_upto_full(els: Seq<JsonSpec>)
    ensures
        json_wf_elems_upto(els, els.len() as int) == json_wf_elems(els, 0),
{
    lemma_json_wf_elems_upto_from(els, 0);
}

proof fn lemma_json_wf_elems_upto_from(els: Seq<JsonSpec>, j: int)
    requires
        0 <= j <= els.len(),
    ensures
        (forall|k: int| j <= k < els.len() ==> json_wf(#[trigger] els[k])) == json_wf_elems(
            els,
            j,
        ),
    decreases els.len() - j,
{
    if j < els.len() {
        lemma_json_wf_elems_upto_from(els, j + 1);
    }
}

proof fn lemma_json_wf_members_upto_full(ms: Seq<(Seq<u8>, JsonSpec)>)
    ensures
        json_wf_members_upto(ms, ms.len() as int) == json_wf_members(ms, 0),
{
    lemma_json_wf_members_upto_from(ms, 0);
}

proof fn lemma_json_wf_members_upto_from(ms: Seq<(Seq<u8>, JsonSpec)>, j: int)
    requires
        0 <= j <= ms.len(),
    ensures
        (forall|k: int| j <= k < ms.len() ==> json_wf(#[trigger] ms[k].1)) == json_wf_members(
            ms,
            j,
        ),
    decreases ms.len() - j,
{
    if j < ms.len() {
        lemma_json_wf_members_upto_from(ms, j + 1);
    }
}

// ---------------------------------------------------------------------------
// Parser
// ---------------------------------------------------------------------------

/// Holds for the whitespace bytes the grammar skips between tokens.
pub open spec fn is_ws(b: u8) -> bool {
    b == 32 || b == 9 || b == 10 || b == 13
}

/// Holds for the decimal digit bytes.
pub open spec fn is_digit(b: u8) -> bool {
    48 <= b <= 57
}

/// The first position at or after `i` that does not hold whitespace.
pub open spec fn spec_skip_ws(s: Seq<u8>, i: int) -> int
    decreases s.len() - i,
{
    if 0 <= i < s.len() && is_ws(s[i]) {
        spec_skip_ws(s, i + 1)
    } else {
        i
    }
}

proof fn lemma_skip_ws_bounds(s: Seq<u8>, i: int)
    requires
        0 <= i <= s.len(),
    ensures
        i <= spec_skip_ws(s, i) <= s.len(),
    decreases s.len() - i,
{
    if i < s.len() && is_ws(s[i]) {
        lemma_skip_ws_bounds(s, i + 1);
    }
}

fn skip_ws(s: &[u8], i: usize) -> (r: usize)
    requires
        i <= s@.len(),
    ensures
        r == spec_skip_ws(s@, i as int),
        i <= r <= s@.len(),
    decreases s@.len() - i,
{
    if i < s.len() {
        let b = s[i];
        if b == 32 || b == 9 || b == 10 || b == 13 {
            return skip_ws(s, i + 1);
        }
    }
    i
}

/// The digit run starting at `i`, folded onto `acc`; stops at the first
/// non-digit, fails on mantissa overflow.
pub open spec fn spec_parse_digits(s: Seq<u8>, i: int, acc: int) -> Option<(int, int)>
    decreases s.len() - i,
{
    if !(0 <= i <= s.len()) {
        None
    } else if i < s.len() && is_digit(s[i]) {
        let d = s[i] - 48;
        if acc * 10 + d <= u64::MAX {
            spec_parse_digits(s, i + 1, acc * 10 + d)
        } else {
            None
        }
    } else {
        Some((acc, i))
    }
}

fn parse_digits(s: &[u8], i: usize, acc: u64) -> (r: Option<(u64, usize)>)
    requires
        i <= s@.len(),
    ensures
        match r {
            None => spec_parse_digits(s@, i as int, acc as int) is None,
            Some((v, j)) => spec_parse_digits(s@, i as int, acc as int) == Some(
                (v as int, j as int),
            ) && i <= j <= s@.len(),
        },
    decreases s@.len() - i,
{
    if i < s.len() {
        let b = s[i];
        if 48 <= b && b <= 57 {
            let d = (b - 48) as u64;
            if let Some(p) = acc.checked_mul(10) {
                if let Some(q) = p.checked_add(d) {
                    return parse_digits(s, i + 1, q);
                }
            }
            return None;
        }
    }
    Some((acc, i))
}

/// The number token starting at `i`: an optional sign, an integer part, an
/// optional fraction, and an optional exponent, normalized into the decimal
/// model where representable.
pub open spec fn spec_parse_number(s: Seq<u8>, i: int) -> Option<(JsonSpec, int)>
    decreases s.len() - i, 2int,
{
    if !(0 <= i < s.len()) {
        None
    } else {
        let neg = s[i] == 45;
        let j = if neg {
            i + 1
        } else {
            i
        };
        if j < s.len() && is_digit(s[j]) {
            match spec_parse_digits(s, j, 0) {
                None => None,
                Some((m1, k)) => if k < s.len() && s[k] == 46 {
                    if k + 1 < s.len() && is_digit(s[k + 1]) {
                        match spec_parse_digits(s, k + 1, m1) {
                            None => None,
                            Some((m2, p)) => spec_parse_exponent(s, p, neg, m2, p - (k + 1)),
                        }
                    } else {
                        None
                    }
                } else {
                    spec_parse_exponent(s, k, neg, m1, 0)
                },
            }
        } else {
            None
        }
    }
}

/// The optional exponent at `q`, applied to the mantissa read so far with
/// `flen` fraction digits.
pub open spec fn spec_parse_exponent(s: Seq<u8>, q: int, neg: bool, m: int, flen: int) -> Option<
    (JsonSpec, int),
>
    decreases s.len() - q, 1int,
{
    if 0 <= q < s.len() && (s[q] == 101 || s[q] == 69) {
        let exp_neg = q + 1 < s.len() && s[q + 1] == 45;
        let j2 = if q + 1 < s.len() && (s[q + 1] == 45 || s[q + 1] == 43) {
            q + 2
        } else {
            q + 1
        };
        if j2 < s.len() && is_digit(s[j2]) {
            match spec_parse_digits(s, j2, 0) {
                None => None,
                Some((ev, q2)) => spec_normalize_number(neg, m, flen, exp_neg, ev, q2),
            }
        } else {
            None
        }
    } else {
        if 0 <= flen <= 19 {
            Some((JsonSpec::Num(Number { negative: neg, mantissa: m as u64, scale: flen as u8 }), q))
        } else {
            None
        }
    }
}

/// A number with an explicit exponent, folded into mantissa and scale; a
/// value outside the model is rejected.
pub open spec fn spec_normalize_number(
    neg: bool,
    m: int,
    flen: int,
    exp_neg: bool,
    ev: int,
    pos: int,
) -> Option<(JsonSpec, int)> {
    if m == 0 {
        Some((JsonSpec::Num(Number { negative: neg, mantissa: 0, scale: 0 }), pos))
    } else {
        let net = if exp_neg {
            flen + ev
        } else {
            flen - ev
        };
        if 0 <= net <= 19 {
            Some((JsonSpec::Num(Number { negative: neg, mantissa: m as u64, scale: net as u8 }), pos))
        } else if net < 0 && -net <= 19 && m * pow10((-net) as nat) <= u64::MAX {
            Some(
                (
                    JsonSpec::Num(
                        Number { negative: neg, mantissa: (m * pow10((-net) as nat)) as u64, scale: 0 },
                    ),
                    pos,
                ),
            )
        } else {
            None
        }
    }
}

fn parse_number(s: &[u8], i: usize) -> (r: Option<(Json, usize)>)
    requires
        i < s@.len(),
    ensures
        match r {
            None => spec_parse_number(s@, i as int) is None,
            Some((v, j)) => spec_parse_number(s@, i as int) == Some((v@, j as int)) && i < j
                <= s@.len(),
        },
{
    let neg = s[i] == 45;
    let j = if neg {
        i + 1
    } else {
        i
    };
    if j < s.len() && 48 <= s[j] && s[j] <= 57 {
        match parse_digits(s, j, 0) {
            None => None,
            Some((m1, k)) => {
                proof {
                    lemma_parse_digits_advances(s@, j as int, 0);
                }
                if k < s.len() && s[k] == 46 {
                    if k + 1 < s.len() && 48 <= s[k + 1] && s[k + 1] <= 57 {
                        match parse_digits(s, k + 1, m1) {
                            None => None,
                            Some((m2, p)) => {
                                proof {
                                    lemma_parse_digits_advances(s@, k + 1, m1 as int);
                                }
                                parse_exponent(s, p, neg, m2, p - (k + 1))
                            },
                        }
                    } else {
                        None
                    }
                } else {
                    parse_exponent(s, k, neg, m1, 0)
                }
            },
        }
    } else {
        None
    }
}

/// Reads the optional exponent and folds it into the number.
fn parse_exponent(s: &[u8], q: usize, neg: bool, m: u64, flen: usize) -> (r: Option<
    (Json, usize),
>)
    requires
        q <= s@.len(),
    ensures
        match r {
            None => spec_parse_exponent(s@, q as int, neg, m as int, flen as int) is None,
            Some((v, j)) => spec_parse_exponent(s@, q as int, neg, m as int, flen as int) == Some(
                (v@, j as int),
            ) && q <= j <= s@.len(),
        },
{
    if q < s.len() && (s[q] == 101 || s[q] == 69) {
        let exp_neg = q + 1 < s.len() && s[q + 1] == 45;
        let j2 = if q + 1 < s.len() && (s[q + 1] == 45 || s[q + 1] == 43) {
            q + 2
        } else {
            q + 1
        };
        if j2 < s.len() && 48 <= s[j2] && s[j2] <= 57 {
            match parse_digits(s, j2, 0) {
                None => None,
                Some((ev, q2)) => {
                    proof {
                        lemma_parse_digits_advances(s@, j2 as int, 0);
                    }
                    normalize_number(neg, m, flen, exp_neg, ev, q2)
                },
            }
        } else {
            None
        }
    } else {
        if flen <= 19 {
            Some((Json::Num(Number { negative: neg, mantissa: m, scale: flen as u8 }), q))
        } else {
            None
        }
    }
}

/// Folds an explicit exponent into mantissa and scale.
fn normalize_number(neg: bool, m: u64, flen: usize, exp_neg: bool, ev: u64, pos: usize) -> (r:
    Option<(Json, usize)>)
    ensures
        match r {
            None => spec_normalize_number(neg, m as int, flen as int, exp_neg, ev as int, pos as int)
                is None,
            Some((v, j)) => spec_normalize_number(
                neg,
                m as int,
                flen as int,
                exp_neg,
                ev as int,
                pos as int,
            ) == Some((v@, j as int)) && j == pos,
        },
{
    if m == 0 {
        return Some((Json::Num(Number { negative: neg, mantissa: 0, scale: 0 }), pos));
    }
    if exp_neg {
        // The scale grows: representable only up to 19 fraction digits.
        if ev <= 19 && flen <= 19 && flen as u64 + ev <= 19 {
            let net = flen as u64 + ev;
            Some((Json::Num(Number { negative: neg, mantissa: m, scale: net as u8 }), pos))
        } else {
            proof {
                assert(flen as int + ev as int > 19);
            }
            None
        }
    } else {
        if ev <= flen as u64 {
            let net = flen as u64 - ev;
            if net <= 19 {
                Some((Json::Num(Number { negative: neg, mantissa: m, scale: net as u8 }), pos))
            } else {
                None
            }
        } else {
            // The mantissa grows by the exponent surplus.
            if ev - flen as u64 <= 19 {
                let deficit = (ev - flen as u64) as u8;
                let p = pow10_u64(deficit);
                match m.checked_mul(p) {
                    Some(scaled) => {
                        Some((Json::Num(Number { negative: neg, mantissa: scaled, scale: 0 }), pos))
                    },
                    None => None,
                }
            } else {
                proof {
                    lemma_pow10_mono(20, (ev - flen) as nat);
                    reveal_with_fuel(pow10, 21);
                    assert(pow10(20) == 100000000000000000000);
                    assert(m * pow10((ev - flen) as nat) > u64::MAX) by (nonlinear_arith)
                        requires
                            m >= 1,
                            pow10((ev - flen) as nat) >= 100000000000000000000,
                    ;
                }
                None
            }
        }
    }
}

proof fn lemma_parse_digits_advances(s: Seq<u8>, i: int, acc: int)
    requires
        0 <= i < s.len(),
        is_digit(s[i]),
        spec_parse_digits(s, i, acc) is Some,
    ensures
        i < spec_parse_digits(s, i, acc)->Some_0.1,
{
    let d = s[i] - 48;
    lemma_parse_digits_at_least(s, i + 1, acc * 10 + d);
}

proof fn lemma_parse_digits_at_least(s: Seq<u8>, i: int, acc: int)
    requires
        0 <= i <= s.len(),
        spec_parse_digits(s, i, acc) is Some,
    ensures
        i <= spec_parse_digits(s, i, acc)->Some_0.1,
    decreases s.len() - i,
{
    if i < s.len() && is_digit(s[i]) {
        let d = s[i] - 48;
        if acc * 10 + d <= u64::MAX {
            lemma_parse_digits_at_least(s, i + 1, acc * 10 + d);
        }
    }
}

/// The value of one hexadecimal digit byte, or a negative number.
pub open spec fn hex_value(b: u8) -> int {
    if 48 <= b <= 57 {
        b - 48
    } else if 97 <= b <= 102 {
        b - 87
    } else if 65 <= b <= 70 {
        b - 55
    } else {
        -1
    }
}

/// The value of four hexadecimal digits at `i`.
pub open spec fn spec_hex4(s: Seq<u8>, i: int) -> Option<int> {
    if 0 <= i && i + 4 <= s.len() && hex_value(s[i]) >= 0 && hex_value(s[i + 1]) >= 0 && hex_value(
        s[i + 2],
    ) >= 0 && hex_value(s[i + 3]) >= 0 {
        Some(
            hex_value(s[i]) * 4096 + hex_value(s[i + 1]) * 256 + hex_value(s[i + 2]) * 16
                + hex_value(s[i + 3]),
        )
    } else {
        None
    }
}

/// The UTF-8 bytes of one code point.
pub open spec fn spec_utf8_encode(cp: int) -> Seq<u8> {
    if cp < 0x80 {
        seq![cp as u8]
    } else if cp < 0x800 {
        seq![(0xC0 + cp / 64) as u8, (0x80 + cp % 64) as u8]
    } else if cp < 0x10000 {
        seq![(0xE0 + cp / 4096) as u8, (0x80 + (cp / 64) % 64) as u8, (0x80 + cp % 64) as u8]
    } else {
        seq![
            (0xF0 + cp / 262144) as u8,
            (0x80 + (cp / 4096) % 64) as u8,
            (0x80 + (cp / 64) % 64) as u8,
            (0x80 + cp % 64) as u8,
        ]
    }
}

/// The remainder of a string token: the bytes after position `i`, with
/// escapes resolved, up to the closing quote. `\u` escapes are not accepted.
pub open spec fn spec_parse_string(s: Seq<u8>, i: int, acc: Seq<u8>) -> Option<(Seq<u8>, int)>
    decreases s.len() - i,
{
    if !(0 <= i < s.len()) {
        None
    } else if s[i] == 34 {
        Some((acc, i + 1))
    } else if s[i] == 92 {
        if i + 1 < s.len() {
            let e = s[i + 1];
            if e == 34 || e == 92 || e == 47 {
                spec_parse_string(s, i + 2, acc.push(e))
            } else if e == 110 {
                spec_parse_string(s, i + 2, acc.push(10))
            } else if e == 116 {
                spec_parse_string(s, i + 2, acc.push(9))
            } else if e == 114 {
                spec_parse_string(s, i + 2, acc.push(13))
            } else if e == 98 {
                spec_parse_string(s, i + 2, acc.push(8))
            } else if e == 102 {
                spec_parse_string(s, i + 2, acc.push(12))
            } else if e == 117 {
                match spec_hex4(s, i + 2) {
                    None => None,
                    Some(cp1) => if 0xD800 <= cp1 <= 0xDBFF {
                        if i + 7 < s.len() && s[i + 6] == 92 && s[i + 7] == 117 {
                            match spec_hex4(s, i + 8) {
                                None => None,
                                Some(cp2) => if 0xDC00 <= cp2 <= 0xDFFF && i + 12 <= s.len() {
                                    spec_parse_string(
                                        s,
                                        i + 12,
                                        acc + spec_utf8_encode(
                                            0x10000 + (cp1 - 0xD800) * 0x400 + (cp2 - 0xDC00),
                                        ),
                                    )
                                } else {
                                    None
                                },
                            }
                        } else {
                            None
                        }
                    } else if 0xDC00 <= cp1 <= 0xDFFF {
                        None
                    } else if i + 6 <= s.len() {
                        spec_parse_string(s, i + 6, acc + spec_utf8_encode(cp1))
                    } else {
                        None
                    },
                }
            } else {
                None
            }
        } else {
            None
        }
    } else {
        spec_parse_string(s, i + 1, acc.push(s[i]))
    }
}

/// Reads four hexadecimal digits.
fn hex4(s: &[u8], i: usize) -> (r: Option<u32>)
    ensures
        match r {
            None => spec_hex4(s@, i as int) is None,
            Some(v) => spec_hex4(s@, i as int) == Some(v as int) && v < 0x10000,
        },
{
    let n = s.len();
    if i < n && n - i >= 4 {
        let mut value: u32 = 0;
        let mut k: usize = 0;
        while k < 4
            invariant
                k <= 4,
                n == s@.len(),
                i + 4 <= n,
                k == 0 ==> value == 0,
                k == 1 ==> value < 16,
                k == 2 ==> value < 256,
                k == 3 ==> value < 4096,
                k == 4 ==> value < 65536,
                forall|t: int| 0 <= t < k ==> hex_value(#[trigger] s@[i + t]) >= 0,
                value == spec_hex_prefix(s@, i as int, k as int),
            decreases 4 - k,
        {
            let b = s[i + k];
            let d: u32 = if 48 <= b && b <= 57 {
                (b - 48) as u32
            } else if 97 <= b && b <= 102 {
                (b - 87) as u32
            } else if 65 <= b && b <= 70 {
                (b - 55) as u32
            } else {
                return None;
            };
            value = value * 16 + d;
            k += 1;
        }
        proof {
            reveal_with_fuel(spec_hex_prefix, 6);
            assert(spec_hex_prefix(s@, i as int, 4) == hex_value(s@[i as int]) * 4096 + hex_value(
                s@[i as int + 1],
            ) * 256 + hex_value(s@[i as int + 2]) * 16 + hex_value(s@[i as int + 3]));
        }
        Some(value)
    } else {
        None
    }
}

/// The value of the first `k` hexadecimal digits at `i`.
pub open spec fn spec_hex_prefix(s: Seq<u8>, i: int, k: int) -> int
    decreases k,
{
    if k <= 0 {
        0
    } else {
        spec_hex_prefix(s, i, k - 1) * 16 + hex_value(s[i + k - 1])
    }
}

/// Appends the UTF-8 bytes of one code point.
fn push_utf8(cp: u32, out: &mut Vec<u8>)
    requires
        cp < 0x110000,
    ensures
        final(out)@ == old(out)@ + spec_utf8_encode(cp as int),
{
    if cp < 0x80 {
        out.push(cp as u8);
    } else if cp < 0x800 {
        out.push((0xC0 + cp / 64) as u8);
        out.push((0x80 + cp % 64) as u8);
    } else if cp < 0x10000 {
        out.push((0xE0 + cp / 4096) as u8);
        out.push((0x80 + (cp / 64) % 64) as u8);
        out.push((0x80 + cp % 64) as u8);
    } else {
        out.push((0xF0 + cp / 262144) as u8);
        out.push((0x80 + (cp / 4096) % 64) as u8);
        out.push((0x80 + (cp / 64) % 64) as u8);
        out.push((0x80 + cp % 64) as u8);
    }
    proof {
        assert(final(out)@ =~= old(out)@ + spec_utf8_encode(cp as int));
    }
}

/// Parses the remainder of a string token, `i` pointing just after the
/// opening quote.
fn parse_string_body(s: &[u8], i: usize) -> (r: Option<(Vec<u8>, usize)>)
    requires
        i <= s@.len(),
    ensures
        match r {
            None => spec_parse_string(s@, i as int, Seq::empty()) is None,
            Some((v, j)) => spec_parse_string(s@, i as int, Seq::empty()) == Some(
                (v@, j as int),
            ) && i < j <= s@.len(),
        },
{
    let mut acc: Vec<u8> = Vec::new();
    let mut p = i;
    loop
        invariant
            i <= p <= s@.len(),
            spec_parse_string(s@, i as int, Seq::empty()) == spec_parse_string(
                s@,
                p as int,
                acc@,
            ),
        decreases s@.len() - p,
    {
        if p >= s.len() {
            return None;
        }
        let b = s[p];
        if b == 34 {
            return Some((acc, p + 1));
        } else if b == 92 {
            if p + 1 < s.len() {
                let e = s[p + 1];
                if e == 117 {
                    let cp1 = match hex4(s, p + 2) {
                        Some(v) => v,
                        None => {
                            return None;
                        },
                    };
                    if 0xD800 <= cp1 && cp1 <= 0xDBFF {
                        if s.len() - p > 7 && s[p + 6] == 92 && s[p + 7] == 117 {
                            let cp2 = match hex4(s, p + 8) {
                                Some(v) => v,
                                None => {
                                    return None;
                                },
                            };
                            if 0xDC00 <= cp2 && cp2 <= 0xDFFF {
                                let cp = 0x10000 + (cp1 - 0xD800) * 0x400 + (cp2 - 0xDC00);
                                push_utf8(cp, &mut acc);
                                p = p + 12;
                            } else {
                                return None;
                            }
                        } else {
                            return None;
                        }
                    } else if 0xDC00 <= cp1 && cp1 <= 0xDFFF {
                        return None;
                    } else {
                        push_utf8(cp1, &mut acc);
                        p = p + 6;
                    }
                } else {
                    let unescaped: u8 = if e == 34 || e == 92 || e == 47 {
                        e
                    } else if e == 110 {
                        10
                    } else if e == 116 {
                        9
                    } else if e == 114 {
                        13
                    } else if e == 98 {
                        8
                    } else if e == 102 {
                        12
                    } else {
                        return None;
                    };
                    acc.push(unescaped);
                    p = p + 2;
                }
            } else {
                return None;
            }
        } else {
            acc.push(b);
            p = p + 1;
        }
    }
}

/// One JSON value starting at `i`, which must not be whitespace; `depth`
/// bounds how deep arrays and objects may nest.
pub open spec fn spec_parse_value(s: Seq<u8>, i: int, depth: int) -> Option<(JsonSpec, int)>
    decreases s.len() - i, 1int,
{
    if !(0 <= i < s.len()) {
        None
    } else {
        let b = s[i];
        if b == 110 {
            if i + 4 <= s.len() && s[i + 1] == 117 && s[i + 2] == 108 && s[i + 3] == 108 {
                Some((JsonSpec::Null, i + 4))
            } else {
                None
            }
        } else if b == 116 {
            if i + 4 <= s.len() && s[i + 1] == 114 && s[i + 2] == 117 && s[i + 3] == 101 {
                Some((JsonSpec::Bool(true), i + 4))
            } else {
                None
            }
        } else if b == 102 {
            if i + 5 <= s.len() && s[i + 1] == 97 && s[i + 2] == 108 && s[i + 3] == 115 && s[i + 4]
                == 101 {
                Some((JsonSpec::Bool(false), i + 5))
            } else {
                None
            }
        } else if b == 34 {
            match spec_parse_string(s, i + 1, Seq::empty()) {
                None => None,
                Some((txt, j)) => Some((JsonSpec::Str(txt), j)),
            }
        } else if b == 45 || is_digit(b) {
            spec_parse_number(s, i)
        } else if b == 91 {
            if depth <= 0 {
                None
            } else {
                let j = spec_skip_ws(s, i + 1);
                if j < s.len() && s[j] == 93 {
                    Some((JsonSpec::Arr(Seq::empty()), j + 1))
                } else if i + 1 <= j <= s.len() {
                    spec_parse_elems(s, j, Seq::empty(), depth - 1)
                } else {
                    None
                }
            }
        } else if b == 123 {
            if depth <= 0 {
                None
            } else {
                let j = spec_skip_ws(s, i + 1);
                if j < s.len() && s[j] == 125 {
                    Some((JsonSpec::Obj(Seq::empty()), j + 1))
                } else if i + 1 <= j <= s.len() {
                    spec_parse_members(s, j, Seq::empty(), depth - 1)
                } else {
                    None
                }
            }
        } else {
            None
        }
    }
}

/// The elements of an array from position `i` on, the first value starting
/// right at `i`; `acc` holds the elements already read.
pub open spec fn spec_parse_elems(s: Seq<u8>, i: int, acc: Seq<JsonSpec>, depth: int) -> Option<
    (JsonSpec, int),
>
    decreases s.len() - i, 2int,
{
    if !(0 <= i <= s.len()) {
        None
    } else {
        match spec_parse_value(s, i, depth) {
            None => None,
            Some((v, j)) => if !(i < j <= s.len()) {
                None
            } else {
                let k = spec_skip_ws(s, j);
                if !(j <= k <= s.len()) {
                    None
                } else if k < s.len() && s[k] == 44 {
                    let m = spec_skip_ws(s, k + 1);
                    if k + 1 <= m <= s.len() {
                        spec_parse_elems(s, m, acc.push(v), depth)
                    } else {
                        None
                    }
                } else if k < s.len() && s[k] == 93 {
                    Some((JsonSpec::Arr(acc.push(v)), k + 1))
                } else {
                    None
                }
            },
        }
    }
}

/// The members of an object from position `i` on, the first key starting
/// right at `i`; `acc` holds the members already read.
pub open spec fn spec_parse_members(
    s: Seq<u8>,
    i: int,
    acc: Seq<(Seq<u8>, JsonSpec)>,
    depth: int,
) -> Option<(JsonSpec, int)>
    decreases s.len() - i, 2int,
{
    if !(0 <= i < s.len() && s[i] == 34) {
        None
    } else {
        match spec_parse_string(s, i + 1, Seq::empty()) {
            None => None,
            Some((key, j)) => if !(i < j <= s.len()) {
                None
            } else {
                let c = spec_skip_ws(s, j);
                if !(j <= c <= s.len()) {
                    None
                } else if c < s.len() && s[c] == 58 {
                    let m = spec_skip_ws(s, c + 1);
                    if c < m <= s.len() {
                        match spec_parse_value(s, m, depth) {
                            None => None,
                            Some((v, p)) => if !(m < p <= s.len()) {
                                None
                            } else {
                                let k = spec_skip_ws(s, p);
                                if !(p <= k <= s.len()) {
                                    None
                                } else if k < s.len() && s[k] == 44 {
                                    let n = spec_skip_ws(s, k + 1);
                                    if k + 1 <= n <= s.len() {
                                        spec_parse_members(s, n, acc.push((key, v)), depth)
                                    } else {
                                        None
                                    }
                                } else if k < s.len() && s[k] == 125 {
                                    Some((JsonSpec::Obj(acc.push((key, v))), k + 1))
                                } else {
                                    None
                                }
                            },
                        }
                    } else {
                        None
                    }
                } else {
                    None
                }
            },
        }
    }
}

proof fn lemma_json_view_elems_push(els: Seq<Json>, x: Json)
    ensures
        json_view_elems(els.push(x), 0) == json_view_elems(els, 0).push(json_view(x)),
{
    lemma_json_view_elems_push_from(els, x, 0);
}

proof fn lemma_json_view_elems_push_from(els: Seq<Json>, x: Json, i: int)
    requires
        0 <= i <= els.len(),
    ensures
        json_view_elems(els.push(x), i) == json_view_elems(els, i).push(json_view(x)),
    decreases els.len() - i,
{
    reveal_with_fuel(json_view_elems, 3);
    if i == els.len() {
        assert(json_view_elems(els.push(x), i) =~= json_view_elems(els, i).push(json_view(x)));
    } else {
        lemma_json_view_elems_push_from(els, x, i + 1);
        assert(els.push(x)[i] == els[i]);
        assert(json_view_elems(els.push(x), i) =~= json_view_elems(els, i).push(json_view(x)));
    }
}

proof fn lemma_json_view_members_push(ms: Seq<(Vec<u8>, Json)>, key: Vec<u8>, x: Json)
    ensures
        json_view_members(ms.push((key, x)), 0) == json_view_members(ms, 0).push(
            (key@, json_view(x)),
        ),
{
    lemma_json_view_members_push_from(ms, key, x, 0);
}

proof fn lemma_json_view_members_push_from(ms: Seq<(Vec<u8>, Json)>, key: Vec<u8>, x: Json, i: int)
    requires
        0 <= i <= ms.len(),
    ensures
        json_view_members(ms.push((key, x)), i) == json_view_members(ms, i).push(
            (key@, json_view(x)),
        ),
    decreases ms.len() - i,
{
    reveal_with_fuel(json_view_members, 3);
    if i == ms.len() {
        assert(json_view_members(ms.push((key, x)), i) =~= json_view_members(ms, i).push(
            (key@, json_view(x)),
        ));
    } else {
        lemma_json_view_members_push_from(ms, key, x, i + 1);
        assert(ms.push((key, x))[i] == ms[i]);
        assert(json_view_members(ms.push((key, x)), i) =~= json_view_members(ms, i).push(
            (key@, json_view(x)),
        ));
    }
}

/// Parses one value starting at the non-whitespace position `i`.
fn parse_value(s: &[u8], i: usize, depth: u32) -> (r: Option<(Json, usize)>)
    requires
        i <= s@.len(),
    ensures
        match r {
            None => spec_parse_value(s@, i as int, depth as int) is None,
            Some((v, j)) => spec_parse_value(s@, i as int, depth as int) == Some(
                (v@, j as int),
            ) && i < j <= s@.len(),
        },
    decreases s@.len() - i,
{
    if i >= s.len() {
        return None;
    }
    let b = s[i];
    if b == 110 {
        if s.len() - i >= 4 && s[i + 1] == 117 && s[i + 2] == 108 && s[i + 3] == 108 {
            Some((Json::Null, i + 4))
        } else {
            None
        }
    } else if b == 116 {
        if s.len() - i >= 4 && s[i + 1] == 114 && s[i + 2] == 117 && s[i + 3] == 101 {
            Some((Json::Bool(true), i + 4))
        } else {
            None
        }
    } else if b == 102 {
        if s.len() - i >= 5 && s[i + 1] == 97 && s[i + 2] == 108 && s[i + 3] == 115 && s[i + 4]
            == 101 {
            Some((Json::Bool(false), i + 5))
        } else {
            None
        }
    } else if b == 34 {
        match parse_string_body(s, i + 1) {
            None => None,
            Some((txt, j)) => Some((Json::Str(txt), j)),
        }
    } else if b == 45 || (48 <= b && b <= 57) {
        parse_number(s, i)
    } else if b == 91 {
        if depth == 0 {
            return None;
        }
        let j = skip_ws(s, i + 1);
        if j < s.len() && s[j] == 93 {
            proof {
                lemma_json_view_elems(Seq::<Json>::empty(), 0);
                assert(json_view_elems(Seq::<Json>::empty(), 0) =~= Seq::<JsonSpec>::empty());
            }
            return Some((Json::Arr(Vec::new()), j + 1));
        }
        let ghost start = j;
        let mut acc: Vec<Json> = Vec::new();
        let mut pos = j;
        proof {
            lemma_json_view_elems(Seq::<Json>::empty(), 0);
            assert(json_view_elems(acc@, 0) =~= Seq::<JsonSpec>::empty());
        }
        loop
            invariant
                i < pos <= s@.len(),
                start <= pos,
                depth >= 1,
                spec_parse_value(s@, i as int, depth as int) == spec_parse_elems(
                    s@,
                    pos as int,
                    json_view_elems(acc@, 0),
                    depth as int - 1,
                ),
            decreases s@.len() - pos,
        {
            match parse_value(s, pos, depth - 1) {
                None => {
                    return None;
                },
                Some((v, j2)) => {
                    let k = skip_ws(s, j2);
                    if k < s.len() && s[k] == 44 {
                        let m = skip_ws(s, k + 1);
                        proof {
                            lemma_json_view_elems_push(acc@, v);
                        }
                        acc.push(v);
                        pos = m;
                    } else if k < s.len() && s[k] == 93 {
                        proof {
                            lemma_json_view_elems_push(acc@, v);
                        }
                        acc.push(v);
                        return Some((Json::Arr(acc), k + 1));
                    } else {
                        return None;
                    }
                },
            }
        }
    } else if b == 123 {
        if depth == 0 {
            return None;
        }
        let j = skip_ws(s, i + 1);
        if j < s.len() && s[j] == 125 {
            proof {
                lemma_json_view_members(Seq::<(Vec<u8>, Json)>::empty(), 0);
                assert(json_view_members(Seq::<(Vec<u8>, Json)>::empty(), 0) =~= Seq::<
                    (Seq<u8>, JsonSpec),
                >::empty());
            }
            return Some((Json::Obj(Vec::new()), j + 1));
        }
        let ghost start = j;
        let mut acc: Vec<(Vec<u8>, Json)> = Vec::new();
        let mut pos = j;
        proof {
            lemma_json_view_members(Seq::<(Vec<u8>, Json)>::empty(), 0);
            assert(json_view_members(acc@, 0) =~= Seq::<(Seq<u8>, JsonSpec)>::empty());
        }
        loop
            invariant
                i < pos <= s@.len(),
                start <= pos,
                depth >= 1,
                spec_parse_value(s@, i as int, depth as int) == spec_parse_members(
                    s@,
                    pos as int,
                    json_view_members(acc@, 0),
                    depth as int - 1,
                ),
            decreases s@.len() - pos,
        {
            if !(pos < s.len() && s[pos] == 34) {
                return None;
            }
            match parse_string_body(s, pos + 1) {
                None => {
                    return None;
                },
                Some((key, j2)) => {
                    let c = skip_ws(s, j2);
                    if !(c < s.len() && s[c] == 58) {
                        return None;
                    }
                    let m = skip_ws(s, c + 1);
                    match parse_value(s, m, depth - 1) {
                        None => {
                            return None;
                        },
                        Some((v, p)) => {
                            let k = skip_ws(s, p);
                            if k < s.len() && s[k] == 44 {
                                let n = skip_ws(s, k + 1);
                                proof {
                                    lemma_json_view_members_push(acc@, key, v);
                                }
                                acc.push((key, v));
                                pos = n;
                            } else if k < s.len() && s[k] == 125 {
                                proof {
                                    lemma_json_view_members_push(acc@, key, v);
                                }
                                acc.push((key, v));
                                return Some((Json::Obj(acc), k + 1));
                            } else {
                                return None;
                            }
                        },
                    }
                },
            }
        }
    } else {
        None
    }
}

/// The nesting depth the parser accepts.
pub open spec fn parse_depth() -> int {
    128
}

/// The parse of a whole body: one value surrounded by whitespace.
pub open spec fn spec_parse_json(s: Seq<u8>) -> Option<JsonSpec> {
    let i = spec_skip_ws(s, 0);
    match spec_parse_value(s, i, parse_depth()) {
        None => None,
        Some((v, j)) => {
            let k = spec_skip_ws(s, j);
            if k == s.len() {
                Some(v)
            } else {
                None
            }
        },
    }
}

/// Parses a whole body as one JSON value.
pub fn parse_json(s: &[u8]) -> (r: Option<Json>)
    ensures
        match r {
            None => spec_parse_json(s@) is None,
            Some(v) => spec_parse_json(s@) == Some(v@),
        },
{
    let i = skip_ws(s, 0);
    match parse_value(s, i, 128) {
        None => None,
        Some((v, j)) => {
            let k = skip_ws(s, j);
            if k == s.len() {
                Some(v)
            } else {
                None
            }
        },
    }
}

// ---------------------------------------------------------------------------
// Lookup and conversions
// ---------------------------------------------------------------------------

/// The value of the first member named `key`, if any.
pub open spec fn spec_obj_get(ms: Seq<(Seq<u8>, JsonSpec)>, key: Seq<u8>) -> Option<JsonSpec> {
    spec_obj_get_from(ms, key, 0)
}

pub open spec fn spec_obj_get_from(ms: Seq<(Seq<u8>, JsonSpec)>, key: Seq<u8>, i: int) -> Option<
    JsonSpec,
>
    decreases ms.len() - i,
{
    if !(0 <= i < ms.len()) {
        None
    } else if ms[i].0 == key {
        Some(ms[i].1)
    } else {
        spec_obj_get_from(ms, key, i + 1)
    }
}

/// Compares two byte slices for equality.
pub fn bytes_eq(a: &[u8], b: &[u8]) -> (r: bool)
    ensures
        r == (a@ == b@),
{
    if a.len() != b.len() {
        proof {
            assert(a@ != b@);
        }
        return false;
    }
    let mut i: usize = 0;
    while i < a.len()
        invariant
            i <= a.len(),
            a@.len() == b@.len(),
            forall|k: int| 0 <= k < i ==> a@[k] == b@[k],
        decreases a.len() - i,
    {
        if a[i] != b[i] {
            proof {
                assert(a@[i as int] != b@[i as int]);
            }
            return false;
        }
        i += 1;
    }
    proof {
        assert(a@ =~= b@);
    }
    true
}

/// Looks up the first member named `key` in an object's member list.
pub fn obj_get<'a>(ms: &'a Vec<(Vec<u8>, Json)>, key: &[u8]) -> (r: Option<&'a Json>)
    ensures
        match r {
            None => spec_obj_get(json_view_members(ms@, 0), key@) is None,
            Some(v) => spec_obj_get(json_view_members(ms@, 0), key@) == Some(v@),
        },
{
    proof {
        lemma_json_view_elems(Seq::<Json>::empty(), 0);
        lemma_json_view_members(ms@, 0);
    }
    let ghost vms = json_view_members(ms@, 0);
    let mut i: usize = 0;
    while i < ms.len()
        invariant
            i <= ms.len(),
            vms == json_view_members(ms@, 0),
            vms.len() == ms@.len(),
            forall|k: int| 0 <= k < ms@.len() ==> vms[k] == (ms@[k].0@, json_view(ms@[k].1)),
            spec_obj_get_from(vms, key@, 0) == spec_obj_get_from(vms, key@, i as int),
        decreases ms.len() - i,
    {
        if bytes_eq(ms[i].0.as_slice(), key) {
            return Some(&ms[i].1);
        }
        i += 1;
    }
    None
}

/// The member value as an unsigned 32-bit integer: a non-negative number
/// without a fraction that fits.
pub open spec fn spec_num_u32(v: JsonSpec) -> Option<u32> {
    match v {
        JsonSpec::Num(n) => if !n.negative && n.scale == 0 && n.mantissa <= u32::MAX {
            Some(n.mantissa as u32)
        } else {
            None
        },
        _ => None,
    }
}

/// Reads the value as an unsigned 32-bit integer if it is one.
pub fn num_u32(v: &Json) -> (r: Option<u32>)
    ensures
        r == spec_num_u32(v@),
{
    match v {
        Json::Num(n) => {
            if !n.negative && n.scale == 0 && n.mantissa <= 0xffff_ffff {
                Some(n.mantissa as u32)
            } else {
                None
            }
        },
        _ => None,
    }
}

// ---------------------------------------------------------------------------
// Round-trip lemmas: parsing what the writer produced
// ---------------------------------------------------------------------------

/// The numeric value of a digit run, highest digit first.
pub open spec fn digit_seq_value(ds: Seq<u8>) -> int
    decreases ds.len(),
{
    if ds.len() == 0 {
        0
    } else {
        (ds[0] - 48) * pow10((ds.len() - 1) as nat) + digit_seq_value(ds.drop_first())
    }
}

proof fn lemma_digit_seq_value_push(ds: Seq<u8>, d: u8)
    requires
        forall|k: int| 0 <= k < ds.len() ==> is_digit(#[trigger] ds[k]),
        is_digit(d),
    ensures
        digit_seq_value(ds.push(d)) == digit_seq_value(ds) * 10 + (d - 48),
        digit_seq_value(ds) >= 0,
    decreases ds.len(),
{
    reveal_with_fuel(digit_seq_value, 3);
    reveal_with_fuel(pow10, 2);
    lemma_digit_value_bounds(ds);
    if ds.len() == 0 {
        assert(pow10(0) == 1);
        assert(ds.push(d).len() == 1);
        assert(ds.push(d)[0] == d);
        assert(ds.push(d).drop_first() =~= Seq::<u8>::empty());
        assert(digit_seq_value(Seq::<u8>::empty()) == 0);
        assert(digit_seq_value(ds.push(d)) == (d - 48) * pow10(0) + digit_seq_value(
            ds.push(d).drop_first(),
        ));
        assert(digit_seq_value(ds.push(d)) == digit_seq_value(ds) * 10 + (d - 48));
    } else {
        assert(ds.push(d).drop_first() =~= ds.drop_first().push(d));
        lemma_digit_seq_value_push(ds.drop_first(), d);
        assert(ds.push(d)[0] == ds[0]);
        let c = (ds[0] - 48) as int;
        let len1 = (ds.len() - 1) as nat;
        assert(pow10((len1 + 1) as nat) == 10 * pow10(len1));
        assert(c * pow10((len1 + 1) as nat) == (c * pow10(len1)) * 10) by (nonlinear_arith)
            requires
                pow10((len1 + 1) as nat) == 10 * pow10(len1),
        ;
        assert(digit_seq_value(ds.push(d)) == c * pow10((len1 + 1) as nat) + (digit_seq_value(
            ds.drop_first(),
        ) * 10 + (d - 48)));
        assert(digit_seq_value(ds) == c * pow10(len1) + digit_seq_value(ds.drop_first()));
        assert(digit_seq_value(ds.push(d)) == digit_seq_value(ds) * 10 + (d - 48));
    }
}

/// The digits of `n` are digits, start without content only for zero, and
/// denote `n`.
proof fn lemma_spec_digits_value(n: nat)
    ensures
        spec_digits(n).len() >= 1,
        forall|k: int| 0 <= k < spec_digits(n).len() ==> is_digit(#[trigger] spec_digits(n)[k]),
        digit_seq_value(spec_digits(n)) == n,
    decreases n,
{
    reveal_with_fuel(digit_seq_value, 3);
    reveal_with_fuel(pow10, 2);
    if n < 10 {
        assert(pow10(0) == 1);
        assert(spec_digits(n).len() == 1);
        assert(spec_digits(n)[0] == (n + 48) as u8);
        assert(spec_digits(n).drop_first() =~= Seq::<u8>::empty());
        assert(digit_seq_value(Seq::<u8>::empty()) == 0);
        assert(digit_seq_value(spec_digits(n)) == (((n + 48) as u8) - 48) * pow10(0)
            + digit_seq_value(spec_digits(n).drop_first()));
        assert(((n + 48) as u8) - 48 == n);
    } else {
        lemma_spec_digits_value(n / 10);
        lemma_digit_seq_value_push(spec_digits(n / 10), ((n % 10) + 48) as u8);
        assert((((n % 10) + 48) as u8) - 48 == n % 10);
        assert((n / 10) * 10 + n % 10 == n);
    }
}

/// The padded digits of `n` are `width` digits denoting `n % 10^width`.
proof fn lemma_spec_padded_value(n: nat, width: nat)
    ensures
        spec_padded_digits(n, width).len() == width,
        forall|k: int|
            0 <= k < width ==> is_digit(#[trigger] spec_padded_digits(n, width)[k]),
        digit_seq_value(spec_padded_digits(n, width)) == n % pow10(width),
    decreases width,
{
    reveal_with_fuel(digit_seq_value, 3);
    reveal_with_fuel(pow10, 2);
    if width == 0 {
        assert(pow10(0) == 1);
        assert(spec_padded_digits(n, width) =~= Seq::<u8>::empty());
    } else {
        lemma_spec_padded_value(n / 10, (width - 1) as nat);
        lemma_digit_seq_value_push(
            spec_padded_digits(n / 10, (width - 1) as nat),
            ((n % 10) + 48) as u8,
        );
        lemma_pow10_pos((width - 1) as nat);
        vstd::arithmetic::div_mod::lemma_breakdown(
            n as int,
            10,
            pow10((width - 1) as nat) as int,
        );
        assert(pow10(width) == 10 * pow10((width - 1) as nat));
        assert((((n % 10) + 48) as u8) - 48 == n % 10);
    }
}

/// Parsing a run of digits that stands verbatim in `s` folds its value onto
/// `acc`.
proof fn lemma_parse_digit_run(s: Seq<u8>, i: int, acc: int, ds: Seq<u8>)
    requires
        0 <= i,
        i + ds.len() <= s.len(),
        forall|k: int| 0 <= k < ds.len() ==> s[i + k] == #[trigger] ds[k],
        forall|k: int| 0 <= k < ds.len() ==> is_digit(#[trigger] ds[k]),
        i + ds.len() == s.len() || !is_digit(s[i + ds.len()]),
        0 <= acc,
        acc * pow10(ds.len() as nat) + digit_seq_value(ds) <= u64::MAX,
    ensures
        spec_parse_digits(s, i, acc) == Some((acc * pow10(ds.len() as nat) + digit_seq_value(ds), i + ds.len())),
    decreases ds.len(),
{
    reveal_with_fuel(digit_seq_value, 3);
    reveal_with_fuel(pow10, 2);
    lemma_digit_value_bounds(ds);
    if ds.len() == 0 {
        assert(pow10(0) == 1);
        assert(digit_seq_value(ds) == 0);
        assert(spec_parse_digits(s, i, acc) == Some((acc, i)));
        assert(acc * pow10(0) == acc) by (nonlinear_arith)
            requires
                pow10(0) == 1,
        ;
        assert(spec_parse_digits(s, i, acc) == Some((acc * pow10(ds.len() as nat)
            + digit_seq_value(ds), i + ds.len())));
    } else {
        let d = (ds[0] - 48) as int;
        let rest = ds.drop_first();
        assert(digit_seq_value(ds) == d * pow10(rest.len() as nat) + digit_seq_value(rest));
        lemma_digit_value_bounds(rest);
        lemma_pow10_pos((ds.len() - 1) as nat);
        assert(pow10(ds.len() as nat) == 10 * pow10((ds.len() - 1) as nat));
        assert((acc * 10 + d) * pow10((ds.len() - 1) as nat) == acc * pow10(ds.len() as nat) + d
            * pow10((ds.len() - 1) as nat)) by (nonlinear_arith)
            requires
                pow10(ds.len() as nat) == 10 * pow10((ds.len() - 1) as nat),
        ;
        assert(digit_seq_value(ds) == d * pow10((ds.len() - 1) as nat) + digit_seq_value(rest));
        assert(acc * 10 + d <= (acc * 10 + d) * pow10((ds.len() - 1) as nat)) by (nonlinear_arith)
            requires
                pow10((ds.len() - 1) as nat) >= 1,
                0 <= acc,
                0 <= d,
        ;
        assert(0 <= digit_seq_value(rest));
        assert(s[i] == ds[0]);
        assert(is_digit(s[i]));
        assert forall|k: int| 0 <= k < rest.len() implies s[i + 1 + k] == #[trigger] rest[k] by {
            assert(rest[k] == ds[k + 1]);
            assert(s[i + (k + 1)] == ds[k + 1]);
        }
        assert(acc * 10 + d <= u64::MAX);
        lemma_parse_digit_run(s, i + 1, acc * 10 + d, rest);
        assert((acc * 10 + d) * pow10(rest.len() as nat) + digit_seq_value(rest) == acc * pow10(
            ds.len() as nat,
        ) + digit_seq_value(ds));
        assert(spec_parse_digits(s, i, acc) == spec_parse_digits(s, i + 1, acc * 10 + d));
        assert(spec_parse_digits(s, i, acc) == Some((acc * pow10(ds.len() as nat)
            + digit_seq_value(ds), i + ds.len())));
    }
}

proof fn lemma_digit_value_bounds(ds: Seq<u8>)
    requires
        forall|k: int| 0 <= k < ds.len() ==> is_digit(#[trigger] ds[k]),
    ensures
        0 <= digit_seq_value(ds),
    decreases ds.len(),
{
    if ds.len() > 0 {
        lemma_digit_value_bounds(ds.drop_first());
        lemma_pow10_pos((ds.len() - 1) as nat);
        assert((ds[0] - 48) * pow10((ds.len() - 1) as nat) >= 0) by (nonlinear_arith)
            requires
                pow10((ds.len() - 1) as nat) >= 1,
                0 <= ds[0] - 48,
        ;
    }
}

/// Parsing a number token that the writer produced yields the number back;
/// the byte after the token must neither be a digit nor a decimal point.
#[verifier::rlimit(60)]
proof fn lemma_parse_written_number(s: Seq<u8>, i: int, num: Number)
    requires
        number_wf(num),
        0 <= i,
        i + spec_write_number(num).len() <= s.len(),
        forall|k: int|
            0 <= k < spec_write_number(num).len() ==> s[i + k] == #[trigger] spec_write_number(
                num,
            )[k],
        i + spec_write_number(num).len() == s.len() || (!is_digit(
            s[i + spec_write_number(num).len()],
        ) && s[i + spec_write_number(num).len()] != 46 && s[i + spec_write_number(num).len()]
            != 101 && s[i + spec_write_number(num).len()] != 69),
    ensures
        spec_parse_number(s, i) == Some((JsonSpec::Num(num), i + spec_write_number(num).len())),
{
    let w = spec_write_number(num);
    let m = num.mantissa as nat;
    let sign: Seq<u8> = if num.negative {
        seq![45u8]
    } else {
        Seq::empty()
    };
    let j = i + sign.len();
    lemma_spec_digits_value(m);
    if num.scale == 0 {
        let ds = spec_digits(m);
        assert(w =~= sign + ds);
        assert forall|k: int| 0 <= k < ds.len() implies s[j + k] == #[trigger] ds[k] by {
            assert(w[(j - i) + k] == ds[k]);
            assert(s[i + ((j - i) + k)] == w[(j - i) + k]);
        }
        assert(pow10(ds.len() as nat) >= 1) by {
            lemma_pow10_pos(ds.len() as nat);
        }
        lemma_parse_digit_run(s, j, 0, ds);
        assert(s[j] == ds[0]);
        assert(spec_parse_exponent(s, i + w.len(), num.negative, num.mantissa as int, 0) == Some(
            (JsonSpec::Num(num), i + w.len()),
        ));
        if num.negative {
            assert(w[0] == 45);
            assert(s[i + 0] == w[0]);
            assert(s[i] == 45);
        } else {
            assert(w[0] == ds[0]);
            assert(s[i + 0] == w[0]);
            assert(is_digit(s[i]));
            assert(s[i] != 45);
        }
    } else {
        let p = pow10(num.scale as nat);
        lemma_pow10_pos(num.scale as nat);
        let int_digits = spec_digits(m / p);
        let frac_digits = spec_padded_digits(m, num.scale as nat);
        lemma_spec_digits_value(m / p);
        lemma_spec_padded_value(m, num.scale as nat);
        assert(w =~= sign + int_digits + seq![46u8] + frac_digits);
        assert forall|k: int| 0 <= k < int_digits.len() implies s[j + k]
            == #[trigger] int_digits[k] by {
            assert(w[(j - i) + k] == int_digits[k]);
            assert(s[i + ((j - i) + k)] == w[(j - i) + k]);
        }
        let dot = j + int_digits.len();
        assert(w[(dot - i)] == 46);
        assert(s[i + (dot - i)] == w[(dot - i)]);
        assert(s[dot] == 46);
        assert(!is_digit(46));
        lemma_parse_digit_run(s, j, 0, int_digits);
        assert(spec_parse_digits(s, j, 0) == Some(((m / p) as int, dot)));
        let fstart = dot + 1;
        assert forall|k: int| 0 <= k < frac_digits.len() implies s[fstart + k]
            == #[trigger] frac_digits[k] by {
            assert(w[(fstart - i) + k] == frac_digits[k]);
            assert(s[i + ((fstart - i) + k)] == w[(fstart - i) + k]);
        }
        assert((m / p) * pow10(num.scale as nat) + m % pow10(num.scale as nat) == m)
            by (nonlinear_arith)
            requires
                pow10(num.scale as nat) >= 1,
                p == pow10(num.scale as nat),
        ;
        lemma_parse_digit_run(s, fstart, (m / p) as int, frac_digits);
        assert(is_digit(s[fstart]));
        assert(fstart + frac_digits.len() == i + w.len());
        assert(fstart + frac_digits.len() - fstart == num.scale as int);
        assert(spec_parse_exponent(s, i + w.len(), num.negative, num.mantissa as int,
            num.scale as int) == Some((JsonSpec::Num(num), i + w.len())));
        assert(s[j] == int_digits[0]);
        if num.negative {
            assert(w[0] == 45);
            assert(s[i + 0] == w[0]);
            assert(s[i] == 45);
        } else {
            assert(w[0] == int_digits[0]);
            assert(s[i + 0] == w[0]);
            assert(is_digit(s[i]));
            assert(s[i] != 45);
        }
    }
}


/// A byte the writer passes through unescaped.
pub open spec fn plain_byte(b: u8) -> bool {
    b >= 32 && b != 34 && b != 92
}

/// Holds for the strings the writer escapes to themselves.
pub open spec fn plain_bytes(c: Seq<u8>) -> bool {
    forall|k: int| 0 <= k < c.len() ==> plain_byte(#[trigger] c[k])
}

proof fn lemma_escaped_plain(c: Seq<u8>, i: int)
    requires
        plain_bytes(c),
        0 <= i <= c.len(),
    ensures
        spec_escaped_from(c, i) == c.skip(i),
    decreases c.len() - i,
{
    if i == c.len() {
        assert(spec_escaped_from(c, i) =~= c.skip(i));
    } else {
        lemma_escaped_plain(c, i + 1);
        assert(spec_escape_byte(c[i]) == seq![c[i]]);
        assert(spec_escaped_from(c, i) =~= c.skip(i));
    }
}

/// Parsing a plain string body that stands verbatim in `s`, up to its
/// closing quote, appends exactly its bytes.
proof fn lemma_parse_plain_string(s: Seq<u8>, i: int, content: Seq<u8>, acc: Seq<u8>)
    requires
        plain_bytes(content),
        0 <= i,
        i + content.len() + 1 <= s.len(),
        forall|k: int| 0 <= k < content.len() ==> s[i + k] == #[trigger] content[k],
        s[i + content.len()] == 34,
    ensures
        spec_parse_string(s, i, acc) == Some((acc + content, i + content.len() + 1)),
    decreases content.len(),
{
    if content.len() == 0 {
        assert(s[i] == 34);
        assert(acc + content =~= acc);
    } else {
        let b = content[0];
        assert(s[i] == b);
        assert(b != 34 && b != 92);
        let rest = content.drop_first();
        assert forall|k: int| 0 <= k < rest.len() implies s[i + 1 + k] == #[trigger] rest[k] by {
            assert(rest[k] == content[k + 1]);
            assert(s[i + (k + 1)] == content[k + 1]);
        }
        lemma_parse_plain_string(s, i + 1, rest, acc.push(b));
        assert(acc.push(b) + rest =~= acc + content);
    }
}

/// The nesting depth of a value: how many levels of containers stand above
/// its deepest leaf.
pub open spec fn json_depth(v: JsonSpec) -> int
    decreases v, 1int,
{
    match v {
        JsonSpec::Null => 0,
        JsonSpec::Bool(_) => 0,
        JsonSpec::Num(_) => 0,
        JsonSpec::Str(_) => 0,
        JsonSpec::Arr(els) => 1 + json_depth_elems(els, 0),
        JsonSpec::Obj(ms) => 1 + json_depth_members(ms, 0),
    }
}

pub open spec fn json_depth_elems(els: Seq<JsonSpec>, j: int) -> int
    decreases els, 2int, els.len() - j,
{
    if !(0 <= j < els.len()) {
        0
    } else {
        let head = json_depth(els[j]);
        let rest = json_depth_elems(els, j + 1);
        if head >= rest {
            head
        } else {
            rest
        }
    }
}

pub open spec fn json_depth_members(ms: Seq<(Seq<u8>, JsonSpec)>, j: int) -> int
    decreases ms, 2int, ms.len() - j,
{
    if !(0 <= j < ms.len()) {
        0
    } else {
        let head = json_depth(ms[j].1);
        let rest = json_depth_members(ms, j + 1);
        if head >= rest {
            head
        } else {
            rest
        }
    }
}


proof fn lemma_json_depth_nonneg(v: JsonSpec)
    ensures
        json_depth(v) >= 0,
    decreases v, 1int, 0int,
{
    match v {
        JsonSpec::Arr(els) => {
            lemma_json_depth_elems_nonneg(els, 0);
        },
        JsonSpec::Obj(ms) => {
            lemma_json_depth_members_nonneg(ms, 0);
        },
        _ => {},
    }
}

proof fn lemma_json_depth_elems_nonneg(els: Seq<JsonSpec>, j: int)
    ensures
        json_depth_elems(els, j) >= 0,
    decreases els, 2int, els.len() - j,
{
    if 0 <= j < els.len() {
        lemma_json_depth_nonneg(els[j]);
        lemma_json_depth_elems_nonneg(els, j + 1);
    }
}

proof fn lemma_json_depth_members_nonneg(ms: Seq<(Seq<u8>, JsonSpec)>, j: int)
    ensures
        json_depth_members(ms, j) >= 0,
    decreases ms, 2int, ms.len() - j,
{
    if 0 <= j < ms.len() {
        lemma_json_depth_nonneg(ms[j].1);
        lemma_json_depth_members_nonneg(ms, j + 1);
    }
}

/// Holds for the values whose written form parses back to themselves:
/// writable numbers, plain strings, and objects of such values under plain
/// keys. Arrays are left out; the wire format of this protocol does not
/// round-trip them through this lemma.
pub open spec fn round_trippable(v: JsonSpec) -> bool
    decreases v, 1int,
{
    match v {
        JsonSpec::Null => true,
        JsonSpec::Bool(_) => true,
        JsonSpec::Num(n) => number_wf(n),
        JsonSpec::Str(c) => plain_bytes(c),
        JsonSpec::Arr(_) => false,
        JsonSpec::Obj(ms) => round_trippable_members(ms, 0),
    }
}

pub open spec fn round_trippable_members(ms: Seq<(Seq<u8>, JsonSpec)>, j: int) -> bool
    decreases ms, 2int, ms.len() - j,
{
    if !(0 <= j < ms.len()) {
        true
    } else {
        plain_bytes(ms[j].0) && round_trippable(ms[j].1) && round_trippable_members(ms, j + 1)
    }
}

/// The written text of the members from `j` on, without the separating
/// comma that precedes a non-first member.
pub open spec fn spec_members_text(ms: Seq<(Seq<u8>, JsonSpec)>, j: int) -> Seq<u8>
    decreases ms, 2int, ms.len() - j,
{
    if !(0 <= j < ms.len()) {
        Seq::empty()
    } else {
        spec_write_string(ms[j].0) + seq![58u8] + spec_write_json(ms[j].1) + (if j + 1
            < ms.len() {
            seq![44u8] + spec_members_text(ms, j + 1)
        } else {
            Seq::empty()
        })
    }
}

proof fn lemma_members_text(ms: Seq<(Seq<u8>, JsonSpec)>, j: int)
    requires
        0 <= j <= ms.len(),
    ensures
        spec_write_members(ms, j) == (if 0 < j < ms.len() {
            seq![44u8]
        } else {
            Seq::<u8>::empty()
        }) + spec_members_text(ms, j),
    decreases ms.len() - j,
{
    if j >= ms.len() {
        assert(spec_write_members(ms, j) =~= (if 0 < j < ms.len() {
            seq![44u8]
        } else {
            Seq::<u8>::empty()
        }) + spec_members_text(ms, j));
    } else {
        lemma_members_text(ms, j + 1);
        assert(spec_write_members(ms, j) =~= (if 0 < j < ms.len() {
            seq![44u8]
        } else {
            Seq::<u8>::empty()
        }) + spec_members_text(ms, j));
    }
}

/// The first byte a written value starts with: never whitespace.
proof fn lemma_write_first_byte(v: JsonSpec)
    requires
        round_trippable(v),
    ensures
        spec_write_json(v).len() >= 1,
        !is_ws(spec_write_json(v)[0]),
{
    match v {
        JsonSpec::Num(n) => {
            lemma_spec_digits_value(n.mantissa as nat);
            lemma_spec_digits_value(n.mantissa as nat / pow10(n.scale as nat));
            if n.negative {
                assert(spec_write_number(n)[0] == 45);
            } else {
                if n.scale == 0 {
                    assert(spec_write_number(n)[0] == spec_digits(n.mantissa as nat)[0]);
                } else {
                    assert(spec_write_number(n)[0] == spec_digits(
                        n.mantissa as nat / pow10(n.scale as nat),
                    )[0]);
                }
            }
        },
        _ => {},
    }
}

/// Carries a pointwise match through to a slice of the matched text.
proof fn lemma_match_slice(s: Seq<u8>, i: int, big: Seq<u8>, o: int, part: Seq<u8>)
    requires
        forall|k: int| 0 <= k < big.len() ==> s[i + k] == #[trigger] big[k],
        0 <= i,
        0 <= o,
        o + part.len() <= big.len(),
        forall|k: int| 0 <= k < part.len() ==> big[o + k] == #[trigger] part[k],
    ensures
        forall|k: int| 0 <= k < part.len() ==> s[i + o + k] == #[trigger] part[k],
{
    assert forall|k: int| 0 <= k < part.len() implies s[i + o + k] == #[trigger] part[k] by {
        assert(big[o + k] == part[k]);
        assert(s[i + (o + k)] == big[o + k]);
    }
}

/// Parsing the written form of a round-trippable value yields the value
/// back; the byte after it, if any, must be neither a digit nor a decimal
/// point.

#[verifier::rlimit(60)]
proof fn lemma_parse_written_value_num(s: Seq<u8>, i: int, n: Number, depth: int)
    requires
        number_wf(n),
        0 <= i,
        i + spec_write_number(n).len() <= s.len(),
        forall|k: int|
            0 <= k < spec_write_number(n).len() ==> s[i + k] == #[trigger] spec_write_number(n)[k],
        i + spec_write_number(n).len() == s.len() || (!is_digit(s[i + spec_write_number(n).len()])
            && s[i + spec_write_number(n).len()] != 46 && s[i + spec_write_number(n).len()] != 101
            && s[i + spec_write_number(n).len()] != 69),
    ensures
        spec_parse_value(s, i, depth) == Some(
            (JsonSpec::Num(n), i + spec_write_number(n).len()),
        ),
{
    let w = spec_write_number(n);
    lemma_parse_written_number(s, i, n);
    lemma_write_first_byte(JsonSpec::Num(n));
    assert(s[i + 0] == w[0]);
    lemma_spec_digits_value(n.mantissa as nat);
    lemma_spec_digits_value(n.mantissa as nat / pow10(n.scale as nat));
    if n.negative {
        assert(s[i] == 45);
    } else {
        assert(is_digit(s[i]));
    }
}

#[verifier::rlimit(60)]
proof fn lemma_parse_written_value_str(s: Seq<u8>, i: int, c: Seq<u8>, depth: int)
    requires
        plain_bytes(c),
        0 <= i,
        i + spec_write_string(c).len() <= s.len(),
        forall|k: int|
            0 <= k < spec_write_string(c).len() ==> s[i + k] == #[trigger] spec_write_string(c)[k],
    ensures
        spec_parse_value(s, i, depth) == Some(
            (JsonSpec::Str(c), i + spec_write_string(c).len()),
        ),
{
    let w = spec_write_string(c);
    lemma_escaped_plain(c, 0);
    assert(c.skip(0) =~= c);
    assert(w =~= seq![34u8] + c + seq![34u8]);
    assert(s[i + 0] == w[0]);
    assert(s[i] == 34);
    assert forall|k: int| 0 <= k < c.len() implies w[1 + k] == #[trigger] c[k] by {}
    lemma_match_slice(s, i, w, 1, c);
    assert(w[1 + c.len() as int] == 34);
    assert(s[i + (1 + c.len() as int)] == w[1 + c.len() as int]);
    lemma_parse_plain_string(s, i + 1, c, Seq::empty());
    assert(Seq::<u8>::empty() + c =~= c);
}

#[verifier::rlimit(100)]
proof fn lemma_parse_written_value(s: Seq<u8>, i: int, v: JsonSpec, depth: int)
    requires
        round_trippable(v),
        depth >= json_depth(v),
        0 <= i,
        i + spec_write_json(v).len() <= s.len(),
        forall|k: int|
            0 <= k < spec_write_json(v).len() ==> s[i + k] == #[trigger] spec_write_json(v)[k],
        i + spec_write_json(v).len() == s.len() || (!is_digit(s[i + spec_write_json(v).len()])
            && s[i + spec_write_json(v).len()] != 46 && s[i + spec_write_json(v).len()] != 101
            && s[i + spec_write_json(v).len()] != 69),
    ensures
        spec_parse_value(s, i, depth) == Some((v, i + spec_write_json(v).len())),
    decreases v, 1int, 0int,
{
    let w = spec_write_json(v);
    match v {
        JsonSpec::Null => {
            assert(s[i + 0] == w[0]);
            assert(s[i + 1] == w[1]);
            assert(s[i + 2] == w[2]);
            assert(s[i + 3] == w[3]);
        },
        JsonSpec::Bool(b) => {
            if b {
                assert(s[i + 0] == w[0]);
                assert(s[i + 1] == w[1]);
                assert(s[i + 2] == w[2]);
                assert(s[i + 3] == w[3]);
            } else {
                assert(s[i + 0] == w[0]);
                assert(s[i + 1] == w[1]);
                assert(s[i + 2] == w[2]);
                assert(s[i + 3] == w[3]);
                assert(s[i + 4] == w[4]);
            }
        },
        JsonSpec::Num(n) => {
            lemma_parse_written_value_num(s, i, n, depth);
        },
        JsonSpec::Str(c) => {
            lemma_parse_written_value_str(s, i, c, depth);
        },
        JsonSpec::Arr(_) => {
            assert(false);
        },
        JsonSpec::Obj(ms) => {
            lemma_members_text(ms, 0);
            assert(s[i + 0] == w[0]);
            assert(s[i] == 123);
            assert(w[w.len() as int - 1] == 125);
            lemma_json_depth_members_nonneg(ms, 0);
            assert(depth >= 1);
            if ms.len() == 0 {
                assert(w =~= seq![123u8, 125u8]);
                assert(s[i + 1] == w[1]);
                assert(spec_skip_ws(s, i + 1) == i + 1);
                assert(v == JsonSpec::Obj(Seq::<(Seq<u8>, JsonSpec)>::empty())) by {
                    assert(ms =~= Seq::<(Seq<u8>, JsonSpec)>::empty());
                }
                assert(spec_parse_value(s, i, depth) == Some((JsonSpec::Obj(Seq::empty()), i + 2)));
            } else {
                let text = spec_members_text(ms, 0);
                assert(w =~= seq![123u8] + text + seq![125u8]);
                assert forall|k: int| 0 <= k < text.len() implies w[1 + k] == #[trigger] text[k] by {}
                lemma_match_slice(s, i, w, 1, text);
                assert(w[1 + text.len() as int] == 125);
                assert(s[i + (1 + text.len() as int)] == w[1 + text.len() as int]);
                assert(text[0] == spec_write_string(ms[0].0)[0]);
                assert(s[i + 1 + 0] == text[0]);
                assert(s[i + 1] == 34);
                assert(spec_skip_ws(s, i + 1) == i + 1);
                lemma_parse_written_members(s, i + 1, ms, 0, Seq::empty(), depth - 1);
                assert(Seq::<(Seq<u8>, JsonSpec)>::empty() + ms.skip(0) =~= ms);
                assert(json_depth(v) == 1 + json_depth_members(ms, 0));
            }
        },
    }
}

/// Parsing the written members from `j` on, standing verbatim in `s` and
/// closed by a brace, yields the members appended to `acc`.
#[verifier::rlimit(100)]
proof fn lemma_parse_written_members(
    s: Seq<u8>,
    i: int,
    ms: Seq<(Seq<u8>, JsonSpec)>,
    j: int,
    acc: Seq<(Seq<u8>, JsonSpec)>,
    depth: int,
)
    requires
        0 <= j < ms.len(),
        round_trippable_members(ms, j),
        depth >= json_depth_members(ms, j),
        0 <= i,
        i + spec_members_text(ms, j).len() + 1 <= s.len(),
        forall|k: int|
            0 <= k < spec_members_text(ms, j).len() ==> s[i + k] == #[trigger] spec_members_text(
                ms,
                j,
            )[k],
        s[i + spec_members_text(ms, j).len()] == 125,
    ensures
        spec_parse_members(s, i, acc, depth) == Some(
            (JsonSpec::Obj(acc + ms.skip(j)), i + spec_members_text(ms, j).len() + 1),
        ),
    decreases ms, 2int, ms.len() - j,
{
    let text = spec_members_text(ms, j);
    let key = ms[j].0;
    let val = ms[j].1;
    let ws = spec_write_string(key);
    let wv = spec_write_json(val);
    lemma_escaped_plain(key, 0);
    assert(key.skip(0) =~= key);
    assert(ws =~= seq![34u8] + key + seq![34u8]);
    let tail: Seq<u8> = if j + 1 < ms.len() {
        seq![44u8] + spec_members_text(ms, j + 1)
    } else {
        Seq::empty()
    };
    assert(text =~= ws + seq![58u8] + wv + tail);

    // The key.
    assert(text[0] == 34);
    assert(s[i + 0] == text[0]);
    assert(s[i] == 34);
    assert forall|k: int| 0 <= k < key.len() implies text[1 + k] == #[trigger] key[k] by {}
    lemma_match_slice(s, i, text, 1, key);
    assert(text[1 + key.len() as int] == 34);
    assert(s[i + (1 + key.len() as int)] == text[1 + key.len() as int]);
    lemma_parse_plain_string(s, i + 1, key, Seq::empty());
    assert(Seq::<u8>::empty() + key =~= key);
    let p = i + key.len() + 2;
    assert(spec_parse_string(s, i + 1, Seq::empty()) == Some((key, p)));

    // The colon between key and value.
    assert(text[ws.len() as int] == 58);
    assert(s[i + ws.len() as int] == text[ws.len() as int]);
    assert(p == i + ws.len());
    assert(s[p] == 58);
    assert(!is_ws(58));
    assert(spec_skip_ws(s, p) == p);

    // The value.
    let m = p + 1;
    assert forall|k: int| 0 <= k < wv.len() implies text[ws.len() + 1 + k] == #[trigger] wv[k]
        by {}
    lemma_match_slice(s, i, text, ws.len() as int + 1, wv);
    lemma_write_first_byte(val);
    let q = m + wv.len();
    let after: u8 = if j + 1 < ms.len() {
        44
    } else {
        125
    };
    if j + 1 < ms.len() {
        assert(text[ws.len() + 1 + wv.len() as int] == 44);
        assert(s[i + (ws.len() + 1 + wv.len() as int)] == text[ws.len() + 1 + wv.len() as int]);
    } else {
        assert(q == i + text.len());
    }
    assert(s[q] == after);
    assert(!is_digit(after) && after != 46 && after != 101 && after != 69);
    lemma_parse_written_value(s, m, val, depth);
    assert(spec_parse_value(s, m, depth) == Some((val, q)));
    assert(!is_ws(after));
    assert(spec_skip_ws(s, q) == q);

    if j + 1 < ms.len() {
        // The comma and the members after it.
        let n = q + 1;
        let rest_text = spec_members_text(ms, j + 1);
        assert forall|k: int| 0 <= k < rest_text.len() implies text[ws.len() + 1 + wv.len() + 1
            + k] == #[trigger] rest_text[k] by {}
        lemma_match_slice(s, i, text, ws.len() as int + 1 + wv.len() as int + 1, rest_text);
        assert(n == i + (ws.len() + 1 + wv.len() + 1));
        assert(s[n + rest_text.len()] == 125) by {
            assert(n + rest_text.len() == i + text.len());
        }
        assert(rest_text[0] == spec_write_string(ms[j + 1].0)[0]);
        assert(s[n + 0] == rest_text[0]);
        assert(s[n] == 34);
        assert(!is_ws(34));
        assert(spec_skip_ws(s, n) == n);
        lemma_parse_written_members(s, n, ms, j + 1, acc.push((key, val)), depth);
        assert(acc.push((key, val)) + ms.skip(j + 1) =~= acc + ms.skip(j));
    } else {
        assert(s[q] == 125);
        assert(acc.push((key, val)) =~= acc + ms.skip(j));
        assert(spec_parse_members(s, i, acc, depth) == Some(
            (JsonSpec::Obj(acc.push((key, val))), q + 1),
        ));
    }
}

/// Whatever the writer prints parses back to the same value: the round
/// trip of the wire format, for every round-trippable value that nests no
/// deeper than the parser accepts.
pub proof fn lemma_parse_written_json(v: JsonSpec)
    requires
        round_trippable(v),
        json_depth(v) <= parse_depth(),
    ensures
        spec_parse_json(spec_write_json(v)) == Some(v),
{
    let w = spec_write_json(v);
    lemma_write_first_byte(v);
    assert(spec_skip_ws(w, 0) == 0);
    assert(forall|k: int| 0 <= k < w.len() ==> w[0 + k] == #[trigger] w[k]);
    lemma_parse_written_value(w, 0, v, parse_depth());
    assert(spec_skip_ws(w, w.len() as int) == w.len() as int);
}

} // verus!
