use vstd::prelude::*;
use serde_json::ser::Formatter as TokenFormatter;

verus! {

/// A JSON value: the tree of data that the formatter lays out.
///
/// Scalars (null, booleans, integers, strings) are rendered as single compact
/// tokens; arrays and objects are containers whose layout the formatter
/// decides. Only string-keyed objects exist, so non-string keys cannot occur.
pub enum Json {
    Null,
    Bool(bool),
    Int(i64),
    UInt(u64),
    Str(String),
    Arr(Vec<Json>),
    Obj(Vec<(String, Json)>),
}

/// A container is an array or an object; everything else is a scalar.
pub open spec fn is_container(v: Json) -> bool {
    v is Arr || v is Obj
}

/// The opening delimiter of a container.
pub open spec fn open_byte(v: Json) -> u8 {
    if v is Arr {
        91u8
    } else {
        123u8
    }
}

/// The closing delimiter of a container.
pub open spec fn close_byte(v: Json) -> u8 {
    if v is Arr {
        93u8
    } else {
        125u8
    }
}

/// Nesting depth of a value: scalars have depth zero, a container is one
/// deeper than its deepest member.
pub open spec fn jdepth(v: Json) -> nat
    decreases v, 0int, 0int,
{
    match v {
        Json::Arr(es) => 1 + jdepth_arr(es@, 0),
        Json::Obj(ms) => 1 + jdepth_obj(ms@, 0),
        _ => 0,
    }
}

/// The deepest nesting among the array members from index `i` on.
pub open spec fn jdepth_arr(es: Seq<Json>, i: int) -> nat
    decreases es, 1int, es.len() - i,
{
    if i < 0 || i >= es.len() {
        0
    } else {
        let d = jdepth(es[i]);
        let r = jdepth_arr(es, i + 1);
        if d > r {
            d
        } else {
            r
        }
    }
}

/// The deepest nesting among the object member values from index `i` on.
pub open spec fn jdepth_obj(ms: Seq<(String, Json)>, i: int) -> nat
    decreases ms, 1int, ms.len() - i,
{
    if i < 0 || i >= ms.len() {
        0
    } else {
        let d = jdepth(ms[i].1);
        let r = jdepth_obj(ms, i + 1);
        if d > r {
            d
        } else {
            r
        }
    }
}

/// Every array member is at most as deep as the array's member bound.
pub proof fn lemma_jdepth_arr_ge(es: Seq<Json>, i: int, j: int)
    requires
        0 <= i <= j < es.len(),
    ensures
        jdepth_arr(es, i) >= jdepth(es[j]),
    decreases j - i,
{
    if i < j {
        lemma_jdepth_arr_ge(es, i + 1, j);
    }
}

/// Every object member value is at most as deep as the object's member bound.
pub proof fn lemma_jdepth_obj_ge(ms: Seq<(String, Json)>, i: int, j: int)
    requires
        0 <= i <= j < ms.len(),
    ensures
        jdepth_obj(ms, i) >= jdepth(ms[j].1),
    decreases j - i,
{
    if i < j {
        lemma_jdepth_obj_ge(ms, i + 1, j);
    }
}

/// The decimal digits of a natural number, most significant first.
pub open spec fn nat_token(n: nat) -> Seq<u8>
    decreases n,
{
    if n < 10 {
        seq![(48 + n) as u8]
    } else {
        nat_token(n / 10).push((48 + n % 10) as u8)
    }
}

/// The compact token of an integer: decimal digits, with a leading minus sign
/// when negative.
pub open spec fn int_token(n: int) -> Seq<u8> {
    if n >= 0 {
        nat_token(n as nat)
    } else {
        seq![45u8] + nat_token((-n) as nat)
    }
}

/// The escaped bytes between the quotes of a JSON string token, as the
/// scalar-encoding delegate produces them. A function of the characters alone.
pub uninterp spec fn str_body(s: Seq<char>) -> Seq<u8>;

/// The compact token of a JSON string: a double quote, the escaped body, and
/// a closing double quote.
pub open spec fn str_token(s: Seq<char>) -> Seq<u8> {
    seq![34u8] + str_body(s) + seq![34u8]
}

/// The compact token of a scalar value; containers have no token.
pub open spec fn token(v: Json) -> Seq<u8> {
    match v {
        Json::Null => seq![110u8, 117u8, 108u8, 108u8],
        Json::Bool(b) => if b {
            seq![116u8, 114u8, 117u8, 101u8]
        } else {
            seq![102u8, 97u8, 108u8, 115u8, 101u8]
        },
        Json::Int(n) => int_token(n as int),
        Json::UInt(n) => nat_token(n as nat),
        Json::Str(s) => str_token(s@),
        Json::Arr(_) => Seq::empty(),
        Json::Obj(_) => Seq::empty(),
    }
}

/// Relies on serde_json's `CompactFormatter::write_null`: writes the four
/// bytes `null`.
#[verifier::external_body]
fn tok_null() -> (r: Vec<u8>)
    ensures
        r@ == seq![110u8, 117u8, 108u8, 108u8],
{
    let mut b: Vec<u8> = Vec::new();
    serde_json::ser::CompactFormatter.write_null(&mut b).unwrap();
    b
}

/// Relies on serde_json's `CompactFormatter::write_bool`: writes `true` or
/// `false`.
#[verifier::external_body]
fn tok_bool(v: bool) -> (r: Vec<u8>)
    ensures
        r@ == (if v {
            seq![116u8, 114u8, 117u8, 101u8]
        } else {
            seq![102u8, 97u8, 108u8, 115u8, 101u8]
        }),
{
    let mut b: Vec<u8> = Vec::new();
    serde_json::ser::CompactFormatter.write_bool(&mut b, v).unwrap();
    b
}

/// Relies on serde_json's `CompactFormatter::write_u64` (itoa): the decimal
/// digits of the value.
#[verifier::external_body]
fn tok_u64(v: u64) -> (r: Vec<u8>)
    ensures
        r@ == nat_token(v as nat),
{
    let mut b: Vec<u8> = Vec::new();
    serde_json::ser::CompactFormatter.write_u64(&mut b, v).unwrap();
    b
}

/// Relies on serde_json's `CompactFormatter::write_i64` (itoa): decimal
/// digits, minus-signed when negative.
#[verifier::external_body]
fn tok_i64(v: i64) -> (r: Vec<u8>)
    ensures
        r@ == int_token(v as int),
{
    let mut b: Vec<u8> = Vec::new();
    serde_json::ser::CompactFormatter.write_i64(&mut b, v).unwrap();
    b
}

/// Relies on serde_json's string serialization: a quoted token whose escaped
/// body depends on the characters alone, with control characters escaped.
#[verifier::external_body]
fn tok_str(s: &str) -> (r: Vec<u8>)
    ensures
        r@ == seq![34u8] + str_body(s@) + seq![34u8],
{
    serde_json::to_vec(s).unwrap()
}

/// The quoted, escaped token of an object key, as the scalar-encoding
/// delegate renders it.
pub fn key_token(k: &String) -> (r: Vec<u8>)
    ensures
        r@ == str_token(k@),
{
    tok_str(k.as_str())
}

/// The compact token bytes of a scalar value, as the scalar-encoding delegate
/// renders it.
pub fn token_bytes(v: &Json) -> (r: Vec<u8>)
    requires
        !is_container(*v),
    ensures
        r@ == token(*v),
{
    match v {
        Json::Null => tok_null(),
        Json::Bool(b) => tok_bool(*b),
        Json::Int(n) => tok_i64(*n),
        Json::UInt(n) => tok_u64(*n),
        Json::Str(s) => tok_str(s.as_str()),
        Json::Arr(_) => vstd::pervasive::unreached(),
        Json::Obj(_) => vstd::pervasive::unreached(),
    }
}

} // verus!
