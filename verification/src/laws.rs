use vstd::prelude::*;

verus! {

use crate::value::{Json, is_container, open_byte, close_byte, token, nat_token, int_token};
use crate::fmt::reps;
use crate::render::{
    arr_prim,
    obj_prim,
    arr_inline_to,
    obj_inline_to,
    arr_ml_to,
    obj_ml_to,
    render,
    doc_render,
};

broadcast use crate::seqs::seq_add_assoc_l, crate::seqs::seq_add_empty_left, crate::seqs::seq_add_empty_right;

/// A top-level scalar document is exactly the scalar's compact token: no
/// whitespace and no trailing newline is added around it.
pub proof fn lemma_top_level_scalar(v: Json, ind: Seq<u8>)
    requires
        !is_container(v),
    ensures
        doc_render(v, ind) == token(v),
{
}

/// A non-empty container whose immediate members are all primitive renders on
/// a single line: opening delimiter, one space, members separated by `, `,
/// one space, closing delimiter — and the rendering does not depend on how
/// deeply the container is nested.
pub proof fn lemma_inline_layout(v: Json, d: nat, ind: Seq<u8>)
    requires
        is_container(v),
        v matches Json::Arr(es) ==> es@.len() > 0 && arr_prim(es@),
        v matches Json::Obj(ms) ==> ms@.len() > 0 && obj_prim(ms@),
    ensures
        v matches Json::Arr(es) ==> render(v, d, ind) == seq![91u8] + arr_inline_to(
            es@,
            es@.len() as int,
        ) + seq![32u8] + seq![93u8],
        v matches Json::Obj(ms) ==> render(v, d, ind) == seq![123u8] + obj_inline_to(
            ms@,
            ms@.len() as int,
        ) + seq![32u8] + seq![125u8],
        render(v, d, ind) == render(v, 0, ind),
{
}

/// A container holding at least one nested container renders multi-line:
/// after the opening delimiter, every member stands on its own line behind a
/// newline and `d + 1` copies of the indent unit, with a comma before every
/// line but the first, and the closing delimiter stands on its own line at
/// the container's own indentation `d`.
pub proof fn lemma_multiline_layout(v: Json, d: nat, ind: Seq<u8>)
    requires
        is_container(v),
        v matches Json::Arr(es) ==> !arr_prim(es@),
        v matches Json::Obj(ms) ==> !obj_prim(ms@),
    ensures
        v matches Json::Arr(es) ==> render(v, d, ind) == seq![91u8] + arr_ml_to(
            es@,
            es@.len() as int,
            (d + 1) as nat,
            ind,
        ) + seq![10u8] + reps(ind, d) + seq![93u8],
        v matches Json::Obj(ms) ==> render(v, d, ind) == seq![123u8] + obj_ml_to(
            ms@,
            ms@.len() as int,
            (d + 1) as nat,
            ind,
        ) + seq![10u8] + reps(ind, d) + seq![125u8],
{
}

/// An empty array or object renders as its two bare delimiters with no
/// interior whitespace, at any nesting depth.
pub proof fn lemma_empty_container(v: Json, d: nat, ind: Seq<u8>)
    requires
        is_container(v),
        v matches Json::Arr(es) ==> es@.len() == 0,
        v matches Json::Obj(ms) ==> ms@.len() == 0,
    ensures
        render(v, d, ind) == seq![open_byte(v), close_byte(v)],
        render(v, d, ind) == render(v, 0, ind),
{
    assert(seq![open_byte(v)] + seq![close_byte(v)] =~= seq![open_byte(v), close_byte(v)]);
}

/// The decimal digits of a number are digit bytes.
proof fn lemma_nat_token_digits(n: nat)
    ensures
        nat_token(n).len() >= 1,
        forall|i: int| 0 <= i < nat_token(n).len() ==> 48 <= #[trigger] nat_token(n)[i] <= 57,
    decreases n,
{
    if n >= 10 {
        lemma_nat_token_digits(n / 10);
    }
}

/// A scalar token is never empty and never ends in a newline byte.
pub proof fn lemma_token_no_trailing_newline(v: Json)
    requires
        !is_container(v),
    ensures
        token(v).len() >= 1,
        token(v).last() != 10u8,
{
    match v {
        Json::Int(n) => {
            lemma_nat_token_digits(if n >= 0 {
                n as nat
            } else {
                (-(n as int)) as nat
            });
            if n < 0 {
                assert(int_token(n as int).last() == nat_token((-(n as int)) as nat).last());
            }
        },
        Json::UInt(n) => {
            lemma_nat_token_digits(n as nat);
        },
        _ => {},
    }
}

/// The last byte of a concatenation is the last byte of its non-empty second
/// part.
proof fn lemma_last_of_cat(a: Seq<u8>, b: Seq<u8>)
    requires
        b.len() >= 1,
    ensures
        (a + b).len() >= 1,
        (a + b).last() == b.last(),
{
}

/// A container's rendered body ends with the closing delimiter.
proof fn lemma_body_last(v: Json, d: nat, ind: Seq<u8>)
    requires
        is_container(v),
    ensures
        crate::render::body_render(v, d, ind).len() >= 1,
        crate::render::body_render(v, d, ind).last() == close_byte(v),
{
    match v {
        Json::Arr(es) => {
            if es@.len() == 0 {
            } else if arr_prim(es@) {
                lemma_last_of_cat(
                    arr_inline_to(es@, es@.len() as int) + seq![32u8],
                    seq![93u8],
                );
            } else {
                lemma_last_of_cat(
                    arr_ml_to(es@, es@.len() as int, (d + 1) as nat, ind) + seq![10u8] + reps(
                        ind,
                        d,
                    ),
                    seq![93u8],
                );
            }
        },
        Json::Obj(ms) => {
            if ms@.len() == 0 {
            } else if obj_prim(ms@) {
                lemma_last_of_cat(
                    obj_inline_to(ms@, ms@.len() as int) + seq![32u8],
                    seq![125u8],
                );
            } else {
                lemma_last_of_cat(
                    obj_ml_to(ms@, ms@.len() as int, (d + 1) as nat, ind) + seq![10u8] + reps(
                        ind,
                        d,
                    ),
                    seq![125u8],
                );
            }
        },
        _ => {},
    }
}

/// A serialized document ends with exactly one trailing newline when the
/// top-level value is a container — the byte before it is the closing
/// delimiter — and with no newline at all when it is a scalar.
pub proof fn lemma_trailing_newline(v: Json, ind: Seq<u8>)
    ensures
        is_container(v) ==> doc_render(v, ind).len() >= 3 && doc_render(v, ind).last() == 10u8
            && doc_render(v, ind)[doc_render(v, ind).len() - 2] == close_byte(v),
        !is_container(v) ==> doc_render(v, ind) == token(v) && doc_render(v, ind).last() != 10u8,
{
    if is_container(v) {
        let body = crate::render::body_render(v, 0, ind);
        let r = render(v, 0, ind);
        assert(r == seq![open_byte(v)] + body);
        lemma_body_last(v, 0, ind);
        lemma_last_of_cat(seq![open_byte(v)], body);
        assert(r.last() == close_byte(v));
        lemma_last_of_cat(r, seq![10u8]);
        assert(doc_render(v, ind) == r + seq![10u8]);
        assert(doc_render(v, ind)[doc_render(v, ind).len() - 2] == r[r.len() - 1]);
    } else {
        lemma_token_no_trailing_newline(v);
    }
}

} // verus!
