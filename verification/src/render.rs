use vstd::prelude::*;

verus! {

use crate::value::{Json, is_container, open_byte, token, str_token};
use crate::fmt::{reps, flush_to, inline_to};

/// Whether every member of an array is a scalar.
pub open spec fn arr_prim(es: Seq<Json>) -> bool {
    forall|j: int| 0 <= j < es.len() ==> !is_container(#[trigger] es[j])
}

/// Whether every member value of an object is a scalar.
pub open spec fn obj_prim(ms: Seq<(String, Json)>) -> bool {
    forall|j: int| 0 <= j < ms.len() ==> !is_container((#[trigger] ms[j]).1)
}

/// The single-line form of the first `n` array members: a space before the
/// first, `, ` before each later one.
pub open spec fn arr_inline_to(es: Seq<Json>, n: int) -> Seq<u8>
    decreases n,
{
    if n <= 0 {
        Seq::empty()
    } else {
        arr_inline_to(es, n - 1) + (if n - 1 == 0 {
            seq![32u8]
        } else {
            seq![44u8, 32u8]
        }) + token(es[n - 1])
    }
}

/// The single-line form of the first `n` object members: each member is its
/// quoted key, `: `, and the value's token.
pub open spec fn obj_inline_to(ms: Seq<(String, Json)>, n: int) -> Seq<u8>
    decreases n,
{
    if n <= 0 {
        Seq::empty()
    } else {
        obj_inline_to(ms, n - 1) + (if n - 1 == 0 {
            seq![32u8]
        } else {
            seq![44u8, 32u8]
        }) + str_token(ms[n - 1].0@) + seq![58u8, 32u8] + token(ms[n - 1].1)
    }
}

/// The multi-line form of the first `n` array members at depth `d`: each on
/// its own line, comma-separated, rendered recursively.
pub open spec fn arr_ml_to(es: Seq<Json>, n: int, d: nat, ind: Seq<u8>) -> Seq<u8>
    decreases es, 0int, n,
{
    if n <= 0 || n > es.len() {
        Seq::empty()
    } else {
        arr_ml_to(es, n - 1, d, ind) + (if n - 1 > 0 {
            seq![44u8]
        } else {
            Seq::<u8>::empty()
        }) + seq![10u8] + reps(ind, d) + render(es[n - 1], d, ind)
    }
}

/// The multi-line form of the first `n` object members at depth `d`.
pub open spec fn obj_ml_to(ms: Seq<(String, Json)>, n: int, d: nat, ind: Seq<u8>) -> Seq<u8>
    decreases ms, 0int, n,
{
    if n <= 0 || n > ms.len() {
        Seq::empty()
    } else {
        obj_ml_to(ms, n - 1, d, ind) + (if n - 1 > 0 {
            seq![44u8]
        } else {
            Seq::<u8>::empty()
        }) + seq![10u8] + reps(ind, d) + str_token(ms[n - 1].0@) + seq![58u8, 32u8] + render(
            ms[n - 1].1,
            d,
            ind,
        )
    }
}

/// Everything a container's rendering emits after its opening delimiter, for
/// a container standing at depth `d`: an empty container closes at once; a
/// primitive-only one is space-bracketed on a single line; one holding a
/// nested container puts every member on its own line at depth `d + 1` and
/// closes on its own line at depth `d`.
/// Everything an array's rendering emits after its `[`, for an array of the
/// given members standing at depth `d`.
pub open spec fn arr_body(es: Seq<Json>, d: nat, ind: Seq<u8>) -> Seq<u8>
    decreases es, 1int, 0int,
{
    if es.len() == 0 {
        seq![93u8]
    } else if arr_prim(es) {
        arr_inline_to(es, es.len() as int) + seq![32u8] + seq![93u8]
    } else {
        arr_ml_to(es, es.len() as int, (d + 1) as nat, ind) + seq![10u8] + reps(ind, d)
            + seq![93u8]
    }
}

/// Everything an object's rendering emits after its `{`.
pub open spec fn obj_body(ms: Seq<(String, Json)>, d: nat, ind: Seq<u8>) -> Seq<u8>
    decreases ms, 1int, 0int,
{
    if ms.len() == 0 {
        seq![125u8]
    } else if obj_prim(ms) {
        obj_inline_to(ms, ms.len() as int) + seq![32u8] + seq![125u8]
    } else {
        obj_ml_to(ms, ms.len() as int, (d + 1) as nat, ind) + seq![10u8] + reps(ind, d)
            + seq![125u8]
    }
}

pub open spec fn body_render(v: Json, d: nat, ind: Seq<u8>) -> Seq<u8>
    decreases v, 2int, 0int,
{
    match v {
        Json::Arr(es) => arr_body(es@, d, ind),
        Json::Obj(ms) => obj_body(ms@, d, ind),
        _ => Seq::empty(),
    }
}

/// The bytes the formatter emits for a value standing at depth `d`: a scalar
/// is its compact token; a container is its opening delimiter followed by its
/// body.
pub open spec fn render(v: Json, d: nat, ind: Seq<u8>) -> Seq<u8>
    decreases v, 3int, 0int,
{
    if is_container(v) {
        seq![open_byte(v)] + body_render(v, d, ind)
    } else {
        token(v)
    }
}

/// The bytes of a whole serialized document: the top-level value rendered at
/// depth zero, with a single trailing newline after a top-level container and
/// nothing added after a top-level scalar.
pub open spec fn doc_render(v: Json, ind: Seq<u8>) -> Seq<u8> {
    render(v, 0, ind) + (if is_container(v) {
        seq![10u8]
    } else {
        Seq::<u8>::empty()
    })
}

/// Buffered slots that hold the tokens of scalar array members line up with
/// the members' own single-line form.
pub proof fn lemma_arr_inline_slots(es: Seq<Json>, slots: Seq<Seq<u8>>, n: int)
    requires
        0 <= n <= es.len(),
        n <= slots.len(),
        forall|j: int| 0 <= j < n ==> #[trigger] slots[j] == token(es[j]),
    ensures
        inline_to(slots, n) == arr_inline_to(es, n),
    decreases n,
{
    if n > 0 {
        lemma_arr_inline_slots(es, slots, n - 1);
    }
}

/// Buffered slots that hold key, `: `, and token of scalar object members
/// line up with the members' own single-line form.
pub proof fn lemma_obj_inline_slots(ms: Seq<(String, Json)>, slots: Seq<Seq<u8>>, n: int)
    requires
        0 <= n <= ms.len(),
        n <= slots.len(),
        forall|j: int| 0 <= j < n ==> #[trigger] slots[j] == str_token(ms[j].0@) + seq![58u8, 32u8]
            + token(ms[j].1),
    ensures
        inline_to(slots, n) == obj_inline_to(ms, n),
    decreases n,
{
    if n > 0 {
        lemma_obj_inline_slots(ms, slots, n - 1);
    }
}

/// Flushing slots that hold the tokens of scalar array members produces the
/// members' multi-line form.
pub proof fn lemma_arr_flush_ml(es: Seq<Json>, slots: Seq<Seq<u8>>, n: int, d: nat, ind: Seq<u8>)
    requires
        0 <= n <= es.len(),
        n <= slots.len(),
        forall|j: int| 0 <= j < n ==> #[trigger] slots[j] == token(es[j]) && !is_container(es[j]),
    ensures
        flush_to(slots, n, d, ind) == arr_ml_to(es, n, d, ind),
    decreases n,
{
    if n > 0 {
        lemma_arr_flush_ml(es, slots, n - 1, d, ind);
        assert(slots[n - 1] == token(es[n - 1]) && !is_container(es[n - 1]));
        assert(render(es[n - 1], d, ind) == token(es[n - 1]));
    }
}

/// Flushing slots that hold key, `: `, and token of scalar object members
/// produces the members' multi-line form.
pub proof fn lemma_obj_flush_ml(
    ms: Seq<(String, Json)>,
    slots: Seq<Seq<u8>>,
    n: int,
    d: nat,
    ind: Seq<u8>,
)
    requires
        0 <= n <= ms.len(),
        n <= slots.len(),
        forall|j: int| 0 <= j < n ==> #[trigger] slots[j] == str_token(ms[j].0@) + seq![58u8, 32u8]
            + token(ms[j].1) && !is_container(ms[j].1),
    ensures
        flush_to(slots, n, d, ind) == obj_ml_to(ms, n, d, ind),
    decreases n,
{
    if n > 0 {
        lemma_obj_flush_ml(ms, slots, n - 1, d, ind);
        assert(slots[n - 1] == str_token(ms[n - 1].0@) + seq![58u8, 32u8] + token(ms[n - 1].1)
            && !is_container(ms[n - 1].1));
        assert(render(ms[n - 1].1, d, ind) == token(ms[n - 1].1));
        let sep: Seq<u8> = if n - 1 > 0 {
            seq![44u8]
        } else {
            Seq::<u8>::empty()
        };
        crate::seqs::seq_pull3(
            flush_to(slots, n - 1, d, ind) + sep + seq![10u8] + reps(ind, d),
            str_token(ms[n - 1].0@),
            seq![58u8, 32u8],
            token(ms[n - 1].1),
        );
    }
}

} // verus!
