use vstd::prelude::*;

verus! {

use crate::value::{
    Json,
    is_container,
    open_byte,
    token,
    str_token,
    token_bytes,
    key_token,
    jdepth,
    jdepth_arr,
    jdepth_obj,
    lemma_jdepth_arr_ge,
    lemma_jdepth_obj_ge,
};
use crate::fmt::{Formatter, reps, flush_to, inline_to};
use crate::render::{
    arr_prim,
    obj_prim,
    arr_inline_to,
    arr_ml_to,
    obj_ml_to,
    arr_body,
    obj_body,
    body_render,
    render,
    doc_render,
    lemma_arr_inline_slots,
    lemma_obj_inline_slots,
    lemma_arr_flush_ml,
    lemma_obj_flush_ml,
};

broadcast use vstd::std_specs::vec::axiom_vec_decreases_to_view;

/// Entering multi-line mode on an array: flushing the buffered scalar tokens
/// together with the nested container's opening delimiter, then emitting that
/// container's body, is the multi-line form of the members seen so far.
proof fn lemma_arr_enter_ml(
    es: Seq<Json>,
    slots: Seq<Seq<u8>>,
    j: int,
    d: nat,
    ind: Seq<u8>,
    pre: Seq<u8>,
)
    requires
        0 <= j < es.len(),
        slots.len() == j + 1,
        forall|k: int| 0 <= k < j ==> #[trigger] slots[k] == token(es[k]) && !is_container(es[k]),
        is_container(es[j]),
        slots[j] == seq![open_byte(es[j])],
    ensures
        pre + flush_to(slots, j + 1, d, ind) + body_render(es[j], d, ind) == pre + arr_ml_to(
            es,
            j + 1,
            d,
            ind,
        ),
{
    lemma_arr_flush_ml(es, slots, j, d, ind);
    assert(render(es[j], d, ind) == seq![open_byte(es[j])] + body_render(es[j], d, ind));
    assert(pre + flush_to(slots, j + 1, d, ind) + body_render(es[j], d, ind) =~= pre + arr_ml_to(
        es,
        j + 1,
        d,
        ind,
    ));
}

/// Entering multi-line mode on an object: as for arrays, with each buffered
/// slot holding key, `: `, and token.
proof fn lemma_obj_enter_ml(
    ms: Seq<(String, Json)>,
    slots: Seq<Seq<u8>>,
    j: int,
    d: nat,
    ind: Seq<u8>,
    pre: Seq<u8>,
)
    requires
        0 <= j < ms.len(),
        slots.len() == j + 1,
        forall|k: int| 0 <= k < j ==> #[trigger] slots[k] == str_token(ms[k].0@) + seq![58u8, 32u8]
            + token(ms[k].1) && !is_container(ms[k].1),
        is_container(ms[j].1),
        slots[j] == str_token(ms[j].0@) + seq![58u8, 32u8] + seq![open_byte(ms[j].1)],
    ensures
        pre + flush_to(slots, j + 1, d, ind) + body_render(ms[j].1, d, ind) == pre + obj_ml_to(
            ms,
            j + 1,
            d,
            ind,
        ),
{
    lemma_obj_flush_ml(ms, slots, j, d, ind);
    assert(render(ms[j].1, d, ind) == seq![open_byte(ms[j].1)] + body_render(ms[j].1, d, ind));
    assert(pre + flush_to(slots, j + 1, d, ind) + body_render(ms[j].1, d, ind) =~= pre + obj_ml_to(
        ms,
        j + 1,
        d,
        ind,
    ));
}

/// One iteration of serializing an array's members preserves the loop's
/// description of the formatter state and the bytes written so far.
#[verifier::rlimit(100)]
proof fn lemma_arr_iter(
    es: Seq<Json>,
    j: int,
    d: nat,
    ind: Seq<u8>,
    out1: Seq<u8>,
    sp: bool,
    ss: Seq<Seq<u8>>,
    outs: Seq<u8>,
    vs: Seq<Seq<u8>>,
    outv: Seq<u8>,
    pp: bool,
    ps: Seq<Seq<u8>>,
    outp: Seq<u8>,
)
    requires
        0 <= j < es.len(),
        d >= 1,
        sp ==> ss.len() == j && (forall|k: int|
            0 <= k < j ==> #[trigger] ss[k] == token(es[k]) && !is_container(es[k])) && outs
            == out1,
        !sp ==> j > 0 && (exists|k: int| 0 <= k < j && is_container(#[trigger] es[k])) && outs
            == out1 + arr_ml_to(es, j, d, ind),
        sp ==> vs == ss.push(Seq::<u8>::empty()) && outv == outs,
        !sp ==> outv == outs + seq![44u8] + seq![10u8] + reps(ind, d),
        !is_container(es[j]) && sp ==> pp && ps == vs.update(
            vs.len() - 1,
            vs.last() + token(es[j]),
        ) && outp == outv,
        !is_container(es[j]) && !sp ==> !pp && outp == outv + token(es[j]),
        is_container(es[j]) && sp ==> !pp && outp == outv + flush_to(
            vs.update(vs.len() - 1, vs.last() + seq![open_byte(es[j])]),
            vs.len() as int,
            d,
            ind,
        ) + body_render(es[j], d, ind),
        is_container(es[j]) && !sp ==> !pp && outp == outv + render(es[j], d, ind) + (if d == 0 {
            seq![10u8]
        } else {
            Seq::<u8>::empty()
        }),
    ensures
        pp ==> ps.len() == j + 1 && (forall|k: int|
            0 <= k < j + 1 ==> #[trigger] ps[k] == token(es[k]) && !is_container(es[k])) && outp
            == out1,
        !pp ==> j + 1 > 0 && (exists|k: int| 0 <= k < j + 1 && is_container(#[trigger] es[k]))
            && outp == out1 + arr_ml_to(es, j + 1, d, ind),
{
    broadcast use crate::seqs::seq_add_empty_left, crate::seqs::seq_add_empty_right;

    if sp {
        assert(vs.last() == Seq::<u8>::empty());
        if !is_container(es[j]) {
            assert forall|k: int| 0 <= k < j + 1 implies #[trigger] ps[k] == token(es[k])
                && !is_container(es[k]) by {
                if k < j {
                    assert(ss[k] == token(es[k]) && !is_container(es[k]));
                }
            }
        } else {
            let slots1 = vs.update(vs.len() - 1, vs.last() + seq![open_byte(es[j])]);
            assert(slots1[j] == seq![open_byte(es[j])]);
            assert forall|k: int| 0 <= k < j implies #[trigger] slots1[k] == token(es[k])
                && !is_container(es[k]) by {
                assert(ss[k] == token(es[k]) && !is_container(es[k]));
            }
            lemma_arr_enter_ml(es, slots1, j, d, ind, out1);
        }
    } else {
        assert(render(es[j], d, ind) == if is_container(es[j]) {
            seq![open_byte(es[j])] + body_render(es[j], d, ind)
        } else {
            token(es[j])
        });
        assert(outp == out1 + arr_ml_to(es, j, d, ind) + seq![44u8] + seq![10u8] + reps(ind, d)
            + render(es[j], d, ind));
        assert(out1 + arr_ml_to(es, j, d, ind) + seq![44u8] + seq![10u8] + reps(ind, d) + render(
            es[j],
            d,
            ind,
        ) =~= out1 + arr_ml_to(es, j + 1, d, ind));
    }
}

/// One iteration of serializing an object's members.
#[verifier::rlimit(100)]
proof fn lemma_obj_iter(
    ms: Seq<(String, Json)>,
    j: int,
    d: nat,
    ind: Seq<u8>,
    out1: Seq<u8>,
    kt: Seq<u8>,
    sp: bool,
    ss: Seq<Seq<u8>>,
    outs: Seq<u8>,
    s1: Seq<Seq<u8>>,
    s2: Seq<Seq<u8>>,
    vs: Seq<Seq<u8>>,
    outv: Seq<u8>,
    pp: bool,
    ps: Seq<Seq<u8>>,
    outp: Seq<u8>,
)
    requires
        0 <= j < ms.len(),
        d >= 1,
        kt == str_token(ms[j].0@),
        sp ==> ss.len() == j && (forall|k: int|
            0 <= k < j ==> #[trigger] ss[k] == str_token(ms[k].0@) + seq![58u8, 32u8] + token(
                ms[k].1,
            ) && !is_container(ms[k].1)) && outs == out1,
        !sp ==> j > 0 && (exists|k: int| 0 <= k < j && is_container((#[trigger] ms[k]).1)) && outs
            == out1 + obj_ml_to(ms, j, d, ind),
        sp ==> s1 == ss.push(Seq::<u8>::empty()) && s2 == s1.update(s1.len() - 1, s1.last() + kt)
            && vs == s2.update(s2.len() - 1, s2.last() + seq![58u8, 32u8]) && outv == outs,
        !sp ==> outv == outs + seq![44u8] + seq![10u8] + reps(ind, d) + kt + seq![58u8, 32u8],
        !is_container(ms[j].1) && sp ==> pp && ps == vs.update(
            vs.len() - 1,
            vs.last() + token(ms[j].1),
        ) && outp == outv,
        !is_container(ms[j].1) && !sp ==> !pp && outp == outv + token(ms[j].1),
        is_container(ms[j].1) && sp ==> !pp && outp == outv + flush_to(
            vs.update(vs.len() - 1, vs.last() + seq![open_byte(ms[j].1)]),
            vs.len() as int,
            d,
            ind,
        ) + body_render(ms[j].1, d, ind),
        is_container(ms[j].1) && !sp ==> !pp && outp == outv + render(ms[j].1, d, ind) + (if d
            == 0 {
            seq![10u8]
        } else {
            Seq::<u8>::empty()
        }),
    ensures
        pp ==> ps.len() == j + 1 && (forall|k: int|
            0 <= k < j + 1 ==> #[trigger] ps[k] == str_token(ms[k].0@) + seq![58u8, 32u8] + token(
                ms[k].1,
            ) && !is_container(ms[k].1)) && outp == out1,
        !pp ==> j + 1 > 0 && (exists|k: int| 0 <= k < j + 1 && is_container((#[trigger] ms[k]).1))
            && outp == out1 + obj_ml_to(ms, j + 1, d, ind),
{
    broadcast use crate::seqs::seq_add_empty_left, crate::seqs::seq_add_empty_right;

    if sp {
        assert(s1.last() == Seq::<u8>::empty());
        assert(s2.last() == kt);
        assert(vs.last() == kt + seq![58u8, 32u8]);
        assert(vs.len() == j + 1);
        assert(forall|k: int| 0 <= k < j ==> #[trigger] vs[k] == ss[k]);
        if !is_container(ms[j].1) {
            assert(ps[j] == kt + seq![58u8, 32u8] + token(ms[j].1));
            assert forall|k: int| 0 <= k < j + 1 implies #[trigger] ps[k] == str_token(ms[k].0@)
                + seq![58u8, 32u8] + token(ms[k].1) && !is_container(ms[k].1) by {
                if k < j {
                    assert(ss[k] == str_token(ms[k].0@) + seq![58u8, 32u8] + token(ms[k].1)
                        && !is_container(ms[k].1));
                }
            }
        } else {
            let slots1 = vs.update(vs.len() - 1, vs.last() + seq![open_byte(ms[j].1)]);
            assert(slots1[j] == str_token(ms[j].0@) + seq![58u8, 32u8] + seq![open_byte(ms[j].1)]);
            assert forall|k: int| 0 <= k < j implies #[trigger] slots1[k] == str_token(ms[k].0@)
                + seq![58u8, 32u8] + token(ms[k].1) && !is_container(ms[k].1) by {
                assert(ss[k] == str_token(ms[k].0@) + seq![58u8, 32u8] + token(ms[k].1)
                    && !is_container(ms[k].1));
            }
            lemma_obj_enter_ml(ms, slots1, j, d, ind, out1);
        }
    } else {
        assert(render(ms[j].1, d, ind) == if is_container(ms[j].1) {
            seq![open_byte(ms[j].1)] + body_render(ms[j].1, d, ind)
        } else {
            token(ms[j].1)
        });
        assert(outp == out1 + obj_ml_to(ms, j, d, ind) + seq![44u8] + seq![10u8] + reps(ind, d)
            + kt + seq![58u8, 32u8] + render(ms[j].1, d, ind));
        assert(out1 + obj_ml_to(ms, j, d, ind) + seq![44u8] + seq![10u8] + reps(ind, d) + kt
            + seq![58u8, 32u8] + render(ms[j].1, d, ind) =~= out1 + obj_ml_to(ms, j + 1, d, ind));
    }
}

/// Closing an array ties the loop's final state to the array's rendered body.
#[verifier::rlimit(100)]
proof fn lemma_arr_close(
    es: Seq<Json>,
    m: nat,
    ind: Seq<u8>,
    old_out: Seq<u8>,
    out1: Seq<u8>,
    pend0: bool,
    slots0: Seq<Seq<u8>>,
    lp: bool,
    ls: Seq<Seq<u8>>,
    outl: Seq<u8>,
    outp: Seq<u8>,
)
    requires
        pend0 ==> m >= 1 && slots0.len() >= 1 && out1 == old_out + flush_to(
            slots0.update(slots0.len() - 1, slots0.last() + seq![91u8]),
            slots0.len() as int,
            m,
            ind,
        ),
        !pend0 ==> out1 == old_out + seq![91u8],
        lp ==> ls.len() == es.len() && (forall|k: int|
            0 <= k < es.len() ==> #[trigger] ls[k] == token(es[k]) && !is_container(es[k])) && outl
            == out1,
        !lp ==> es.len() > 0 && (exists|k: int| 0 <= k < es.len() && is_container(#[trigger] es[k]))
            && outl == out1 + arr_ml_to(es, es.len() as int, (m + 1) as nat, ind),
        ({
            let fin = if m == 0 {
                seq![10u8]
            } else {
                Seq::<u8>::empty()
            };
            &&& (lp && ls.len() == 0 ==> outp == outl + seq![93u8] + fin)
            &&& (lp && ls.len() > 0 ==> outp == outl + inline_to(ls, ls.len() as int) + seq![32u8]
                + seq![93u8] + fin)
            &&& (!lp ==> outp == outl + seq![10u8] + reps(ind, m) + seq![93u8] + fin)
        }),
    ensures
        pend0 ==> outp == old_out + flush_to(
            slots0.update(slots0.len() - 1, slots0.last() + seq![91u8]),
            slots0.len() as int,
            m,
            ind,
        ) + arr_body(es, m, ind),
        !pend0 ==> outp == old_out + seq![91u8] + arr_body(es, m, ind) + (if m == 0 {
            seq![10u8]
        } else {
            Seq::<u8>::empty()
        }),
{
    let fin: Seq<u8> = if m == 0 {
        seq![10u8]
    } else {
        Seq::<u8>::empty()
    };
    if lp {
        if es.len() == 0 {
            assert(arr_body(es, m, ind) == seq![93u8]);
        } else {
            assert forall|k: int| 0 <= k < es.len() implies !is_container(#[trigger] es[k]) by {
                assert(ls[k] == token(es[k]) && !is_container(es[k]));
            }
            assert(arr_prim(es));
            lemma_arr_inline_slots(es, ls, es.len() as int);
            assert(arr_body(es, m, ind) == arr_inline_to(es, es.len() as int) + seq![32u8]
                + seq![93u8]);
        }
    } else {
        assert(!arr_prim(es));
        assert(arr_body(es, m, ind) == arr_ml_to(es, es.len() as int, (m + 1) as nat, ind)
            + seq![10u8] + reps(ind, m) + seq![93u8]);
    }
    if pend0 {
        assert(outp =~= old_out + flush_to(
            slots0.update(slots0.len() - 1, slots0.last() + seq![91u8]),
            slots0.len() as int,
            m,
            ind,
        ) + arr_body(es, m, ind));
    } else {
        assert(outp =~= old_out + seq![91u8] + arr_body(es, m, ind) + fin);
    }
}

/// Closing an object ties the loop's final state to the object's rendered
/// body.
#[verifier::rlimit(100)]
proof fn lemma_obj_close(
    ms: Seq<(String, Json)>,
    m: nat,
    ind: Seq<u8>,
    old_out: Seq<u8>,
    out1: Seq<u8>,
    pend0: bool,
    slots0: Seq<Seq<u8>>,
    lp: bool,
    ls: Seq<Seq<u8>>,
    outl: Seq<u8>,
    outp: Seq<u8>,
)
    requires
        pend0 ==> m >= 1 && slots0.len() >= 1 && out1 == old_out + flush_to(
            slots0.update(slots0.len() - 1, slots0.last() + seq![123u8]),
            slots0.len() as int,
            m,
            ind,
        ),
        !pend0 ==> out1 == old_out + seq![123u8],
        lp ==> ls.len() == ms.len() && (forall|k: int|
            0 <= k < ms.len() ==> #[trigger] ls[k] == str_token(ms[k].0@) + seq![58u8, 32u8]
                + token(ms[k].1) && !is_container(ms[k].1)) && outl == out1,
        !lp ==> ms.len() > 0 && (exists|k: int|
            0 <= k < ms.len() && is_container((#[trigger] ms[k]).1)) && outl == out1 + obj_ml_to(
            ms,
            ms.len() as int,
            (m + 1) as nat,
            ind,
        ),
        ({
            let fin = if m == 0 {
                seq![10u8]
            } else {
                Seq::<u8>::empty()
            };
            &&& (lp && ls.len() == 0 ==> outp == outl + seq![125u8] + fin)
            &&& (lp && ls.len() > 0 ==> outp == outl + inline_to(ls, ls.len() as int) + seq![32u8]
                + seq![125u8] + fin)
            &&& (!lp ==> outp == outl + seq![10u8] + reps(ind, m) + seq![125u8] + fin)
        }),
    ensures
        pend0 ==> outp == old_out + flush_to(
            slots0.update(slots0.len() - 1, slots0.last() + seq![123u8]),
            slots0.len() as int,
            m,
            ind,
        ) + obj_body(ms, m, ind),
        !pend0 ==> outp == old_out + seq![123u8] + obj_body(ms, m, ind) + (if m == 0 {
            seq![10u8]
        } else {
            Seq::<u8>::empty()
        }),
{
    let fin: Seq<u8> = if m == 0 {
        seq![10u8]
    } else {
        Seq::<u8>::empty()
    };
    if lp {
        if ms.len() == 0 {
            assert(obj_body(ms, m, ind) == seq![125u8]);
        } else {
            assert forall|k: int| 0 <= k < ms.len() implies !is_container((#[trigger] ms[k]).1) by {
                assert(ls[k] == str_token(ms[k].0@) + seq![58u8, 32u8] + token(ms[k].1)
                    && !is_container(ms[k].1));
            }
            assert(obj_prim(ms));
            lemma_obj_inline_slots(ms, ls, ms.len() as int);
        }
    } else {
        assert(!obj_prim(ms));
    }
    if pend0 {
        assert(outp =~= old_out + flush_to(
            slots0.update(slots0.len() - 1, slots0.last() + seq![123u8]),
            slots0.len() as int,
            m,
            ind,
        ) + obj_body(ms, m, ind));
    } else {
        assert(outp =~= old_out + seq![123u8] + obj_body(ms, m, ind) + fin);
    }
}

/// Serialize one value through the formatter. While the enclosing container
/// is still buffering, a scalar's token lands in the open slot and a nested
/// container forces the buffered members out in multi-line form; with no
/// buffer pending, the value's rendering at the current depth goes to the
/// sink, followed by the trailing newline when a container closes at the top
/// level.
#[verifier::rlimit(100)]
pub fn write_value(f: &mut Formatter, out: &mut Vec<u8>, v: &Json)
    requires
        old(f).ready(),
        old(f).is_pending() ==> old(f).depth() >= 1,
        old(f).depth() + jdepth(*v) <= usize::MAX,
    ensures
        final(f).ind() == old(f).ind(),
        final(f).depth() == old(f).depth(),
        !is_container(*v) ==> final(f).is_pending() == old(f).is_pending(),
        is_container(*v) ==> !final(f).is_pending(),
        !is_container(*v) && old(f).is_pending() ==> final(f).slots() == old(f).slots().update(
            old(f).slots().len() - 1,
            old(f).slots().last() + token(*v),
        ) && final(out)@ == old(out)@,
        !is_container(*v) && !old(f).is_pending() ==> *final(f) == *old(f) && final(out)@ == old(
            out,
        )@ + token(*v),
        is_container(*v) && old(f).is_pending() ==> final(out)@ == old(out)@ + flush_to(
            old(f).slots().update(
                old(f).slots().len() - 1,
                old(f).slots().last() + seq![open_byte(*v)],
            ),
            old(f).slots().len() as int,
            old(f).depth(),
            old(f).ind(),
        ) + body_render(*v, old(f).depth(), old(f).ind()),
        is_container(*v) && !old(f).is_pending() ==> final(out)@ == old(out)@ + render(
            *v,
            old(f).depth(),
            old(f).ind(),
        ) + (if old(f).depth() == 0 {
            seq![10u8]
        } else {
            Seq::<u8>::empty()
        }),
    decreases *v,
{
    let ghost m = old(f).depth();
    let ghost ind0 = old(f).ind();
    let ghost pend0 = old(f).is_pending();
    let ghost slots0 = old(f).slots();
    match v {
        Json::Arr(es) => {
            proof {
                assert(jdepth(*v) == 1 + jdepth_arr(es@, 0));
            }
            let ob: [u8; 1] = [91];
            proof {
                assert(ob@ =~= seq![91u8]);
            }
            f.begin(out, ob.as_slice());
            let ghost out1 = out@;
            let mut i: usize = 0;
            while i < es.len()
                invariant
                    *v == Json::Arr(*es),
                    f.ind() == ind0,
                    f.depth() == m + 1,
                    m + 1 + jdepth_arr(es@, 0) <= usize::MAX,
                    i <= es.len(),
                    f.is_pending() ==> f.slots().len() == i as int && (forall|k: int|
                        0 <= k < i ==> #[trigger] f.slots()[k] == token(es@[k]) && !is_container(
                            es@[k],
                        )) && out@ == out1,
                    !f.is_pending() ==> i > 0 && (exists|k: int|
                        0 <= k < i && is_container(#[trigger] es@[k])) && out@ == out1 + arr_ml_to(
                        es@,
                        i as int,
                        (m + 1) as nat,
                        ind0,
                    ),
                decreases es.len() - i,
            {
                let ghost sp = f.is_pending();
                let ghost ss = f.slots();
                let ghost outs = out@;
                f.value(out, i == 0);
                let ghost vs = f.slots();
                let ghost outv = out@;
                proof {
                    lemma_jdepth_arr_ge(es@, 0, i as int);
                    assert(decreases_to!(*v => (*v)->Arr_0));
                    assert((*v)->Arr_0 == *es);
                    assert(decreases_to!(*es => es@));
                    assert(decreases_to!(es@ => es@[i as int]));
                }
                write_value(f, out, &es[i]);
                proof {
                    lemma_arr_iter(
                        es@,
                        i as int,
                        (m + 1) as nat,
                        ind0,
                        out1,
                        sp,
                        ss,
                        outs,
                        vs,
                        outv,
                        f.is_pending(),
                        f.slots(),
                        out@,
                    );
                }
                i += 1;
            }
            let cb: [u8; 1] = [93];
            proof {
                assert(cb@ =~= seq![93u8]);
            }
            let ghost lp = f.is_pending();
            let ghost ls = f.slots();
            let ghost outl = out@;
            f.end(out, cb.as_slice());
            proof {
                lemma_arr_close(es@, m, ind0, old(out)@, out1, pend0, slots0, lp, ls, outl, out@);
                assert(body_render(*v, m, ind0) == arr_body(es@, m, ind0));
                assert(render(*v, m, ind0) == seq![91u8] + arr_body(es@, m, ind0));
            }
        },
        Json::Obj(ms) => {
            proof {
                assert(jdepth(*v) == 1 + jdepth_obj(ms@, 0));
            }
            let ob: [u8; 1] = [123];
            proof {
                assert(ob@ =~= seq![123u8]);
            }
            f.begin(out, ob.as_slice());
            let ghost out1 = out@;
            let mut i: usize = 0;
            while i < ms.len()
                invariant
                    *v == Json::Obj(*ms),
                    f.ind() == ind0,
                    f.depth() == m + 1,
                    m + 1 + jdepth_obj(ms@, 0) <= usize::MAX,
                    i <= ms.len(),
                    f.is_pending() ==> f.slots().len() == i as int && (forall|k: int|
                        0 <= k < i ==> #[trigger] f.slots()[k] == str_token(ms@[k].0@) + seq![
                            58u8,
                            32u8,
                        ] + token(ms@[k].1) && !is_container(ms@[k].1)) && out@ == out1,
                    !f.is_pending() ==> i > 0 && (exists|k: int|
                        0 <= k < i && is_container((#[trigger] ms@[k]).1)) && out@ == out1
                        + obj_ml_to(ms@, i as int, (m + 1) as nat, ind0),
                decreases ms.len() - i,
            {
                let ghost sp = f.is_pending();
                let ghost ss = f.slots();
                let ghost outs = out@;
                f.value(out, i == 0);
                let ghost s1 = f.slots();
                let kt = key_token(&ms[i].0);
                f.writer(out, kt.as_slice());
                let ghost s2 = f.slots();
                let cs: [u8; 2] = [58, 32];
                f.writer(out, cs.as_slice());
                let ghost vs = f.slots();
                let ghost outv = out@;
                proof {
                    lemma_jdepth_obj_ge(ms@, 0, i as int);
                    assert(decreases_to!(*v => (*v)->Obj_0));
                    assert((*v)->Obj_0 == *ms);
                    assert(decreases_to!(*ms => ms@));
                    assert(decreases_to!(ms@ => ms@[i as int]));
                    assert(decreases_to!(ms@[i as int] => ms@[i as int].1));
                }
                write_value(f, out, &ms[i].1);
                proof {
                    lemma_obj_iter(
                        ms@,
                        i as int,
                        (m + 1) as nat,
                        ind0,
                        out1,
                        kt@,
                        sp,
                        ss,
                        outs,
                        s1,
                        s2,
                        vs,
                        outv,
                        f.is_pending(),
                        f.slots(),
                        out@,
                    );
                }
                i += 1;
            }
            let cb: [u8; 1] = [125];
            proof {
                assert(cb@ =~= seq![125u8]);
            }
            let ghost lp = f.is_pending();
            let ghost ls = f.slots();
            let ghost outl = out@;
            f.end(out, cb.as_slice());
            proof {
                lemma_obj_close(ms@, m, ind0, old(out)@, out1, pend0, slots0, lp, ls, outl, out@);
                assert(body_render(*v, m, ind0) == obj_body(ms@, m, ind0));
                assert(render(*v, m, ind0) == seq![123u8] + obj_body(ms@, m, ind0));
            }
        },
        _ => {
            let t = token_bytes(v);
            f.writer(out, t.as_slice());
        },
    }
}

/// Serialize a value as a pretty-printed JSON byte vector, with the default
/// two-space indent.
pub fn to_vec(value: &Json) -> (out: Vec<u8>)
    requires
        jdepth(*value) <= usize::MAX,
    ensures
        out@ == doc_render(*value, seq![32u8, 32u8]),
{
    let mut f = Formatter::new();
    let mut out: Vec<u8> = Vec::new();
    write_value(&mut f, &mut out, value);
    proof {
        assert(out@ =~= doc_render(*value, seq![32u8, 32u8]));
    }
    out
}

/// Serialize a value as a pretty-printed JSON byte vector with the given
/// indent unit.
pub fn to_vec_with_indent(value: &Json, indent: &[u8]) -> (out: Vec<u8>)
    requires
        jdepth(*value) <= usize::MAX,
    ensures
        out@ == doc_render(*value, indent@),
{
    let mut f = Formatter::with_indent(indent);
    let mut out: Vec<u8> = Vec::new();
    write_value(&mut f, &mut out, value);
    proof {
        assert(out@ =~= doc_render(*value, indent@));
    }
    out
}

} // verus!
