use vstd::prelude::*;

verus! {

broadcast use crate::seqs::seq_add_assoc_l, crate::seqs::seq_add_empty_left, crate::seqs::seq_add_empty_right;

/// The indent unit repeated `n` times.
pub open spec fn reps(ind: Seq<u8>, n: nat) -> Seq<u8>
    decreases n,
{
    if n == 0 {
        Seq::empty()
    } else {
        reps(ind, (n - 1) as nat) + ind
    }
}

/// The byte contents of each buffered slot.
pub open spec fn views_of(s: Seq<Vec<u8>>) -> Seq<Seq<u8>> {
    Seq::new(s.len(), |i: int| s[i]@)
}

/// The bytes emitted when the first `n` slots of a pending buffer are flushed
/// to multi-line form at depth `d`: each slot on its own line, preceded by a
/// newline and `d` indent units, with a comma before every slot but the first.
pub open spec fn flush_to(slots: Seq<Seq<u8>>, n: int, d: nat, ind: Seq<u8>) -> Seq<u8>
    decreases n,
{
    if n <= 0 {
        Seq::empty()
    } else {
        flush_to(slots, n - 1, d, ind) + (if n - 1 > 0 {
            seq![44u8]
        } else {
            Seq::<u8>::empty()
        }) + seq![10u8] + reps(ind, d) + slots[n - 1]
    }
}

/// The bytes emitted when the first `n` slots of a pending buffer are written
/// on a single line: a space before the first slot, `, ` before each later
/// slot.
pub open spec fn inline_to(slots: Seq<Seq<u8>>, n: int) -> Seq<u8>
    decreases n,
{
    if n <= 0 {
        Seq::empty()
    } else {
        inline_to(slots, n - 1) + (if n - 1 == 0 {
            seq![32u8]
        } else {
            seq![44u8, 32u8]
        }) + slots[n - 1]
    }
}

/// One step of a multi-line flush: writing the separator, the line break with
/// indentation, and the next slot extends the flushed prefix by one slot.
proof fn lemma_flush_step(slots: Seq<Seq<u8>>, i: int, d: nat, ind: Seq<u8>, pre: Seq<u8>)
    requires
        0 <= i < slots.len(),
    ensures
        pre + flush_to(slots, i, d, ind) + (if i > 0 {
            seq![44u8]
        } else {
            Seq::<u8>::empty()
        }) + seq![10u8] + reps(ind, d) + slots[i] == pre + flush_to(slots, i + 1, d, ind),
{
    broadcast use crate::seqs::group_seq_facts;

}

/// Append a byte slice to a growable byte buffer.
fn push_bytes(out: &mut Vec<u8>, bytes: &[u8])
    ensures
        final(out)@ == old(out)@ + bytes@,
{
    let mut i: usize = 0;
    while i < bytes.len()
        invariant
            i <= bytes.len(),
            out@ == old(out)@ + bytes@.subrange(0, i as int),
        decreases bytes.len() - i,
    {
        out.push(bytes[i]);
        i += 1;
        proof {
            assert(old(out)@ + bytes@.subrange(0, i - 1 as int) + seq![bytes@[i - 1]] =~= old(
                out,
            )@ + bytes@.subrange(0, i as int));
        }
    }
    proof {
        assert(bytes@.subrange(0, bytes@.len() as int) =~= bytes@);
    }
}

/// A pretty-printer that renders primitive-only arrays and objects on a
/// single line and everything else multi-line.
///
/// `current_indent` is the nesting depth of the container currently open.
/// `buffer` is present exactly while the innermost open container is still a
/// single-line candidate; it holds one already-rendered byte slot per member
/// seen so far.
pub struct Formatter {
    current_indent: usize,
    buffer: Option<Vec<Vec<u8>>>,
    indent: Vec<u8>,
}

impl Formatter {
    /// The nesting depth of the container currently open.
    pub closed spec fn depth(self) -> nat {
        self.current_indent as nat
    }

    /// The indent unit.
    pub closed spec fn ind(self) -> Seq<u8> {
        self.indent@
    }

    /// Whether the innermost open container is still a single-line candidate.
    pub closed spec fn is_pending(self) -> bool {
        self.buffer is Some
    }

    /// The member slots buffered for the innermost open container.
    pub closed spec fn slots(self) -> Seq<Seq<u8>> {
        match self.buffer {
            Some(b) => views_of(b@),
            None => Seq::empty(),
        }
    }

    /// A pending buffer, when present, has a slot to write into.
    pub open spec fn ready(self) -> bool {
        self.is_pending() ==> self.slots().len() > 0
    }

    /// Construct a formatter that uses two spaces for indentation.
    pub fn new() -> (f: Formatter)
        ensures
            f.depth() == 0,
            !f.is_pending(),
            f.ind() == seq![32u8, 32u8],
    {
        let two_spaces: [u8; 2] = [32, 32];
        Formatter::with_indent(two_spaces.as_slice())
    }

    /// Construct a formatter that uses the given byte sequence for
    /// indentation.
    pub fn with_indent(indent: &[u8]) -> (f: Formatter)
        ensures
            f.depth() == 0,
            !f.is_pending(),
            f.ind() == indent@,
    {
        let mut ind: Vec<u8> = Vec::new();
        push_bytes(&mut ind, indent);
        Formatter { current_indent: 0, buffer: None, indent: ind }
    }

    /// Write bytes to the current target: the last slot of the pending buffer
    /// when one exists, the output sink otherwise.
    pub fn writer(&mut self, out: &mut Vec<u8>, bytes: &[u8])
        requires
            old(self).ready(),
        ensures
            final(self).depth() == old(self).depth(),
            final(self).ind() == old(self).ind(),
            final(self).is_pending() == old(self).is_pending(),
            old(self).is_pending() ==> final(self).slots() == old(self).slots().update(
                old(self).slots().len() - 1,
                old(self).slots().last() + bytes@,
            ) && final(out)@ == old(out)@,
            !old(self).is_pending() ==> *final(self) == *old(self) && final(out)@ == old(out)@ + bytes@,
    {
        let b = self.buffer.take();
        match b {
            Some(mut buf) => {
                let ghost prior = views_of(buf@);
                let mut slot = buf.pop().unwrap();
                push_bytes(&mut slot, bytes);
                buf.push(slot);
                self.buffer = Some(buf);
                proof {
                    assert(self.slots() =~= prior.update(
                        prior.len() - 1,
                        prior.last() + bytes@,
                    ));
                }
            },
            None => {
                push_bytes(out, bytes);
            },
        }
    }

    /// Write a newline and the current indentation.
    pub fn indent(&mut self, out: &mut Vec<u8>)
        ensures
            *final(self) == *old(self),
            final(out)@ == old(out)@ + seq![10u8] + reps(old(self).ind(), old(self).depth()),
    {
        let nl: [u8; 1] = [10];
        push_bytes(out, nl.as_slice());
        let mut i: usize = 0;
        while i < self.current_indent
            invariant
                i <= self.current_indent,
                *self == *old(self),
                out@ == old(out)@ + seq![10u8] + reps(old(self).ind(), i as nat),
            decreases self.current_indent - i,
        {
            push_bytes(out, self.indent.as_slice());
            i += 1;
        }
    }

    /// Open a container. The delimiter goes to the current target; any
    /// pending buffer belongs to the enclosing container, which has just been
    /// proven to hold a nested container, so it is flushed to multi-line form
    /// and a fresh buffer is started for the new container.
    #[verifier::rlimit(50)]
    pub fn begin(&mut self, out: &mut Vec<u8>, bytes: &[u8])
        requires
            old(self).ready(),
            old(self).depth() < usize::MAX,
        ensures
            final(self).ind() == old(self).ind(),
            final(self).depth() == old(self).depth() + 1,
            final(self).is_pending(),
            final(self).slots() == Seq::<Seq<u8>>::empty(),
            !old(self).is_pending() ==> final(out)@ == old(out)@ + bytes@,
            old(self).is_pending() ==> final(out)@ == old(out)@ + flush_to(
                old(self).slots().update(
                    old(self).slots().len() - 1,
                    old(self).slots().last() + bytes@,
                ),
                old(self).slots().len() as int,
                old(self).depth(),
                old(self).ind(),
            ),
    {
        self.writer(out, bytes);
        let prev = self.buffer.take();
        self.buffer = Some(Vec::new());
        let ghost mid = out@;
        match prev {
            Some(buf) => {
                let ghost slots = views_of(buf@);
                let mut i: usize = 0;
                while i < buf.len()
                    invariant
                        i <= buf.len(),
                        slots == views_of(buf@),
                        slots.len() == buf.len(),
                        self.current_indent == old(self).current_indent,
                        self.indent@ == old(self).ind(),
                        self.buffer is Some,
                        self.slots() == Seq::<Seq<u8>>::empty(),
                        out@ == mid + flush_to(
                            slots,
                            i as int,
                            old(self).depth(),
                            old(self).ind(),
                        ),
                    decreases buf.len() - i,
                {
                    if i > 0 {
                        let comma: [u8; 1] = [44];
                        push_bytes(out, comma.as_slice());
                    }
                    self.indent(out);
                    push_bytes(out, buf[i].as_slice());
                    proof {
                        lemma_flush_step(
                            slots,
                            i as int,
                            old(self).depth(),
                            old(self).ind(),
                            mid,
                        );
                    }
                    i += 1;
                }
            },
            None => {},
        }
        self.current_indent = self.current_indent + 1;
    }

    /// Close a container. A still-pending non-empty buffer is written on one
    /// line, space-bracketed; an empty one contributes nothing; an absent one
    /// means the container went multi-line, so the delimiter lands on its own
    /// line. A closing top-level container is followed by a newline.
    pub fn end(&mut self, out: &mut Vec<u8>, bytes: &[u8])
        requires
            old(self).depth() >= 1,
        ensures
            final(self).ind() == old(self).ind(),
            final(self).depth() == old(self).depth() - 1,
            !final(self).is_pending(),
            ({
                let fin = if old(self).depth() == 1 {
                    seq![10u8]
                } else {
                    Seq::<u8>::empty()
                };
                &&& (old(self).is_pending() && old(self).slots().len() == 0 ==> final(out)@ == old(out)@
                    + bytes@ + fin)
                &&& (old(self).is_pending() && old(self).slots().len() > 0 ==> final(out)@ == old(out)@
                    + inline_to(old(self).slots(), old(self).slots().len() as int) + seq![32u8]
                    + bytes@ + fin)
                &&& (!old(self).is_pending() ==> final(out)@ == old(out)@ + seq![10u8] + reps(
                    old(self).ind(),
                    (old(self).depth() - 1) as nat,
                ) + bytes@ + fin)
            }),
    {
        self.current_indent = self.current_indent - 1;
        let b = self.buffer.take();
        let ghost slots = old(self).slots();
        match b {
            Some(buf) => {
                let mut i: usize = 0;
                while i < buf.len()
                    invariant
                        i <= buf.len(),
                        slots == views_of(buf@),
                        slots.len() == buf.len(),
                        self.current_indent == old(self).current_indent - 1,
                        self.indent@ == old(self).ind(),
                        self.buffer is None,
                        out@ == old(out)@ + inline_to(slots, i as int),
                    decreases buf.len() - i,
                {
                    if i == 0 {
                        let sp: [u8; 1] = [32];
                        push_bytes(out, sp.as_slice());
                    } else {
                        let cs: [u8; 2] = [44, 32];
                        push_bytes(out, cs.as_slice());
                    }
                    push_bytes(out, buf[i].as_slice());
                    i += 1;
                }
                if buf.len() > 0 {
                    let sp: [u8; 1] = [32];
                    push_bytes(out, sp.as_slice());
                }
            },
            None => {
                self.indent(out);
            },
        }
        push_bytes(out, bytes);
        if self.current_indent == 0 {
            self.indent(out);
        }
    }

    /// Start a member (an array element, or an object key). While a pending
    /// buffer exists the member gets a fresh slot; in multi-line mode every
    /// member but the first is preceded by a comma, a newline and the current
    /// indentation.
    pub fn value(&mut self, out: &mut Vec<u8>, first: bool)
        ensures
            final(self).depth() == old(self).depth(),
            final(self).ind() == old(self).ind(),
            final(self).is_pending() == old(self).is_pending(),
            old(self).is_pending() ==> final(self).slots() == old(self).slots().push(Seq::<u8>::empty())
                && final(out)@ == old(out)@,
            !old(self).is_pending() && first ==> *final(self) == *old(self) && final(out)@ == old(out)@,
            !old(self).is_pending() && !first ==> final(out)@ == old(out)@ + seq![44u8] + seq![10u8]
                + reps(old(self).ind(), old(self).depth()),
    {
        let b = self.buffer.take();
        match b {
            Some(mut buf) => {
                let ghost prior = views_of(buf@);
                buf.push(Vec::new());
                self.buffer = Some(buf);
                proof {
                    assert(self.slots() =~= prior.push(Seq::<u8>::empty()));
                }
            },
            None => {
                if !first {
                    let comma: [u8; 1] = [44];
                    push_bytes(out, comma.as_slice());
                    self.indent(out);
                }
            },
        }
    }

    /// The current nesting depth, for callers outside verified code.
    pub fn depth_now(&self) -> (d: usize)
        ensures
            d as nat == self.depth(),
    {
        self.current_indent
    }

    /// Whether a write through the target-selection rule is possible: true
    /// when no buffer is pending, or the pending buffer has a slot open.
    pub fn is_ready(&self) -> (b: bool)
        ensures
            b == self.ready(),
    {
        match &self.buffer {
            Some(buf) => buf.len() > 0,
            None => true,
        }
    }
}

impl Default for Formatter {
    /// The default formatter indents with two spaces.
    fn default() -> (f: Self)
        ensures
            f.depth() == 0,
            !f.is_pending(),
            f.ind() == seq![32u8, 32u8],
    {
        Formatter::new()
    }
}

} // verus!
