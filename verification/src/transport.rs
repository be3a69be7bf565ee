//! The write discipline of the serial link.
//!
//! The rotator controller takes its input one byte at a time, and only when
//! the link's buffers were cleared just before each byte. The library states
//! that discipline as a plan of operations; whoever owns the link carries the
//! plan out in order.

use vstd::prelude::*;

verus! {

/// One operation on the serial link.
#[derive(Clone, Copy, Debug, PartialEq, Eq, Structural)]
pub enum TransportOp {
    /// Clear the link's input and output buffers.
    ClearBuffers,
    /// Write this single byte.
    WriteByte(u8),
}

/// The operations that send `bytes`: for each byte in order, a clearing of
/// the buffers and then the write of that byte alone.
pub open spec fn write_plan_of(bytes: Seq<u8>) -> Seq<TransportOp> {
    Seq::new(
        2 * bytes.len(),
        |i: int|
            if i % 2 == 0 {
                TransportOp::ClearBuffers
            } else {
                TransportOp::WriteByte(bytes[i / 2])
            },
    )
}

/// Sending two texts one after the other is sending their concatenation: the
/// discipline adds nothing between them and drops nothing.
pub proof fn lemma_write_plan_concat(a: Seq<u8>, b: Seq<u8>)
    ensures
        write_plan_of(a + b) == write_plan_of(a) + write_plan_of(b),
{
    let left = write_plan_of(a + b);
    let right = write_plan_of(a) + write_plan_of(b);
    assert(left.len() == right.len());
    assert forall|i: int| 0 <= i < left.len() implies left[i] == right[i] by {
        if i < 2 * a.len() {
            assert(right[i] == write_plan_of(a)[i]);
        } else {
            assert(right[i] == write_plan_of(b)[i - 2 * a.len()]);
            assert((i - 2 * a.len()) % 2 == i % 2);
            assert((i - 2 * a.len()) / 2 == i / 2 - a.len());
        }
    }
    assert(left =~= right);
}

/// Appends to `plan` the operations that send `bytes`.
pub fn extend_write_plan(plan: &mut Vec<TransportOp>, bytes: &[u8])
    ensures
        final(plan)@ == old(plan)@ + write_plan_of(bytes@),
{
    let mut i: usize = 0;
    assert(plan@ =~= old(plan)@ + write_plan_of(bytes@.take(0)));
    while i < bytes.len()
        invariant
            i <= bytes@.len(),
            plan@ == old(plan)@ + write_plan_of(bytes@.take(i as int)),
        decreases bytes@.len() - i,
    {
        let ghost before = plan@;
        plan.push(TransportOp::ClearBuffers);
        plan.push(TransportOp::WriteByte(bytes[i]));
        proof {
            let one = seq![bytes@[i as int]];
            assert(bytes@.take(i + 1) =~= bytes@.take(i as int) + one);
            lemma_write_plan_concat(bytes@.take(i as int), one);
            assert(write_plan_of(one) =~= seq![
                TransportOp::ClearBuffers,
                TransportOp::WriteByte(bytes@[i as int]),
            ]);
            assert(plan@ =~= before + write_plan_of(one));
            assert(plan@ =~= old(plan)@ + (write_plan_of(bytes@.take(i as int)) + write_plan_of(
                one,
            )));
        }
        i = i + 1;
    }
    assert(bytes@.take(i as int) =~= bytes@);
}

/// The operations that send `bytes` under the link's write discipline.
pub fn write_plan(bytes: &[u8]) -> (plan: Vec<TransportOp>)
    ensures
        plan@ == write_plan_of(bytes@),
        plan@.len() == 2 * bytes@.len(),
{
    let mut plan: Vec<TransportOp> = Vec::new();
    extend_write_plan(&mut plan, bytes);
    assert(plan@ =~= write_plan_of(bytes@));
    plan
}

} // verus!
