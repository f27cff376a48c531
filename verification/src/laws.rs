use vstd::prelude::*;

use crate::agent::Agent;
use crate::connection::Connection;
use crate::connection::connection_wf;
use crate::eval::calculate_spec;
use crate::eval::keep;
use crate::eval::sorted_spec;
use crate::ops::ScalarOps;

verus! {

/// No dangling references: in a well-formed agent — and every agent the
/// library creates or mutates is one — each connection's start index lies
/// below the size of its start layer and its end index below the size of
/// its end layer.
pub proof fn lemma_no_dangling_references(a: Agent)
    requires
        a.well_formed(),
    ensures
        forall|j: int|
            0 <= j < a.connection_list@.len() ==> (#[trigger] a.connection_list@[j]).start_idx < (
            if a.connection_list@[j].start_layer == 0 {
                a.inputs
            } else {
                a.nodes
            }) && a.connection_list@[j].end_idx < (
            if a.connection_list@[j].end_layer == 1 {
                a.nodes
            } else {
                a.outputs
            }),
{
    assert forall|j: int| 0 <= j < a.connection_list@.len() implies (
    #[trigger] a.connection_list@[j]).start_idx < (
    if a.connection_list@[j].start_layer == 0 {
        a.inputs
    } else {
        a.nodes
    }) && a.connection_list@[j].end_idx < (
    if a.connection_list@[j].end_layer == 1 {
        a.nodes
    } else {
        a.outputs
    }) by {
        assert(connection_wf(a.connection_list@[j], a.inputs, a.nodes, a.outputs));
    }
}

/// `keep` distributes over concatenation.
pub proof fn lemma_keep_concat(a: Seq<Connection>, b: Seq<Connection>, sl: usize, el: usize)
    ensures
        keep(a + b, sl, el) == keep(a, sl, el) + keep(b, sl, el),
    decreases b.len(),
{
    if b.len() == 0 {
        assert(a + b =~= a);
        assert(keep(a, sl, el) + keep(b, sl, el) =~= keep(a, sl, el));
    } else {
        lemma_keep_concat(a, b.drop_last(), sl, el);
        assert((a + b).drop_last() =~= a + b.drop_last());
        assert((a + b).last() == b.last());
        if b.last().start_layer == sl && b.last().end_layer == el {
            assert(keep(a + b, sl, el) == keep(a + b.drop_last(), sl, el).push(b.last()));
            assert((keep(a, sl, el) + keep(b.drop_last(), sl, el)).push(b.last()) =~= keep(
                a,
                sl,
                el,
            ) + keep(b.drop_last(), sl, el).push(b.last()));
        } else {
            assert(keep(a + b, sl, el) == keep(a + b.drop_last(), sl, el));
        }
    }
}

/// Every connection `keep` retains carries exactly the layer pair it was
/// filtered for.
pub proof fn lemma_keep_layers(s: Seq<Connection>, sl: usize, el: usize)
    ensures
        forall|j: int|
            0 <= j < keep(s, sl, el).len() ==> (#[trigger] keep(s, sl, el)[j]).start_layer == sl
                && keep(s, sl, el)[j].end_layer == el,
    decreases s.len(),
{
    if s.len() > 0 {
        lemma_keep_layers(s.drop_last(), sl, el);
        let rest = keep(s.drop_last(), sl, el);
        assert forall|j: int| 0 <= j < keep(s, sl, el).len() implies (#[trigger] keep(
            s,
            sl,
            el,
        )[j]).start_layer == sl && keep(s, sl, el)[j].end_layer == el by {
            if s.last().start_layer == sl && s.last().end_layer == el {
                assert(keep(s, sl, el) == rest.push(s.last()));
                if j < rest.len() {
                    assert(keep(s, sl, el)[j] == rest[j]);
                } else {
                    assert(keep(s, sl, el)[j] == s.last());
                }
            } else {
                assert(keep(s, sl, el) == rest);
            }
        }
    }
}

/// `keep` leaves a sequence unchanged when every member already carries the
/// filtered layer pair.
pub proof fn lemma_keep_all(s: Seq<Connection>, sl: usize, el: usize)
    requires
        forall|i: int|
            0 <= i < s.len() ==> (#[trigger] s[i]).start_layer == sl && s[i].end_layer == el,
    ensures
        keep(s, sl, el) == s,
    decreases s.len(),
{
    if s.len() == 0 {
        assert(keep(s, sl, el) =~= s);
    } else {
        assert(forall|i: int| 0 <= i < s.drop_last().len() ==> #[trigger] s.drop_last()[i] == s[i]);
        lemma_keep_all(s.drop_last(), sl, el);
        assert(s.last() == s[s.len() - 1]);
        assert(keep(s, sl, el) == s.drop_last().push(s.last()));
        assert(s.drop_last().push(s.last()) =~= s);
    }
}

/// `keep` with one layer pair drops every member that carries a different
/// one.
pub proof fn lemma_keep_none(s: Seq<Connection>, sl: usize, el: usize, sl2: usize, el2: usize)
    requires
        sl != sl2 || el != el2,
        forall|i: int|
            0 <= i < s.len() ==> (#[trigger] s[i]).start_layer == sl2 && s[i].end_layer == el2,
    ensures
        keep(s, sl, el) == Seq::<Connection>::empty(),
    decreases s.len(),
{
    if s.len() > 0 {
        assert(forall|i: int| 0 <= i < s.drop_last().len() ==> #[trigger] s.drop_last()[i] == s[i]);
        lemma_keep_none(s.drop_last(), sl, el, sl2, el2);
        assert(s.last() == s[s.len() - 1]);
    }
}

/// Sorting the connection list is idempotent: a stably sorted list is a
/// fixed point of the sort.
pub proof fn lemma_sorted_idempotent(s: Seq<Connection>)
    ensures
        sorted_spec(sorted_spec(s)) == sorted_spec(s),
{
    let k01 = keep(s, 0, 1);
    let k02 = keep(s, 0, 2);
    let k11 = keep(s, 1, 1);
    let k12 = keep(s, 1, 2);
    lemma_keep_layers(s, 0, 1);
    lemma_keep_layers(s, 0, 2);
    lemma_keep_layers(s, 1, 1);
    lemma_keep_layers(s, 1, 2);
    let t = sorted_spec(s);
    assert(t == ((k01 + k02) + k11) + k12);
    assert forall|sl: usize, el: usize|
        (sl == 0 || sl == 1) && (el == 1 || el == 2) implies #[trigger] keep(t, sl, el) == keep(
        k01,
        sl,
        el,
    ) + keep(k02, sl, el) + keep(k11, sl, el) + keep(k12, sl, el) by {
        lemma_keep_concat((k01 + k02) + k11, k12, sl, el);
        lemma_keep_concat(k01 + k02, k11, sl, el);
        lemma_keep_concat(k01, k02, sl, el);
    }
    lemma_keep_all(k01, 0, 1);
    lemma_keep_none(k02, 0, 1, 0, 2);
    lemma_keep_none(k11, 0, 1, 1, 1);
    lemma_keep_none(k12, 0, 1, 1, 2);
    assert(keep(t, 0, 1) =~= k01);
    lemma_keep_none(k01, 0, 2, 0, 1);
    lemma_keep_all(k02, 0, 2);
    lemma_keep_none(k11, 0, 2, 1, 1);
    lemma_keep_none(k12, 0, 2, 1, 2);
    assert(keep(t, 0, 2) =~= k02);
    lemma_keep_none(k01, 1, 1, 0, 1);
    lemma_keep_none(k02, 1, 1, 0, 2);
    lemma_keep_all(k11, 1, 1);
    lemma_keep_none(k12, 1, 1, 1, 2);
    assert(keep(t, 1, 1) =~= k11);
    lemma_keep_none(k01, 1, 2, 0, 1);
    lemma_keep_none(k02, 1, 2, 0, 2);
    lemma_keep_none(k11, 1, 2, 1, 1);
    lemma_keep_all(k12, 1, 2);
    assert(keep(t, 1, 2) =~= k12);
    assert(sorted_spec(t) == sorted_spec(s));
}

/// Evaluation is idempotent. A successful `calculate` call sorts the
/// connection list in place and overwrites only the scratch value buffers,
/// which the next call resets anyway — so calling `calculate` again on the
/// resulting agent, with the same input and operations, yields exactly the
/// same outputs.
pub proof fn lemma_calculate_idempotent<A: ScalarOps>(
    ops: A,
    parent: Agent,
    evaluated: Agent,
    input: Seq<u32>,
)
    requires
        evaluated.nodes == parent.nodes,
        evaluated.outputs == parent.outputs,
        evaluated.connection_list@ == sorted_spec(parent.connection_list@),
    ensures
        calculate_spec(ops, evaluated, input) == calculate_spec(ops, parent, input),
{
    lemma_sorted_idempotent(parent.connection_list@);
}

} // verus!
