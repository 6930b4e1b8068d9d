//! The service's laws, each proved against the dispatcher's mathematical
//! account (`step_map`, `step_err`). Commands act one at a time: the store's
//! critical section admits one command per request, so any concurrent
//! execution observes some serial order of whole commands, and these laws
//! quantify over every such order.

use vstd::prelude::*;

use crate::dispatch::{first_key, step_err, step_map};
use crate::protocol::{Command, KvError};

verus! {

/// The command is a `Set` or `Delete` aimed at key `k`: the only commands
/// that can change what `k` is bound to.
pub open spec fn writes_key(c: Command, k: Seq<char>) -> bool {
    (c.operation is Put || c.operation is Delete) && c.keys@.len() > 0 && first_key(c) == k
}

/// The store's mapping after a run of commands is dispatched in order.
pub open spec fn apply_all(m: Map<Seq<char>, Seq<u8>>, cmds: Seq<Command>) -> Map<
    Seq<char>,
    Seq<u8>,
>
    decreases cmds.len(),
{
    if cmds.len() == 0 {
        m
    } else {
        step_map(apply_all(m, cmds.drop_last()), cmds.last())
    }
}

/// A command that does not write `k` leaves `k`'s binding exactly as it was.
pub proof fn lemma_step_preserves_unwritten_key(
    m: Map<Seq<char>, Seq<u8>>,
    c: Command,
    k: Seq<char>,
)
    requires
        !writes_key(c, k),
    ensures
        step_map(m, c).contains_key(k) == m.contains_key(k),
        m.contains_key(k) ==> step_map(m, c)[k] == m[k],
{
}

/// A whole run of commands, none of which writes `k`, leaves `k`'s binding
/// exactly as it was.
pub proof fn lemma_run_preserves_unwritten_key(
    m: Map<Seq<char>, Seq<u8>>,
    cmds: Seq<Command>,
    k: Seq<char>,
)
    requires
        forall|i: int| 0 <= i < cmds.len() ==> !writes_key(#[trigger] cmds[i], k),
    ensures
        apply_all(m, cmds).contains_key(k) == m.contains_key(k),
        m.contains_key(k) ==> apply_all(m, cmds)[k] == m[k],
    decreases cmds.len(),
{
    if cmds.len() > 0 {
        assert(forall|i: int|
            0 <= i < cmds.drop_last().len() ==> #[trigger] cmds.drop_last()[i] == cmds[i]);
        lemma_run_preserves_unwritten_key(m, cmds.drop_last(), k);
        lemma_step_preserves_unwritten_key(apply_all(m, cmds.drop_last()), cmds.last(), k);
    }
}

/// After `Set(k, v)` completes, `Get(k)` returns `v` until a subsequent set
/// or delete of `k` completes: any run of further commands, none of which
/// writes `k`, keeps `k` bound to `v`, and a `Get` for `k` then succeeds —
/// by `dispatch`'s contract, with exactly the value the final mapping binds,
/// here `v`.
pub proof fn lemma_set_then_get(
    m: Map<Seq<char>, Seq<u8>>,
    s: Command,
    cmds: Seq<Command>,
    g: Command,
    k: Seq<char>,
    v: Seq<u8>,
)
    requires
        s.operation is Put && s.keys@.len() > 0 && first_key(s) == k,
        s.value is Some && s.value->Some_0@ == v,
        forall|i: int| 0 <= i < cmds.len() ==> !writes_key(#[trigger] cmds[i], k),
        g.operation is Get && g.keys@.len() > 0 && first_key(g) == k,
    ensures
        ({
            let after = apply_all(step_map(m, s), cmds);
            after.contains_key(k) && after[k] == v && step_err(after, g) is None
        }),
{
    lemma_run_preserves_unwritten_key(step_map(m, s), cmds, k);
}

/// A key never set is absent from the store, so `Get` for it reports
/// `NotFound` — whatever else the run did, deletes of `k` included.
pub proof fn lemma_never_written_not_found(cmds: Seq<Command>, g: Command, k: Seq<char>)
    requires
        forall|i: int|
            0 <= i < cmds.len() ==> !((#[trigger] cmds[i]).operation is Put && cmds[i].keys@.len()
                > 0 && first_key(cmds[i]) == k),
        g.operation is Get && g.keys@.len() > 0 && first_key(g) == k,
    ensures
        !apply_all(Map::<Seq<char>, Seq<u8>>::empty(), cmds).contains_key(k),
        step_err(apply_all(Map::<Seq<char>, Seq<u8>>::empty(), cmds), g) == Some(
            KvError::NotFound,
        ),
{
    lemma_absent_stays_absent(Map::<Seq<char>, Seq<u8>>::empty(), cmds, k);
}

/// A key absent from the store stays absent through any run of commands
/// that never sets it.
proof fn lemma_absent_stays_absent(m: Map<Seq<char>, Seq<u8>>, cmds: Seq<Command>, k: Seq<char>)
    requires
        !m.contains_key(k),
        forall|i: int|
            0 <= i < cmds.len() ==> !((#[trigger] cmds[i]).operation is Put && cmds[i].keys@.len()
                > 0 && first_key(cmds[i]) == k),
    ensures
        !apply_all(m, cmds).contains_key(k),
    decreases cmds.len(),
{
    if cmds.len() > 0 {
        assert(forall|i: int|
            0 <= i < cmds.drop_last().len() ==> #[trigger] cmds.drop_last()[i] == cmds[i]);
        lemma_absent_stays_absent(m, cmds.drop_last(), k);
    }
}

/// `Delete(k)` on an absent key succeeds — no error is reported — leaves
/// the store exactly as it was, and a subsequent `Get(k)` still reports
/// `NotFound`.
pub proof fn lemma_delete_absent(m: Map<Seq<char>, Seq<u8>>, d: Command, g: Command, k: Seq<char>)
    requires
        d.operation is Delete && d.keys@.len() > 0 && first_key(d) == k,
        !m.contains_key(k),
        g.operation is Get && g.keys@.len() > 0 && first_key(g) == k,
    ensures
        step_err(m, d) is None,
        step_map(m, d) == m,
        step_err(step_map(m, d), g) == Some(KvError::NotFound),
{
    assert(m.remove(k) =~= m);
}

/// `Delete` is idempotent: deleting the same key twice in a row yields the
/// same store state and the same result as deleting it once.
pub proof fn lemma_delete_idempotent(m: Map<Seq<char>, Seq<u8>>, d: Command)
    requires
        d.operation is Delete && d.keys@.len() > 0,
    ensures
        step_map(step_map(m, d), d) == step_map(m, d),
        step_err(step_map(m, d), d) == step_err(m, d),
{
    assert(step_map(m, d).remove(first_key(d)) =~= m.remove(first_key(d)));
}

/// Concurrent `Set(k, v1)` and `Set(k, v2)` are linearized by the store's
/// critical section: whichever of the two serial orders runs, afterwards
/// `k` is bound to exactly one of `v1` or `v2`, whole — never a mixture of
/// their bytes.
pub proof fn lemma_concurrent_sets(
    m: Map<Seq<char>, Seq<u8>>,
    s1: Command,
    s2: Command,
    k: Seq<char>,
    v1: Seq<u8>,
    v2: Seq<u8>,
)
    requires
        s1.operation is Put && s1.keys@.len() > 0 && first_key(s1) == k,
        s1.value is Some && s1.value->Some_0@ == v1,
        s2.operation is Put && s2.keys@.len() > 0 && first_key(s2) == k,
        s2.value is Some && s2.value->Some_0@ == v2,
    ensures
        ({
            let a = apply_all(m, seq![s1, s2]);
            a.contains_key(k) && (a[k] == v1 || a[k] == v2)
        }),
        ({
            let b = apply_all(m, seq![s2, s1]);
            b.contains_key(k) && (b[k] == v1 || b[k] == v2)
        }),
{
    assert(seq![s1, s2].drop_last() =~= seq![s1]);
    assert(seq![s1].drop_last() =~= Seq::<Command>::empty());
    assert(seq![s2, s1].drop_last() =~= seq![s2]);
    assert(seq![s2].drop_last() =~= Seq::<Command>::empty());
}

} // verus!
