//! One step of the engine, generic over the body and acceleration types.
//!
//! The arithmetic is supplied by the caller: `contribution(local, other)` is
//! the acceleration that `other` imparts on `local`, `accumulate` accumulates two
//! accelerations, and `commit(body, acc)` is the body after one time step
//! under acceleration `acc`. The engine owns the discipline around them:
//! every acceleration is read from the start-of-step snapshot, each body's
//! partners are visited in the order of `partners`, and all bodies are
//! committed together, none of them added or removed.
use vstd::prelude::*;
use crate::schedule::{partner_at, partners, partners_of};

verus! {

/// `acc` is a possible value of summing, from `zero`, the contributions to
/// body `i` of the snapshot `snap` by its first `k` partners, in order.
pub open spec fn sums_to<B, A, C: Fn(&B, &B) -> A, S: Fn(A, A) -> A>(
    contribution: C,
    accumulate: S,
    zero: A,
    snap: Seq<B>,
    i: int,
    k: nat,
    acc: A,
) -> bool
    decreases k,
{
    if k == 0 {
        acc == zero
    } else {
        exists|prev: A, a: A|
            #![trigger accumulate.ensures((prev, a), acc)]
            sums_to(contribution, accumulate, zero, snap, i, (k - 1) as nat, prev) && contribution.ensures(
                (&snap[i], &snap[partner_at(i as nat, (k - 1) as nat) as int]),
                a,
            ) && accumulate.ensures((prev, a), acc)
    }
}

/// `accs` holds, for every body of the snapshot, its summed acceleration
/// over all of its partners.
pub open spec fn accelerations_of<B, A, C: Fn(&B, &B) -> A, S: Fn(A, A) -> A>(
    contribution: C,
    accumulate: S,
    zero: A,
    snap: Seq<B>,
    accs: Seq<A>,
) -> bool {
    &&& accs.len() == snap.len()
    &&& forall|i: int|
        0 <= i < snap.len() ==> sums_to(
            contribution,
            accumulate,
            zero,
            snap,
            i,
            (snap.len() - 1) as nat,
            #[trigger] accs[i],
        )
}

/// `after` is a possible result of one step from `before`: as many bodies,
/// each one committed from its own start-of-step state and its summed
/// acceleration.
pub open spec fn step_result<B, A, C: Fn(&B, &B) -> A, S: Fn(A, A) -> A, U: Fn(&B, A) -> B>(
    contribution: C,
    accumulate: S,
    commit: U,
    zero: A,
    before: Seq<B>,
    after: Seq<B>,
) -> bool {
    exists|accs: Seq<A>|
        #![trigger accelerations_of(contribution, accumulate, zero, before, accs)]
        accelerations_of(contribution, accumulate, zero, before, accs) && after.len() == before.len()
            && forall|i: int|
            0 <= i < before.len() ==> commit.ensures((&before[i], accs[i]), #[trigger] after[i])
}

/// The summed acceleration of every body of `snap`, each read from `snap`
/// alone, partners visited in ascending order.
pub fn accelerations<B, A: Copy, C, S>(snap: &Vec<B>, zero: A, contribution: &C, accumulate: &S) -> (r:
    Vec<A>) where C: Fn(&B, &B) -> A, S: Fn(A, A) -> A
    requires
        forall|x: &B, y: &B| #[trigger] contribution.requires((x, y)),
        forall|p: A, q: A| #[trigger] accumulate.requires((p, q)),
    ensures
        accelerations_of(*contribution, *accumulate, zero, snap@, r@),
{
    let n = snap.len();
    let mut accs: Vec<A> = Vec::new();
    let mut i: usize = 0;
    while i < n
        invariant
            n == snap@.len(),
            i <= n,
            accs@.len() == i,
            forall|x: &B, y: &B| #[trigger] contribution.requires((x, y)),
            forall|p: A, q: A| #[trigger] accumulate.requires((p, q)),
            forall|m: int|
                0 <= m < i ==> sums_to(
                    *contribution,
                    *accumulate,
                    zero,
                    snap@,
                    m,
                    (n - 1) as nat,
                    #[trigger] accs@[m],
                ),
        decreases n - i,
    {
        let ps = partners(n, i);
        let mut acc = zero;
        let mut k: usize = 0;
        while k < ps.len()
            invariant
                n == snap@.len(),
                i < n,
                ps@ == partners_of(n as nat, i as nat),
                k <= ps@.len(),
                forall|x: &B, y: &B| #[trigger] contribution.requires((x, y)),
                forall|p: A, q: A| #[trigger] accumulate.requires((p, q)),
                sums_to(*contribution, *accumulate, zero, snap@, i as int, k as nat, acc),
            decreases ps@.len() - k,
        {
            let j = ps[k];
            let a = contribution(&snap[i], &snap[j]);
            let prev = acc;
            acc = accumulate(prev, a);
            k = k + 1;
            assert(sums_to(*contribution, *accumulate, zero, snap@, i as int, k as nat, acc));
        }
        accs.push(acc);
        i = i + 1;
    }
    accs
}

/// Advances every body by one time step: accelerations are summed from the
/// start-of-step state, then every body is committed.
pub fn step<B, A: Copy, C, S, U>(bodies: &mut Vec<B>, zero: A, contribution: &C, accumulate: &S, commit: &U)
    where C: Fn(&B, &B) -> A, S: Fn(A, A) -> A, U: Fn(&B, A) -> B
    requires
        forall|x: &B, y: &B| #[trigger] contribution.requires((x, y)),
        forall|p: A, q: A| #[trigger] accumulate.requires((p, q)),
        forall|b: &B, a: A| #[trigger] commit.requires((b, a)),
    ensures
        final(bodies)@.len() == old(bodies)@.len(),
        step_result(*contribution, *accumulate, *commit, zero, old(bodies)@, final(bodies)@),
{
    let accs = accelerations(bodies, zero, contribution, accumulate);
    let n = bodies.len();
    let mut next: Vec<B> = Vec::new();
    let mut i: usize = 0;
    while i < n
        invariant
            n == bodies@.len(),
            accs@.len() == n,
            i <= n,
            next@.len() == i,
            forall|b: &B, a: A| #[trigger] commit.requires((b, a)),
            forall|m: int|
                0 <= m < i ==> commit.ensures((&bodies@[m], accs@[m]), #[trigger] next@[m]),
        decreases n - i,
    {
        let b = commit(&bodies[i], accs[i]);
        next.push(b);
        i = i + 1;
    }
    proof {
        let before = bodies@;
        assert(accelerations_of(*contribution, *accumulate, zero, before, accs@));
    }
    *bodies = next;
}

/// A closure of two arguments gives one result for each pair of arguments.
pub open spec fn functional2<X, Y, R, F: Fn(X, Y) -> R>(f: F) -> bool {
    forall|x: X, y: Y, r1: R, r2: R|
        #[trigger] f.ensures((x, y), r1) && #[trigger] f.ensures((x, y), r2) ==> r1 == r2
}

/// Summing a body's contributions is deterministic when the arithmetic is.
pub proof fn lemma_sums_to_unique<B, A, C: Fn(&B, &B) -> A, S: Fn(A, A) -> A>(
    contribution: C,
    accumulate: S,
    zero: A,
    snap: Seq<B>,
    i: int,
    k: nat,
    acc1: A,
    acc2: A,
)
    requires
        functional2(contribution),
        functional2(accumulate),
        sums_to(contribution, accumulate, zero, snap, i, k, acc1),
        sums_to(contribution, accumulate, zero, snap, i, k, acc2),
    ensures
        acc1 == acc2,
    decreases k,
{
    if k > 0 {
        let (p1, a1) = choose|prev: A, a: A|
            sums_to(contribution, accumulate, zero, snap, i, (k - 1) as nat, prev)
                && contribution.ensures(
                (&snap[i], &snap[partner_at(i as nat, (k - 1) as nat) as int]),
                a,
            ) && #[trigger] accumulate.ensures((prev, a), acc1);
        let (p2, a2) = choose|prev: A, a: A|
            sums_to(contribution, accumulate, zero, snap, i, (k - 1) as nat, prev)
                && contribution.ensures(
                (&snap[i], &snap[partner_at(i as nat, (k - 1) as nat) as int]),
                a,
            ) && #[trigger] accumulate.ensures((prev, a), acc2);
        lemma_sums_to_unique(contribution, accumulate, zero, snap, i, (k - 1) as nat, p1, p2);
    }
}

/// Determinism: with deterministic arithmetic, one step from a given state
/// has exactly one result.
pub proof fn lemma_step_deterministic<
    B,
    A,
    C: Fn(&B, &B) -> A,
    S: Fn(A, A) -> A,
    U: Fn(&B, A) -> B,
>(contribution: C, accumulate: S, commit: U, zero: A, before: Seq<B>, after1: Seq<B>, after2: Seq<B>)
    requires
        functional2(contribution),
        functional2(accumulate),
        functional2(commit),
        step_result(contribution, accumulate, commit, zero, before, after1),
        step_result(contribution, accumulate, commit, zero, before, after2),
    ensures
        after1 == after2,
{
    let accs1 = choose|accs: Seq<A>|
        #[trigger] accelerations_of(contribution, accumulate, zero, before, accs) && after1.len()
            == before.len() && forall|i: int|
            0 <= i < before.len() ==> commit.ensures((&before[i], accs[i]), #[trigger] after1[i]);
    let accs2 = choose|accs: Seq<A>|
        #[trigger] accelerations_of(contribution, accumulate, zero, before, accs) && after2.len()
            == before.len() && forall|i: int|
            0 <= i < before.len() ==> commit.ensures((&before[i], accs[i]), #[trigger] after2[i]);
    assert forall|i: int| 0 <= i < before.len() implies after1[i] == after2[i] by {
        lemma_sums_to_unique(
            contribution,
            accumulate,
            zero,
            before,
            i,
            (before.len() - 1) as nat,
            accs1[i],
            accs2[i],
        );
    }
    assert(after1 =~= after2);
}

/// With one partner, a body's sum is the accumulation of that partner's
/// contribution onto `zero`.
proof fn lemma_single_partner<B, A, C: Fn(&B, &B) -> A, S: Fn(A, A) -> A>(
    contribution: C,
    accumulate: S,
    zero: A,
    snap: Seq<B>,
    i: int,
    acc: A,
) -> (a: A)
    requires
        sums_to(contribution, accumulate, zero, snap, i, 1, acc),
    ensures
        contribution.ensures((&snap[i], &snap[partner_at(i as nat, 0) as int]), a),
        accumulate.ensures((zero, a), acc),
{
    let (prev, a) = choose|prev: A, a: A|
        sums_to(contribution, accumulate, zero, snap, i, 0, prev) && contribution.ensures(
            (&snap[i], &snap[partner_at(i as nat, 0) as int]),
            a,
        ) && #[trigger] accumulate.ensures((prev, a), acc);
    a
}

/// Order independence for two bodies: with deterministic arithmetic,
/// stepping the pair in swapped order gives the swapped result.
pub proof fn lemma_two_body_order_independent<
    B,
    A,
    C: Fn(&B, &B) -> A,
    S: Fn(A, A) -> A,
    U: Fn(&B, A) -> B,
>(
    contribution: C,
    accumulate: S,
    commit: U,
    zero: A,
    before: Seq<B>,
    after: Seq<B>,
    swapped_after: Seq<B>,
)
    requires
        functional2(contribution),
        functional2(accumulate),
        functional2(commit),
        before.len() == 2,
        step_result(contribution, accumulate, commit, zero, before, after),
        step_result(contribution, accumulate, commit, zero, seq![before[1], before[0]], swapped_after),
    ensures
        swapped_after == seq![after[1], after[0]],
{
    let swapped = seq![before[1], before[0]];
    let accs1 = choose|accs: Seq<A>|
        #[trigger] accelerations_of(contribution, accumulate, zero, before, accs) && after.len()
            == before.len() && forall|i: int|
            0 <= i < before.len() ==> commit.ensures((&before[i], accs[i]), #[trigger] after[i]);
    let accs2 = choose|accs: Seq<A>|
        #[trigger] accelerations_of(contribution, accumulate, zero, swapped, accs)
            && swapped_after.len() == swapped.len() && forall|i: int|
            0 <= i < swapped.len() ==> commit.ensures(
                (&swapped[i], accs[i]),
                #[trigger] swapped_after[i],
            );
    assert(sums_to(contribution, accumulate, zero, before, 0, 1, accs1[0]));
    assert(sums_to(contribution, accumulate, zero, before, 1, 1, accs1[1]));
    assert(sums_to(contribution, accumulate, zero, swapped, 0, 1, accs2[0]));
    assert(sums_to(contribution, accumulate, zero, swapped, 1, 1, accs2[1]));
    let a10 = lemma_single_partner(contribution, accumulate, zero, before, 0, accs1[0]);
    let a11 = lemma_single_partner(contribution, accumulate, zero, before, 1, accs1[1]);
    let a20 = lemma_single_partner(contribution, accumulate, zero, swapped, 0, accs2[0]);
    let a21 = lemma_single_partner(contribution, accumulate, zero, swapped, 1, accs2[1]);
    assert(a20 == a11);
    assert(a21 == a10);
    assert(accs2[0] == accs1[1]);
    assert(accs2[1] == accs1[0]);
    assert(commit.ensures((&before[1], accs1[1]), after[1]));
    assert(commit.ensures((&swapped[0], accs2[0]), swapped_after[0]));
    assert(commit.ensures((&before[0], accs1[0]), after[0]));
    assert(commit.ensures((&swapped[1], accs2[1]), swapped_after[1]));
    assert(swapped_after =~= seq![after[1], after[0]]);
}

/// `runs` is a run of the engine: each state is one step on from the one
/// before it.
pub open spec fn is_run<B, A, C: Fn(&B, &B) -> A, S: Fn(A, A) -> A, U: Fn(&B, A) -> B>(
    contribution: C,
    accumulate: S,
    commit: U,
    zero: A,
    runs: Seq<Seq<B>>,
) -> bool {
    forall|t: int|
        0 <= t < runs.len() - 1 ==> #[trigger] step_result(
            contribution,
            accumulate,
            commit,
            zero,
            runs[t],
            runs[t + 1],
        )
}

/// Mass invariance: where `commit` keeps a body's mass, every state of a
/// run has as many bodies as the first, each with its first mass.
pub proof fn lemma_mass_invariant<
    B,
    A,
    M,
    C: Fn(&B, &B) -> A,
    S: Fn(A, A) -> A,
    U: Fn(&B, A) -> B,
>(
    contribution: C,
    accumulate: S,
    commit: U,
    zero: A,
    mass: spec_fn(B) -> M,
    runs: Seq<Seq<B>>,
    t: int,
)
    requires
        forall|b: &B, a: A, r: B| #[trigger] commit.ensures((b, a), r) ==> mass(r) == mass(*b),
        is_run(contribution, accumulate, commit, zero, runs),
        0 <= t < runs.len(),
    ensures
        runs[t].len() == runs[0].len(),
        forall|i: int| 0 <= i < runs[0].len() ==> mass(#[trigger] runs[t][i]) == mass(runs[0][i]),
    decreases t,
{
    if t > 0 {
        lemma_mass_invariant(contribution, accumulate, commit, zero, mass, runs, t - 1);
        let u = t - 1;
        assert(step_result(contribution, accumulate, commit, zero, runs[u], runs[u + 1]));
        assert(runs[u + 1] == runs[t]);
        let before = runs[t - 1];
        let after = runs[t];
        let accs = choose|accs: Seq<A>|
            #[trigger] accelerations_of(contribution, accumulate, zero, before, accs)
                && after.len() == before.len() && forall|i: int|
                0 <= i < before.len() ==> commit.ensures((&before[i], accs[i]), #[trigger] after[i]);
        assert forall|i: int| 0 <= i < runs[0].len() implies mass(#[trigger] runs[t][i]) == mass(
            runs[0][i],
        ) by {
            assert(commit.ensures((&before[i], accs[i]), after[i]));
        }
    }
}

} // verus!
