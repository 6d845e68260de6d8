//! The interaction schedule of one step.
//!
//! In a step every body `i` is accelerated by every other body `j`, each
//! contribution read from the start-of-step state. The schedule fixes, for
//! each body, the ascending list of partners whose contributions are summed
//! before anything is committed.
use vstd::prelude::*;

verus! {

/// The partner of body `i` at slot `k` among `n` bodies: every index but `i`,
/// in ascending order.
pub open spec fn partner_at(i: nat, k: nat) -> nat {
    if k < i {
        k
    } else {
        k + 1
    }
}

/// The partners of body `i` among `n` bodies, as a sequence.
pub open spec fn partners_of(n: nat, i: nat) -> Seq<usize>
    recommends
        i < n,
{
    Seq::new((n - 1) as nat, |k: int| partner_at(i, k as nat) as usize)
}

/// Indices of the bodies that act on body `i` in a simulation of `n` bodies:
/// every index below `n` except `i`, ascending.
pub fn partners(n: usize, i: usize) -> (r: Vec<usize>)
    requires
        i < n,
    ensures
        r@ == partners_of(n as nat, i as nat),
{
    let mut r: Vec<usize> = Vec::new();
    let mut j: usize = 0;
    while j < n
        invariant
            i < n,
            j <= n,
            r@.len() == if j <= i { j as int } else { j - 1 },
            forall|k: int| 0 <= k < r@.len() ==> r@[k] == partner_at(i as nat, k as nat),
        decreases n - j,
    {
        if j != i {
            r.push(j);
        }
        j = j + 1;
    }
    assert(r@ =~= partners_of(n as nat, i as nat));
    r
}

/// Each interaction is scheduled both ways: `j` acts on `i` exactly when `i`
/// acts on `j`, and a body never acts on itself.
pub proof fn lemma_partners_symmetric(n: usize, i: usize, j: usize)
    requires
        i < n,
        j < n,
    ensures
        partners_of(n as nat, i as nat).contains(j) <==> (i != j && partners_of(
            n as nat,
            j as nat,
        ).contains(i)),
{
    lemma_partners_contains(n, i, j);
    lemma_partners_contains(n, j, i);
}

/// Body `j` is among the partners of body `i` exactly when the two differ.
pub proof fn lemma_partners_contains(n: usize, i: usize, j: usize)
    requires
        i < n,
        j < n,
    ensures
        partners_of(n as nat, i as nat).contains(j) <==> i != j,
{
    let s = partners_of(n as nat, i as nat);
    if i != j {
        let k: int = if j < i { j as int } else { j - 1 };
        assert(s[k] == j);
    }
    if s.contains(j) {
        let k = choose|k: int| 0 <= k < s.len() && s[k] == j;
        assert(s[k] == partner_at(i as nat, k as nat) as usize);
    }
}

} // verus!
