use vstd::prelude::*;

verus! {

/// An entity that can expire or be destroyed.
pub trait Lifecycle: Sized {
    /// Whether the entity stays in the scene.
    spec fn alive_spec(&self) -> bool;

    fn alive(&self) -> (r: bool)
        ensures
            r == self.alive_spec(),
    ;
}

/// The entities of `s` that are alive, in their order.
pub open spec fn survivors<T: Lifecycle>(s: Seq<T>) -> Seq<T>
    decreases s.len(),
{
    if s.len() == 0 {
        s
    } else if s.last().alive_spec() {
        survivors(s.drop_last()).push(s.last())
    } else {
        survivors(s.drop_last())
    }
}

/// Every survivor is alive and is an entity of the input.
pub proof fn lemma_survivors_alive<T: Lifecycle>(s: Seq<T>)
    ensures
        survivors(s).len() <= s.len(),
        forall|i: int| 0 <= i < survivors(s).len() ==> (#[trigger] survivors(s)[i]).alive_spec(),
        forall|i: int| 0 <= i < survivors(s).len() ==> s.contains(#[trigger] survivors(s)[i]),
    decreases s.len(),
{
    if s.len() > 0 {
        lemma_survivors_alive(s.drop_last());
        let r = survivors(s.drop_last());
        assert forall|i: int| 0 <= i < r.len() implies s.contains(#[trigger] r[i]) by {
            assert(s.drop_last().contains(r[i]));
            let j = choose|j: int| 0 <= j < s.drop_last().len() && s.drop_last()[j] == r[i];
            assert(s[j] == r[i]);
        }
        assert(s[s.len() - 1] == s.last());
    }
}

/// A sequence whose entities are all alive survives whole.
pub proof fn lemma_survivors_all_alive<T: Lifecycle>(s: Seq<T>)
    requires
        forall|i: int| 0 <= i < s.len() ==> (#[trigger] s[i]).alive_spec(),
    ensures
        survivors(s) == s,
    decreases s.len(),
{
    if s.len() > 0 {
        lemma_survivors_all_alive(s.drop_last());
        assert(s.drop_last().push(s.last()) =~= s);
    }
}

/// Culling is idempotent: culling what a cull left changes nothing.
pub proof fn lemma_cull_idempotent<T: Lifecycle>(s: Seq<T>)
    ensures
        survivors(survivors(s)) == survivors(s),
{
    lemma_survivors_alive(s);
    lemma_survivors_all_alive(survivors(s));
}

/// Removes from `v` every entity that is no longer alive, keeping the order
/// of the others.
pub fn cull<T: Lifecycle + Copy>(v: &mut Vec<T>)
    ensures
        final(v)@ == survivors(old(v)@),
{
    let ghost s = v@;
    let mut kept: Vec<T> = Vec::new();
    let mut i: usize = 0;
    while i < v.len()
        invariant
            v@ == s,
            0 <= i <= s.len(),
            kept@ == survivors(s.subrange(0, i as int)),
        decreases s.len() - i,
    {
        let e = v[i];
        assert(s.subrange(0, i + 1).drop_last() =~= s.subrange(0, i as int));
        if e.alive() {
            kept.push(e);
        }
        i = i + 1;
    }
    assert(s.subrange(0, s.len() as int) =~= s);
    *v = kept;
}

} // verus!
