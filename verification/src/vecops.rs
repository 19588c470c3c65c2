//! Small verified vector utilities: shifting every element by a constant,
//! in place or into a fresh vector, and removing duplicates while keeping
//! the first occurrence of each value in order.

use vstd::prelude::*;

verus! {

/// Returns a vector with `n` added to every element.
pub fn add_n(v: Vec<i32>, n: i32) -> (r: Vec<i32>)
    requires
        forall|i: int| 0 <= i < v@.len() ==> i32::MIN <= #[trigger] v@[i] + n <= i32::MAX,
    ensures
        r@.len() == v@.len(),
        forall|i: int| 0 <= i < v@.len() ==> r@[i] == v@[i] + n,
{
    let ghost orig = v@;
    let mut new_v = v;
    let mut i: usize = 0;
    while i < new_v.len()
        invariant
            i <= new_v@.len(),
            new_v@.len() == orig.len(),
            forall|j: int| 0 <= j < orig.len() ==> i32::MIN <= #[trigger] orig[j] + n <= i32::MAX,
            forall|j: int| 0 <= j < i ==> new_v@[j] == orig[j] + n,
            forall|j: int| i <= j < orig.len() ==> new_v@[j] == orig[j],
        decreases new_v@.len() - i,
    {
        let x = new_v[i];
        proof {
            assert(x == orig[i as int]);
            assert(i32::MIN <= orig[i as int] + n <= i32::MAX);
        }
        new_v.set(i, x + n);
        i = i + 1;
    }
    new_v
}

/// Adds `n` to every element in place.
pub fn add_n_inplace(v: &mut Vec<i32>, n: i32)
    requires
        forall|i: int|
            0 <= i < old(v)@.len() ==> i32::MIN <= #[trigger] old(v)@[i] + n <= i32::MAX,
    ensures
        final(v)@.len() == old(v)@.len(),
        forall|i: int| 0 <= i < old(v)@.len() ==> final(v)@[i] == old(v)@[i] + n,
{
    let mut i: usize = 0;
    while i < v.len()
        invariant
            i <= v@.len(),
            v@.len() == old(v)@.len(),
            forall|j: int|
                0 <= j < old(v)@.len() ==> i32::MIN <= #[trigger] old(v)@[j] + n <= i32::MAX,
            forall|j: int| 0 <= j < i ==> v@[j] == old(v)@[j] + n,
            forall|j: int| i <= j < old(v)@.len() ==> v@[j] == old(v)@[j],
        decreases v@.len() - i,
    {
        let x = v[i];
        proof {
            assert(x == old(v)@[i as int]);
            assert(i32::MIN <= old(v)@[i as int] + n <= i32::MAX);
        }
        v.set(i, x + n);
        i = i + 1;
    }
}

/// What deduplication leaves: each value's first occurrence, in order.
pub open spec fn dedup_spec(s: Seq<i32>) -> Seq<i32>
    decreases s.len(),
{
    if s.len() == 0 {
        Seq::empty()
    } else {
        let rest = dedup_spec(s.drop_last());
        if s.drop_last().contains(s.last()) {
            rest
        } else {
            rest.push(s.last())
        }
    }
}

/// Removes duplicates in place, keeping the first occurrence of each value.
pub fn dedup(v: &mut Vec<i32>)
    ensures
        final(v)@ == dedup_spec(old(v)@),
{
    let mut out: Vec<i32> = Vec::new();
    let n = v.len();
    let mut i: usize = 0;
    proof {
        assert(v@.take(0) =~= Seq::<i32>::empty());
    }
    while i < n
        invariant
            i <= n,
            n == v@.len(),
            v@ == old(v)@,
            out@ == dedup_spec(v@.take(i as int)),
        decreases n - i,
    {
        let x = v[i];
        let mut seen = false;
        let mut j: usize = 0;
        while j < i
            invariant
                j <= i,
                i < n,
                n == v@.len(),
                v@ == old(v)@,
                seen <==> exists|k: int| 0 <= k < j && v@[k] == x,
            decreases i - j,
        {
            if v[j] == x {
                seen = true;
            }
            j = j + 1;
        }
        proof {
            assert(v@.take(i as int + 1).drop_last() =~= v@.take(i as int));
            assert(v@.take(i as int + 1).last() == v@[i as int]);
            if seen {
                let k = choose|k: int| 0 <= k < i && v@[k] == x;
                assert(v@.take(i as int)[k] == x);
                assert(v@.take(i as int).contains(x));
            } else {
                if v@.take(i as int).contains(x) {
                    let k = choose|k: int| 0 <= k < i && v@.take(i as int)[k] == x;
                    assert(v@[k] == x);
                }
            }
        }
        if !seen {
            out.push(x);
        }
        i = i + 1;
    }
    proof {
        assert(v@.take(n as int) =~= v@);
    }
    *v = out;
}

} // verus!
