use vstd::prelude::*;

verus! {

/// The entries of the first `n` positions of `s` whose mask entry is set, in order.
pub open spec fn masked<T>(s: Seq<T>, mask: Seq<bool>, n: nat) -> Seq<T>
    decreases n,
{
    if n == 0 {
        Seq::empty()
    } else {
        let init = masked(s, mask, (n - 1) as nat);
        if mask[n - 1] {
            init.push(s[n - 1])
        } else {
            init
        }
    }
}

/// Number of set entries among the first `n` of `mask`.
pub open spec fn count_set(mask: Seq<bool>, n: nat) -> nat
    decreases n,
{
    if n == 0 {
        0
    } else {
        count_set(mask, (n - 1) as nat) + if mask[n - 1] {
            1nat
        } else {
            0nat
        }
    }
}

/// Whether some of the first `n` entries of `mask` is set.
pub open spec fn any_set(mask: Seq<bool>, n: nat) -> bool {
    exists|i: int| 0 <= i < n && mask[i]
}

pub proof fn lemma_masked_len<T>(s: Seq<T>, mask: Seq<bool>, n: nat)
    ensures
        masked(s, mask, n).len() == count_set(mask, n),
    decreases n,
{
    if n > 0 {
        lemma_masked_len(s, mask, (n - 1) as nat);
    }
}

pub proof fn lemma_count_zero(mask: Seq<bool>, n: nat)
    requires
        n <= mask.len(),
    ensures
        count_set(mask, n) == 0 <==> !any_set(mask, n),
    decreases n,
{
    if n > 0 {
        lemma_count_zero(mask, (n - 1) as nat);
        if mask[n - 1] {
            assert(any_set(mask, n));
        } else {
            if any_set(mask, n) {
                let i = choose|i: int| 0 <= i < n && mask[i];
                assert(any_set(mask, (n - 1) as nat));
            }
        }
    }
}

/// Every selected entry is the entry of a row whose mask entry is set.
pub proof fn lemma_masked_index<T>(s: Seq<T>, mask: Seq<bool>, n: nat, k: int)
    requires
        n <= s.len(),
        n <= mask.len(),
        0 <= k < masked(s, mask, n).len(),
    ensures
        exists|i: int| 0 <= i < n && mask[i] && masked(s, mask, n)[k] == s[i],
    decreases n,
{
    lemma_masked_len(s, mask, n);
    if n > 0 {
        lemma_masked_len(s, mask, (n - 1) as nat);
        if k < masked(s, mask, (n - 1) as nat).len() {
            lemma_masked_index(s, mask, (n - 1) as nat, k);
        }
    }
}

/// Keeps the entries of `v` whose mask entry is set.
pub fn select_copied<T: Copy>(v: &Vec<T>, mask: &Vec<bool>) -> (r: Vec<T>)
    requires
        v@.len() == mask@.len(),
    ensures
        r@ == masked(v@, mask@, v@.len()),
{
    let mut r: Vec<T> = Vec::new();
    let mut i: usize = 0;
    while i < v.len()
        invariant
            i <= v@.len(),
            v@.len() == mask@.len(),
            r@ == masked(v@, mask@, i as nat),
        decreases v@.len() - i,
    {
        if mask[i] {
            r.push(v[i]);
        }
        i = i + 1;
    }
    r
}

/// Keeps the strings of `v` whose mask entry is set.
pub fn select_strings(v: &Vec<String>, mask: &Vec<bool>) -> (r: Vec<String>)
    requires
        v@.len() == mask@.len(),
    ensures
        r@ == masked(v@, mask@, v@.len()),
{
    let mut r: Vec<String> = Vec::new();
    let mut i: usize = 0;
    while i < v.len()
        invariant
            i <= v@.len(),
            v@.len() == mask@.len(),
            r@ == masked(v@, mask@, i as nat),
        decreases v@.len() - i,
    {
        if mask[i] {
            r.push(v[i].clone());
        }
        i = i + 1;
    }
    r
}

/// Whether any entry of the mask is set.
pub fn mask_any(mask: &Vec<bool>) -> (r: bool)
    ensures
        r == any_set(mask@, mask@.len()),
{
    let mut i: usize = 0;
    while i < mask.len()
        invariant
            i <= mask@.len(),
            !any_set(mask@, i as nat),
        decreases mask@.len() - i,
    {
        if mask[i] {
            return true;
        }
        i = i + 1;
    }
    false
}

/// The complement of a mask.
pub open spec fn negated(mask: Seq<bool>) -> Seq<bool> {
    Seq::new(mask.len(), |i: int| !mask[i])
}

pub fn negate_mask(mask: &Vec<bool>) -> (r: Vec<bool>)
    ensures
        r@ == negated(mask@),
{
    let mut r: Vec<bool> = Vec::new();
    let mut i: usize = 0;
    while i < mask.len()
        invariant
            i <= mask@.len(),
            r@ == negated(mask@).subrange(0, i as int),
        decreases mask@.len() - i,
    {
        r.push(!mask[i]);
        proof {
            assert(r@ =~= negated(mask@).subrange(0, i + 1));
        }
        i = i + 1;
    }
    proof {
        assert(r@ =~= negated(mask@));
    }
    r
}

pub proof fn lemma_count_split(mask: Seq<bool>, n: nat)
    requires
        n <= mask.len(),
    ensures
        count_set(mask, n) + count_set(negated(mask), n) == n,
    decreases n,
{
    if n > 0 {
        lemma_count_split(mask, (n - 1) as nat);
    }
}

/// A mask and its complement split a sequence into two parts that together
/// hold every entry once.
pub proof fn lemma_masked_split<T>(s: Seq<T>, mask: Seq<bool>, n: nat)
    requires
        n <= s.len(),
        n <= mask.len(),
    ensures
        masked(s, mask, n).to_multiset().add(masked(s, negated(mask), n).to_multiset())
            =~= s.subrange(0, n as int).to_multiset(),
    decreases n,
{
    broadcast use vstd::seq_lib::group_to_multiset_ensures;

    if n > 0 {
        lemma_masked_split(s, mask, (n - 1) as nat);
        let prefix = s.subrange(0, n - 1);
        assert(s.subrange(0, n as int) =~= prefix.push(s[n - 1]));
    }
}

} // verus!
