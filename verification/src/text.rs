//! Character-level helpers shared by the path grammar and the record
//! formatter. Every string is reasoned about through its view, a
//! `Seq<char>`.
use vstd::prelude::*;

verus! {

/// Position of the last occurrence of `c` in `s`, or `-1` when `c` does
/// not occur.
pub open spec fn last_index_of(s: Seq<char>, c: char) -> int
    decreases s.len(),
{
    if s.len() == 0 {
        -1
    } else if s.last() == c {
        s.len() - 1
    } else {
        last_index_of(s.drop_last(), c)
    }
}

/// `last_index_of` names an occurrence after which `c` never appears again.
pub proof fn lemma_last_index_of(s: Seq<char>, c: char)
    ensures
        -1 <= last_index_of(s, c) < s.len(),
        last_index_of(s, c) >= 0 ==> s[last_index_of(s, c)] == c,
        forall|j: int| last_index_of(s, c) < j < s.len() ==> s[j] != c,
    decreases s.len(),
{
    if s.len() > 0 && s.last() != c {
        lemma_last_index_of(s.drop_last(), c);
        assert forall|j: int| last_index_of(s, c) < j < s.len() implies s[j] != c by {
            if j < s.len() - 1 {
                assert(s.drop_last()[j] != c);
            }
        }
    }
}

/// An occurrence of `c` that is followed by no other one is the last one.
pub proof fn lemma_last_index_is(s: Seq<char>, c: char, i: int)
    requires
        0 <= i < s.len(),
        s[i] == c,
        forall|j: int| i < j < s.len() ==> s[j] != c,
    ensures
        last_index_of(s, c) == i,
    decreases s.len(),
{
    if s.last() != c {
        lemma_last_index_is(s.drop_last(), c, i);
    }
}

/// Without an occurrence of `c` there is no last one.
pub proof fn lemma_last_index_absent(s: Seq<char>, c: char)
    requires
        !s.contains(c),
    ensures
        last_index_of(s, c) == -1,
    decreases s.len(),
{
    if s.len() > 0 {
        assert(s[s.len() - 1] != c);
        assert forall|j: int| 0 <= j < s.drop_last().len() implies s.drop_last()[j] != c by {
            assert(s[j] != c);
        }
        lemma_last_index_absent(s.drop_last(), c);
    }
}

/// Whether `s` begins with `prefix`.
pub open spec fn has_prefix(s: Seq<char>, prefix: Seq<char>) -> bool {
    prefix.len() <= s.len() && s.take(prefix.len() as int) == prefix
}

/// The characters of `s`, in order.
pub(crate) fn to_chars(s: &str) -> (v: Vec<char>)
    ensures
        v@ == s@,
{
    let mut v: Vec<char> = Vec::new();
    for c in it: s.chars()
        invariant
            v@ == it.seq().take(it.index()),
            it.seq() == s@,
    {
        v.push(c);
    }
    v
}

/// Finds the last occurrence of `c` in `v[from..to]`, counted from `from`.
pub(crate) fn find_last(v: &Vec<char>, from: usize, to: usize, c: char) -> (r: Option<usize>)
    requires
        from <= to <= v@.len(),
    ensures
        match r {
            Some(i) => last_index_of(v@.subrange(from as int, to as int), c) == i,
            None => last_index_of(v@.subrange(from as int, to as int), c) == -1,
        },
{
    let mut i: usize = to;
    while i > from
        invariant
            from <= i <= to <= v@.len(),
            forall|j: int| i <= j < to ==> v@[j] != c,
        decreases i,
    {
        i = i - 1;
        if v[i] == c {
            proof {
                lemma_last_index_is(v@.subrange(from as int, to as int), c, i - from);
            }
            return Some(i - from);
        }
    }
    proof {
        let s = v@.subrange(from as int, to as int);
        assert(!s.contains(c)) by {
            if s.contains(c) {
                let k = choose|k: int| 0 <= k < s.len() && s[k] == c;
                assert(v@[from + k] == c);
            }
        }
        lemma_last_index_absent(s, c);
    }
    None
}

/// Whether the characters `v` begin with the characters `prefix`.
pub(crate) fn starts_with(v: &Vec<char>, prefix: &Vec<char>) -> (r: bool)
    ensures
        r == has_prefix(v@, prefix@),
{
    if prefix.len() > v.len() {
        return false;
    }
    let mut i: usize = 0;
    while i < prefix.len()
        invariant
            i <= prefix@.len() <= v@.len(),
            forall|j: int| 0 <= j < i ==> v@[j] == prefix@[j],
        decreases prefix@.len() - i,
    {
        if v[i] != prefix[i] {
            proof {
                assert(v@.take(prefix@.len() as int)[i as int] != prefix@[i as int]);
            }
            return false;
        }
        i = i + 1;
    }
    proof {
        assert(v@.take(prefix@.len() as int) =~= prefix@);
    }
    true
}

/// Whether `v[from..to]` holds the characters `w`.
pub(crate) fn range_equals(v: &Vec<char>, from: usize, to: usize, w: &Vec<char>) -> (r: bool)
    requires
        from <= to <= v@.len(),
    ensures
        r == (v@.subrange(from as int, to as int) == w@),
{
    if to - from != w.len() {
        return false;
    }
    let mut i: usize = 0;
    while i < w.len()
        invariant
            from <= to <= v@.len(),
            to - from == w@.len(),
            i <= w@.len(),
            forall|j: int| 0 <= j < i ==> v@[from + j] == w@[j],
        decreases w@.len() - i,
    {
        if v[from + i] != w[i] {
            proof {
                assert(v@.subrange(from as int, to as int)[i as int] != w@[i as int]);
            }
            return false;
        }
        i = i + 1;
    }
    proof {
        assert(v@.subrange(from as int, to as int) =~= w@);
    }
    true
}

/// Whether `a` and `b` hold the same characters.
pub(crate) fn same_chars(a: &Vec<char>, b: &Vec<char>) -> (r: bool)
    ensures
        r == (a@ == b@),
{
    proof {
        assert(a@.subrange(0, a@.len() as int) =~= a@);
    }
    range_equals(a, 0, a.len(), b)
}

/// How many entries of `mask` are set.
pub open spec fn count_true(mask: Seq<bool>) -> nat
    decreases mask.len(),
{
    if mask.len() == 0 {
        0
    } else {
        count_true(mask.drop_last()) + if mask.last() {
            1nat
        } else {
            0nat
        }
    }
}

/// Clearing a set entry lowers the count by one.
pub proof fn lemma_count_true_clear(mask: Seq<bool>, i: int)
    requires
        0 <= i < mask.len(),
        mask[i],
    ensures
        count_true(mask.update(i, false)) + 1 == count_true(mask),
    decreases mask.len(),
{
    let cleared = mask.update(i, false);
    if i == mask.len() - 1 {
        assert(cleared.drop_last() =~= mask.drop_last());
    } else {
        lemma_count_true_clear(mask.drop_last(), i);
        assert(cleared.drop_last() =~= mask.drop_last().update(i, false));
    }
}

/// A mask without a set entry counts 0.
pub proof fn lemma_count_true_none(mask: Seq<bool>)
    requires
        forall|i: int| 0 <= i < mask.len() ==> !mask[i],
    ensures
        count_true(mask) == 0,
    decreases mask.len(),
{
    if mask.len() > 0 {
        assert(!mask[mask.len() - 1]);
        assert forall|i: int| 0 <= i < mask.drop_last().len() implies !mask.drop_last()[i] by {
            assert(!mask[i]);
        }
        lemma_count_true_none(mask.drop_last());
    }
}

} // verus!
