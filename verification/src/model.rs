use vstd::prelude::*;

verus! {

use crate::CharPredicate;

/// The index of the first unit satisfying the predicate, or the length
/// of the sequence when no unit does.
pub open spec fn first_match<P: CharPredicate>(s: Seq<char>, p: &P) -> nat
    decreases s.len(),
{
    if s.len() == 0 {
        0
    } else if p.spec_test(s[0]) {
        0
    } else {
        first_match(s.skip(1), p) + 1
    }
}

/// A unit satisfying the predicate, with none before it, is where the
/// first match lies.
pub proof fn lemma_first_match_found<P: CharPredicate>(s: Seq<char>, p: &P, k: int)
    requires
        0 <= k < s.len(),
        p.spec_test(s[k]),
        forall|j: int| 0 <= j < k ==> !p.spec_test(#[trigger] s[j]),
    ensures
        first_match(s, p) == k,
    decreases k,
{
    if k > 0 {
        assert(!p.spec_test(s[0]));
        assert forall|j: int| 0 <= j < k - 1 implies !p.spec_test(#[trigger] s.skip(1)[j]) by {
            assert(s.skip(1)[j] == s[j + 1]);
        }
        assert(s.skip(1)[k - 1] == s[k]);
        lemma_first_match_found(s.skip(1), p, k - 1);
    }
}

/// When no unit satisfies the predicate, the first match lies at the
/// length of the sequence.
pub proof fn lemma_first_match_absent<P: CharPredicate>(s: Seq<char>, p: &P)
    requires
        forall|j: int| 0 <= j < s.len() ==> !p.spec_test(#[trigger] s[j]),
    ensures
        first_match(s, p) == s.len(),
    decreases s.len(),
{
    if s.len() > 0 {
        assert forall|j: int| 0 <= j < s.skip(1).len() implies !p.spec_test(
            #[trigger] s.skip(1)[j],
        ) by {
            assert(s.skip(1)[j] == s[j + 1]);
        }
        lemma_first_match_absent(s.skip(1), p);
    }
}

/// Splitting into maximal runs, each ending at a unit satisfying the
/// predicate; the delimiter stays as the trailing unit of its segment,
/// and a final run without a delimiter is kept as it stands. The empty
/// sequence yields no segments.
pub open spec fn split_incl<P: CharPredicate>(s: Seq<char>, p: &P) -> Seq<Seq<char>>
    decreases s.len(),
{
    if s.len() == 0 {
        Seq::empty()
    } else {
        let i = first_match(s, p) as int;
        if i < s.len() {
            seq![s.take(i + 1)] + split_incl(s.skip(i + 1), p)
        } else {
            seq![s]
        }
    }
}

/// Every unit satisfying the predicate replaced by the replacement
/// sequence, spliced in as a literal.
pub open spec fn replace_all_spec<P: CharPredicate>(s: Seq<char>, p: &P, r: Seq<char>) -> Seq<
    char,
>
    decreases s.len(),
{
    if s.len() == 0 {
        s
    } else if p.spec_test(s[0]) {
        r + replace_all_spec(s.skip(1), p, r)
    } else {
        seq![s[0]] + replace_all_spec(s.skip(1), p, r)
    }
}

/// Only the first unit satisfying the predicate replaced by the
/// replacement sequence; without a match the sequence is unchanged.
pub open spec fn replace_first_spec<P: CharPredicate>(s: Seq<char>, p: &P, r: Seq<char>) -> Seq<
    char,
>
    decreases s.len(),
{
    if s.len() == 0 {
        s
    } else if p.spec_test(s[0]) {
        r + s.skip(1)
    } else {
        seq![s[0]] + replace_first_spec(s.skip(1), p, r)
    }
}

/// Three-way lexicographic comparison of two character sequences by
/// code point, collapsed to a sign: -1, 0 or 1.
pub open spec fn cmp3(a: Seq<char>, b: Seq<char>) -> int
    decreases a.len(),
{
    if a.len() == 0 && b.len() == 0 {
        0
    } else if a.len() == 0 {
        -1
    } else if b.len() == 0 {
        1
    } else if (a[0] as u32) < (b[0] as u32) {
        -1
    } else if (a[0] as u32) > (b[0] as u32) {
        1
    } else {
        cmp3(a.skip(1), b.skip(1))
    }
}

/// The canonical polynomial hash of a character sequence:
/// `s[0]*31^(n-1) + s[1]*31^(n-2) + ... + s[n-1]`, carried out in
/// 32-bit arithmetic with wraparound.
pub open spec fn hash_spec(s: Seq<char>) -> u32
    decreases s.len(),
{
    if s.len() == 0 {
        0u32
    } else {
        vstd::wrapping::u32_specs::wrapping_add(
            vstd::wrapping::u32_specs::wrapping_mul(hash_spec(s.drop_last()), 31),
            s.last() as u32,
        )
    }
}

/// The index of the first line-break unit, or the length when none.
pub open spec fn nl_first(s: Seq<char>) -> nat {
    first_match(s, &(crate::CharIs { target: '\n' }))
}

/// A line's content with one carriage return dropped from its end, as
/// the emulated line splitting does for lines ended by a line break.
pub open spec fn strip_cr(l: Seq<char>) -> Seq<char> {
    if l.len() > 0 && l.last() == '\r' {
        l.drop_last()
    } else {
        l
    }
}

/// `amount` space characters.
pub open spec fn line_pad(amount: nat) -> Seq<char> {
    Seq::new(amount, |k: int| ' ')
}

/// Every line of `s` prefixed with `pad` and given a trailing line
/// break, the last line included; a line ended by a break loses one
/// carriage return before it, and an unterminated final line is kept
/// whole. The empty sequence has no lines and stays empty.
pub open spec fn indent_spec(s: Seq<char>, pad: Seq<char>) -> Seq<char>
    decreases s.len(),
{
    if s.len() == 0 {
        Seq::empty()
    } else {
        let i = nl_first(s) as int;
        if i < s.len() {
            pad + strip_cr(s.take(i)) + seq!['\n'] + indent_spec(s.skip(i + 1), pad)
        } else {
            pad + s + seq!['\n']
        }
    }
}

/// A character sequence after the canonical lowercase fold, applied
/// unit for unit.
pub open spec fn fold_seq(s: Seq<char>) -> Seq<char> {
    s.map_values(|c: char| crate::fold::fold_of(c))
}

/// Classified-whitespace character units: the code points carrying the
/// whitespace property, listed by value.
pub open spec fn is_space(c: char) -> bool {
    let u = c as u32;
    u == 0x09 || u == 0x0A || u == 0x0B || u == 0x0C || u == 0x0D || u == 0x20 || u == 0x85
        || u == 0xA0 || u == 0x1680 || (0x2000 <= u && u <= 0x200A) || u == 0x2028 || u == 0x2029
        || u == 0x202F || u == 0x205F || u == 0x3000
}

/// A sequence compares as equal to itself: the three-way comparison of
/// `s` with `s` is zero.
pub proof fn lemma_cmp3_self(s: Seq<char>)
    ensures
        cmp3(s, s) == 0,
    decreases s.len(),
{
    if s.len() > 0 {
        lemma_cmp3_self(s.skip(1));
    }
}

/// Extracting a valid half-open range `[begin, end)` yields exactly
/// `end - begin` character units.
pub proof fn lemma_substring_length(s: Seq<char>, begin: int, end: int)
    requires
        0 <= begin <= end <= s.len(),
    ensures
        s.subrange(begin, end).len() == end - begin,
{
}

/// Taking the first `a.len()` units of `a` followed by `b` gives back
/// exactly `a`: substring inverts concatenation.
pub proof fn lemma_concat_substring_roundtrip(a: Seq<char>, b: Seq<char>)
    ensures
        (a + b).subrange(0, a.len() as int) == a,
{
    assert((a + b).subrange(0, a.len() as int) =~= a);
}

/// The hash is a function of the character sequence alone: any two
/// hashes of the same sequence are the same value.
pub proof fn lemma_hash_stable(h1: u32, h2: u32, s: Seq<char>)
    requires
        h1 == hash_spec(s),
        h2 == hash_spec(s),
    ensures
        h1 == h2,
{
}

/// Advancing past an equal head character leaves the three-way
/// comparison of the tails unchanged.
pub proof fn lemma_cmp3_skip(a: Seq<char>, b: Seq<char>, i: int)
    requires
        0 <= i < a.len(),
        0 <= i < b.len(),
        a[i] == b[i],
    ensures
        cmp3(a.skip(i), b.skip(i)) == cmp3(a.skip(i + 1), b.skip(i + 1)),
{
    assert(a.skip(i).len() > 0);
    assert(b.skip(i).len() > 0);
    assert(a.skip(i)[0] == a[i]);
    assert(b.skip(i)[0] == b[i]);
    assert(a.skip(i).skip(1) =~= a.skip(i + 1));
    assert(b.skip(i).skip(1) =~= b.skip(i + 1));
}

} // verus!
