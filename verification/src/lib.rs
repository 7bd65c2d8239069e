//! A compatibility layer reproducing the observable behaviour of a
//! managed runtime's text-string API on the host platform's string type:
//! character-unit indexing and measurement, ordering, case-insensitive
//! ordering, the canonical polynomial hash, predicate-driven search,
//! split and replacement, and extraction and construction — together
//! with the catalog of structured failure records that the layer and its
//! callers raise on boundary and format violations.

#![allow(unused_imports)]

pub mod errors;
pub mod fold;
pub mod model;

use vstd::prelude::*;
use vstd::string::*;

verus! {

use crate::errors::StringIndexOutOfBoundsException;
use crate::fold::fold_char;
use crate::model::cmp3;
use crate::model::fold_seq;
use crate::model::hash_spec;
use crate::model::is_space;
use crate::model::lemma_cmp3_skip;
use crate::model::indent_spec;
use crate::model::lemma_first_match_absent;
use crate::model::lemma_first_match_found;
use crate::model::line_pad;
use crate::model::nl_first;
use crate::model::strip_cr;
use crate::model::replace_all_spec;
use crate::model::replace_first_spec;
use crate::model::split_incl;

/// A single-character classification predicate. It stands in for the
/// pattern arguments of the emulated text API: a pattern here is a
/// pure, total function from one character to a boolean.
pub trait CharPredicate {
    /// What the predicate holds of a character.
    spec fn spec_test(&self, c: char) -> bool;

    /// Decides the predicate on one character.
    fn test(&self, c: char) -> (r: bool)
        ensures
            r == self.spec_test(c),
    ;
}

/// A predicate matching exactly one character.
pub struct CharIs {
    pub target: char,
}

impl CharPredicate for CharIs {
    open spec fn spec_test(&self, c: char) -> bool {
        c == self.target
    }

    fn test(&self, c: char) -> (r: bool) {
        c == self.target
    }
}

/// The string-semantics layer: operations on character sequences whose
/// observable results follow the emulated runtime's text API. Positions
/// are counted in character units; every range is half-open.
pub trait JavaString: Sized {
    /// In this layer one storage unit always represents one character
    /// unit: no multi-unit encoding is modeled.
    const COMPACT_STRINGS: bool;

    /// The character sequence this value denotes.
    spec fn text(&self) -> Seq<char>;

    /// Number of character units.
    fn length(&self) -> (n: usize)
        ensures
            n == self.text().len(),
    ;

    /// The character at `index`, or absence when `index` is out of range.
    fn char_at(&self, index: usize) -> (r: Option<char>)
        ensures
            index < self.text().len() ==> r == Some(self.text()[index as int]),
            index >= self.text().len() ==> r is None,
    ;

    /// The numeric value of the character at `index`, coerced to its low
    /// eight bits, and 0 when the index is out of range. The narrowing is
    /// a documented limitation of this layer: character values above the
    /// single-byte range are truncated.
    fn code_point_at(&self, index: usize) -> (r: u8)
        ensures
            index < self.text().len() ==> r == (self.text()[index as int] as u32 % 256) as u8,
            index >= self.text().len() ==> r == 0,
    ;

    /// The number of code points in the half-open range `[begin, end)`.
    /// In this layer one storage unit is one character, so a valid range
    /// counts `end - begin`; a range violating `begin <= end <= length`
    /// is a boundary failure and yields absence.
    fn code_point_count(&self, begin_index: usize, end_index: usize) -> (r: Option<usize>)
        ensures
            begin_index <= end_index <= self.text().len() ==> r == Some(
                (end_index - begin_index) as usize,
            ),
            !(begin_index <= end_index <= self.text().len()) ==> r is None,
    ;

    /// True iff every character unit is classified whitespace.
    fn is_blank(&self) -> (r: bool)
        ensures
            r == forall|i: int| 0 <= i < self.text().len() ==> is_space(#[trigger] self.text()[i]),
    ;

    /// Unit-for-unit equality of the two sequences.
    fn equals(&self, other: &Self) -> (r: bool)
        ensures
            r == (self.text() == other.text()),
    ;

    /// Lexicographic three-way comparison over character units, collapsed
    /// to a sign: -1, 0 or 1.
    fn compare_to(&self, other: &Self) -> (r: i8)
        ensures
            r as int == cmp3(self.text(), other.text()),
    ;

    /// The canonical polynomial hash
    /// `s[0]*31^(n-1) + s[1]*31^(n-2) + ... + s[n-1]`, computed with
    /// 32-bit wraparound arithmetic.
    fn hash_code(&self) -> (h: u32)
        ensures
            h == hash_spec(self.text()),
    ;

    /// Equality after the canonical lowercase fold of both operands.
    fn equals_ignore_case(&self, other: &Self) -> (r: bool)
        ensures
            r == (fold_seq(self.text()) == fold_seq(other.text())),
    ;

    /// Lexicographic three-way comparison after the canonical lowercase
    /// fold of both operands, collapsed to a sign: -1, 0 or 1.
    fn compare_to_ignore_case(&self, other: &Self) -> (r: i8)
        ensures
            r as int == cmp3(fold_seq(self.text()), fold_seq(other.text())),
    ;

    /// Compares `len` units of `self` starting at `toffset` against `len`
    /// units of `other` starting at `ooffset`, case-folded on request. A
    /// region reaching outside either operand is a boundary failure.
    fn region_matches(
        &self,
        toffset: usize,
        other: &Self,
        ooffset: usize,
        len: usize,
        ignore_case: bool,
    ) -> (r: Result<bool, StringIndexOutOfBoundsException>)
        ensures
            (toffset + len <= self.text().len() && ooffset + len <= other.text().len()) <==> r
                is Ok,
            r matches Ok(m) ==> m == if ignore_case {
                fold_seq(self.text().subrange(toffset as int, toffset + len)) == fold_seq(
                    other.text().subrange(ooffset as int, ooffset + len),
                )
            } else {
                self.text().subrange(toffset as int, toffset + len) == other.text().subrange(
                    ooffset as int,
                    ooffset + len,
                )
            },
            r matches Err(e) ==> e.index == if toffset + len > self.text().len() {
                toffset
            } else {
                ooffset
            } && e.message@ == "region out of range"@,
    ;

    /// The first index at which the predicate holds, scanning left to
    /// right.
    fn index_of<P: CharPredicate>(&self, ch: P) -> (r: Option<usize>)
        ensures
            r matches Some(i) ==> i < self.text().len() && ch.spec_test(self.text()[i as int])
                && forall|j: int| 0 <= j < i ==> !ch.spec_test(#[trigger] self.text()[j]),
            r is None ==> forall|j: int|
                0 <= j < self.text().len() ==> !ch.spec_test(#[trigger] self.text()[j]),
    ;

    /// The first index in the half-open range `[begin, end)` at which the
    /// predicate holds; the index returned is absolute, not relative to
    /// the range. A range violating `begin <= end <= length` is a
    /// boundary failure.
    fn index_of_between<P: CharPredicate>(&self, ch: P, begin_index: usize, end_index: usize) -> (r:
        Result<Option<usize>, StringIndexOutOfBoundsException>)
        ensures
            (begin_index <= end_index <= self.text().len()) <==> r is Ok,
            r matches Ok(Some(i)) ==> begin_index <= i < end_index && ch.spec_test(
                self.text()[i as int],
            ) && forall|j: int|
                begin_index <= j < i ==> !ch.spec_test(#[trigger] self.text()[j]),
            r matches Ok(None) ==> forall|j: int|
                begin_index <= j < end_index ==> !ch.spec_test(#[trigger] self.text()[j]),
            r matches Err(e) ==> e.index == if end_index > self.text().len() {
                end_index
            } else {
                begin_index
            } && e.message@ == "index out of range"@,
    ;

    /// The last index at which the predicate holds, scanning right to
    /// left.
    fn last_index_of<P: CharPredicate>(&self, ch: P) -> (r: Option<usize>)
        ensures
            r matches Some(i) ==> i < self.text().len() && ch.spec_test(self.text()[i as int])
                && forall|j: int|
                i < j < self.text().len() ==> !ch.spec_test(#[trigger] self.text()[j]),
            r is None ==> forall|j: int|
                0 <= j < self.text().len() ==> !ch.spec_test(#[trigger] self.text()[j]),
    ;

    /// The last index at or after `from_index` at which the predicate
    /// holds. A start beyond the length is a boundary failure.
    fn last_index_from<P: CharPredicate>(&self, ch: P, from_index: usize) -> (r: Result<
        Option<usize>,
        StringIndexOutOfBoundsException,
    >)
        ensures
            (from_index <= self.text().len()) <==> r is Ok,
            r matches Ok(Some(i)) ==> from_index <= i < self.text().len() && ch.spec_test(
                self.text()[i as int],
            ) && forall|j: int|
                i < j < self.text().len() ==> !ch.spec_test(#[trigger] self.text()[j]),
            r matches Ok(None) ==> forall|j: int|
                from_index <= j < self.text().len() ==> !ch.spec_test(#[trigger] self.text()[j]),
            r matches Err(e) ==> e.index == from_index && e.message@ == "index out of range"@,
    ;

    /// The unit range `[begin, end)` as a new value. A range violating
    /// `begin <= end <= length` is a boundary failure.
    fn substring(&self, begin_index: usize, end_index: usize) -> (r: Result<
        Self,
        StringIndexOutOfBoundsException,
    >)
        ensures
            (begin_index <= end_index <= self.text().len()) <==> r is Ok,
            r matches Ok(t) ==> t.text() == self.text().subrange(
                begin_index as int,
                end_index as int,
            ),
            r matches Err(e) ==> e.index == if end_index > self.text().len() {
                end_index
            } else {
                begin_index
            } && e.message@ == "index out of range"@,
    ;

    /// The unit range `[begin, end)` as an ordered character sequence. A
    /// range violating `begin <= end <= length` is a boundary failure.
    fn subsequence(&self, begin_index: usize, end_index: usize) -> (r: Result<
        Vec<char>,
        StringIndexOutOfBoundsException,
    >)
        ensures
            (begin_index <= end_index <= self.text().len()) <==> r is Ok,
            r matches Ok(v) ==> v@ == self.text().subrange(begin_index as int, end_index as int),
            r matches Err(e) ==> e.index == if end_index > self.text().len() {
                end_index
            } else {
                begin_index
            } && e.message@ == "index out of range"@,
    ;

    /// A new value holding `self` followed by `other`; neither operand is
    /// changed.
    fn concat(&self, other: &Self) -> (r: Self)
        ensures
            r.text() == self.text() + other.text(),
    ;

    /// Copies the unit range `[src_begin, src_end)` into `dest` starting
    /// at `dest_begin`. A violating source range, or a copy that would
    /// reach past the end of `dest`, is a boundary failure, rejected
    /// before any unit is written.
    fn get_chars(
        &self,
        src_begin: usize,
        src_end: usize,
        dest: &mut Vec<char>,
        dest_begin: usize,
    ) -> (r: Result<(), StringIndexOutOfBoundsException>)
        ensures
            (src_begin <= src_end <= self.text().len() && dest_begin + (src_end - src_begin) <= old(
                dest,
            )@.len()) <==> r is Ok,
            r is Ok ==> final(dest)@.len() == old(dest)@.len() && (forall|k: int|
                0 <= k < src_end - src_begin ==> #[trigger] final(dest)@[dest_begin + k]
                    == self.text()[src_begin + k]) && (forall|j: int|
                0 <= j < old(dest)@.len() && !(dest_begin <= j < dest_begin + (src_end - src_begin))
                    ==> #[trigger] final(dest)@[j] == old(dest)@[j]),
            r matches Err(e) ==> final(dest)@ == old(dest)@ && e.index == if src_end
                > self.text().len() {
                src_end
            } else if src_begin > src_end {
                src_begin
            } else {
                dest_begin
            } && e.message@ == "index out of range"@,
    ;

    /// Applies a caller-supplied function to a copy of this value's
    /// content, returning whatever it produces; `self` is unchanged.
    fn transform<R, F: FnOnce(Self) -> R>(&self, function: F) -> (r: R) where Self: Clone
        requires
            forall|t: Self| t.text() == self.text() ==> call_requires(function, (t,)),
        ensures
            exists|t: Self| t.text() == self.text() && call_ensures(function, (t,), r),
    ;

    /// The canonical stringification of a value exposing a textual
    /// rendering.
    fn value_of<T: core::fmt::Display>(x: T) -> (r: Self);

    /// Splits into maximal runs, each retaining its delimiter as the
    /// trailing unit; a final run without a delimiter is kept as it
    /// stands.
    fn split_with_delimiters<P: CharPredicate>(&self, regex: P) -> (r: Vec<Self>) where
        Self: DeepView<V = Seq<char>>

        ensures
            r.deep_view() == split_incl(self.text(), &regex),
    ;

    /// Every unit satisfying the predicate replaced by `replacement`,
    /// spliced in as a literal.
    fn replace_all<P: CharPredicate>(&self, regex: P, replacement: &Self) -> (r: Self)
        ensures
            r.text() == replace_all_spec(self.text(), &regex, replacement.text()),
    ;

    /// Only the first unit satisfying the predicate replaced by
    /// `replacement`; without a match the value is unchanged.
    fn replace_first<P: CharPredicate>(&self, regex: P, replacement: &Self) -> (r: Self)
        ensures
            r.text() == replace_first_spec(self.text(), &regex, replacement.text()),
    ;

    /// Every line prefixed with `amount` space characters and ended with
    /// a line break, the last line included; a value with any line at
    /// all therefore always ends with a line break.
    fn indent(&self, amount: usize) -> (r: Self)
        ensures
            r.text() == indent_spec(self.text(), line_pad(amount as nat)),
    ;
}

/// Decides the classified-whitespace property of one character unit.
fn is_space_char(c: char) -> (r: bool)
    ensures
        r == is_space(c),
{
    let u = c as u32;
    u == 0x09 || u == 0x0A || u == 0x0B || u == 0x0C || u == 0x0D || u == 0x20 || u == 0x85
        || u == 0xA0 || u == 0x1680 || (0x2000 <= u && u <= 0x200A) || u == 0x2028 || u == 0x2029
        || u == 0x202F || u == 0x205F || u == 0x3000
}

impl JavaString for String {
    const COMPACT_STRINGS: bool = true;

    open spec fn text(&self) -> Seq<char> {
        self@
    }

    fn length(&self) -> (n: usize) {
        self.as_str().unicode_len()
    }

    fn char_at(&self, index: usize) -> (r: Option<char>) {
        if index < self.as_str().unicode_len() {
            Some(self.as_str().get_char(index))
        } else {
            None
        }
    }

    fn code_point_at(&self, index: usize) -> (r: u8) {
        if index < self.as_str().unicode_len() {
            let c = self.as_str().get_char(index);
            (c as u32 % 256) as u8
        } else {
            0
        }
    }

    fn code_point_count(&self, begin_index: usize, end_index: usize) -> (r: Option<usize>) {
        if begin_index <= end_index && end_index <= self.as_str().unicode_len() {
            Some(end_index - begin_index)
        } else {
            None
        }
    }

    fn is_blank(&self) -> (r: bool) {
        let n = self.as_str().unicode_len();
        let mut i: usize = 0;
        while i < n
            invariant
                n == self@.len(),
                i <= n,
                forall|j: int| 0 <= j < i ==> is_space(#[trigger] self@[j]),
            decreases n - i,
        {
            if !is_space_char(self.as_str().get_char(i)) {
                proof {
                    assert(!(forall|j: int|
                        0 <= j < self.text().len() ==> is_space(#[trigger] self.text()[j]))) by {
                        assert(0 <= i < self.text().len() && !is_space(self.text()[i as int]));
                    }
                }
                return false;
            }
            i += 1;
        }
        true
    }

    fn equals(&self, other: &Self) -> (r: bool) {
        self.eq(other)
    }

    fn compare_to(&self, other: &Self) -> (r: i8) {
        let n1 = self.as_str().unicode_len();
        let n2 = other.as_str().unicode_len();
        proof {
            assert(self@.skip(0) =~= self@);
            assert(other@.skip(0) =~= other@);
        }
        let mut i: usize = 0;
        while i < n1 && i < n2
            invariant
                n1 == self@.len(),
                n2 == other@.len(),
                i <= n1,
                i <= n2,
                cmp3(self@, other@) == cmp3(self@.skip(i as int), other@.skip(i as int)),
            decreases n1 - i,
        {
            let ca = self.as_str().get_char(i);
            let cb = other.as_str().get_char(i);
            if (ca as u32) < (cb as u32) {
                return -1;
            }
            if (ca as u32) > (cb as u32) {
                return 1;
            }
            proof {
                lemma_cmp3_skip(self@, other@, i as int);
            }
            i += 1;
        }
        if n1 == n2 {
            0
        } else if n1 < n2 {
            -1
        } else {
            1
        }
    }

    fn hash_code(&self) -> (h: u32) {
        let n = self.as_str().unicode_len();
        let mut h: u32 = 0;
        let mut i: usize = 0;
        while i < n
            invariant
                n == self@.len(),
                i <= n,
                h == hash_spec(self@.take(i as int)),
            decreases n - i,
        {
            let c = self.as_str().get_char(i);
            h = h.wrapping_mul(31).wrapping_add(c as u32);
            proof {
                assert(self@.take(i + 1).drop_last() =~= self@.take(i as int));
                assert(self@.take(i + 1).last() == self@[i as int]);
            }
            i += 1;
        }
        proof {
            assert(self@.take(n as int) =~= self@);
        }
        h
    }

    fn equals_ignore_case(&self, other: &Self) -> (r: bool) {
        let n1 = self.as_str().unicode_len();
        let n2 = other.as_str().unicode_len();
        if n1 != n2 {
            proof {
                assert(fold_seq(self@).len() == self@.len());
                assert(fold_seq(other@).len() == other@.len());
            }
            return false;
        }
        let mut i: usize = 0;
        while i < n1
            invariant
                n1 == self@.len(),
                n1 == other@.len(),
                i <= n1,
                forall|j: int| 0 <= j < i ==> fold_seq(self@)[j] == fold_seq(other@)[j],
            decreases n1 - i,
        {
            let ca = fold_char(self.as_str().get_char(i));
            let cb = fold_char(other.as_str().get_char(i));
            if ca != cb {
                proof {
                    assert(fold_seq(self@)[i as int] != fold_seq(other@)[i as int]);
                }
                return false;
            }
            i += 1;
        }
        proof {
            assert(fold_seq(self@) =~= fold_seq(other@));
        }
        true
    }

    fn compare_to_ignore_case(&self, other: &Self) -> (r: i8) {
        let n1 = self.as_str().unicode_len();
        let n2 = other.as_str().unicode_len();
        proof {
            assert(fold_seq(self@).skip(0) =~= fold_seq(self@));
            assert(fold_seq(other@).skip(0) =~= fold_seq(other@));
        }
        let mut i: usize = 0;
        while i < n1 && i < n2
            invariant
                n1 == self@.len(),
                n2 == other@.len(),
                i <= n1,
                i <= n2,
                cmp3(fold_seq(self@), fold_seq(other@)) == cmp3(
                    fold_seq(self@).skip(i as int),
                    fold_seq(other@).skip(i as int),
                ),
            decreases n1 - i,
        {
            let ca = fold_char(self.as_str().get_char(i));
            let cb = fold_char(other.as_str().get_char(i));
            proof {
                assert(fold_seq(self@).skip(i as int)[0] == fold_seq(self@)[i as int]);
                assert(fold_seq(other@).skip(i as int)[0] == fold_seq(other@)[i as int]);
            }
            if (ca as u32) < (cb as u32) {
                return -1;
            }
            if (ca as u32) > (cb as u32) {
                return 1;
            }
            proof {
                lemma_cmp3_skip(fold_seq(self@), fold_seq(other@), i as int);
            }
            i += 1;
        }
        if n1 == n2 {
            0
        } else if n1 < n2 {
            -1
        } else {
            1
        }
    }

    fn region_matches(
        &self,
        toffset: usize,
        other: &Self,
        ooffset: usize,
        len: usize,
        ignore_case: bool,
    ) -> (r: Result<bool, StringIndexOutOfBoundsException>) {
        let n1 = self.as_str().unicode_len();
        let n2 = other.as_str().unicode_len();
        if toffset > n1 || len > n1 - toffset {
            return Err(
                StringIndexOutOfBoundsException::new(
                    String::from_str("region out of range"),
                    toffset,
                ),
            );
        }
        if ooffset > n2 || len > n2 - ooffset {
            return Err(
                StringIndexOutOfBoundsException::new(
                    String::from_str("region out of range"),
                    ooffset,
                ),
            );
        }
        let ghost sub1 = self@.subrange(toffset as int, toffset + len);
        let ghost sub2 = other@.subrange(ooffset as int, ooffset + len);
        let mut k: usize = 0;
        while k < len
            invariant
                n1 == self@.len(),
                n2 == other@.len(),
                toffset + len <= n1,
                ooffset + len <= n2,
                k <= len,
                sub1 == self@.subrange(toffset as int, toffset + len),
                sub2 == other@.subrange(ooffset as int, ooffset + len),
                ignore_case ==> forall|j: int| 0 <= j < k ==> fold_seq(sub1)[j] == fold_seq(sub2)[j],
                !ignore_case ==> forall|j: int| 0 <= j < k ==> sub1[j] == sub2[j],
            decreases len - k,
        {
            let ca = self.as_str().get_char(toffset + k);
            let cb = other.as_str().get_char(ooffset + k);
            proof {
                assert(sub1[k as int] == self@[toffset + k]);
                assert(sub2[k as int] == other@[ooffset + k]);
            }
            if ignore_case {
                if fold_char(ca) != fold_char(cb) {
                    proof {
                        assert(fold_seq(sub1)[k as int] != fold_seq(sub2)[k as int]);
                    }
                    return Ok(false);
                }
            } else {
                if ca != cb {
                    return Ok(false);
                }
            }
            k += 1;
        }
        proof {
            if ignore_case {
                assert(fold_seq(sub1) =~= fold_seq(sub2));
            } else {
                assert(sub1 =~= sub2);
            }
        }
        Ok(true)
    }

    fn index_of<P: CharPredicate>(&self, ch: P) -> (r: Option<usize>) {
        let n = self.as_str().unicode_len();
        let mut i: usize = 0;
        while i < n
            invariant
                n == self@.len(),
                i <= n,
                forall|j: int| 0 <= j < i ==> !ch.spec_test(#[trigger] self@[j]),
            decreases n - i,
        {
            if ch.test(self.as_str().get_char(i)) {
                return Some(i);
            }
            i += 1;
        }
        None
    }

    fn index_of_between<P: CharPredicate>(&self, ch: P, begin_index: usize, end_index: usize) -> (r:
        Result<Option<usize>, StringIndexOutOfBoundsException>) {
        let n = self.as_str().unicode_len();
        if end_index > n {
            return Err(
                StringIndexOutOfBoundsException::new(
                    String::from_str("index out of range"),
                    end_index,
                ),
            );
        }
        if begin_index > end_index {
            return Err(
                StringIndexOutOfBoundsException::new(
                    String::from_str("index out of range"),
                    begin_index,
                ),
            );
        }
        let mut i: usize = begin_index;
        while i < end_index
            invariant
                n == self@.len(),
                begin_index <= i <= end_index <= n,
                forall|j: int| begin_index <= j < i ==> !ch.spec_test(#[trigger] self@[j]),
            decreases end_index - i,
        {
            if ch.test(self.as_str().get_char(i)) {
                return Ok(Some(i));
            }
            i += 1;
        }
        Ok(None)
    }

    fn last_index_of<P: CharPredicate>(&self, ch: P) -> (r: Option<usize>) {
        let n = self.as_str().unicode_len();
        let mut i: usize = n;
        while i > 0
            invariant
                n == self@.len(),
                i <= n,
                forall|j: int| i <= j < n ==> !ch.spec_test(#[trigger] self@[j]),
            decreases i,
        {
            i -= 1;
            if ch.test(self.as_str().get_char(i)) {
                return Some(i);
            }
        }
        None
    }

    fn last_index_from<P: CharPredicate>(&self, ch: P, from_index: usize) -> (r: Result<
        Option<usize>,
        StringIndexOutOfBoundsException,
    >) {
        let n = self.as_str().unicode_len();
        if from_index > n {
            return Err(
                StringIndexOutOfBoundsException::new(
                    String::from_str("index out of range"),
                    from_index,
                ),
            );
        }
        let mut i: usize = n;
        while i > from_index
            invariant
                n == self@.len(),
                from_index <= i <= n,
                forall|j: int| i <= j < n ==> !ch.spec_test(#[trigger] self@[j]),
            decreases i,
        {
            i -= 1;
            if ch.test(self.as_str().get_char(i)) {
                return Ok(Some(i));
            }
        }
        Ok(None)
    }

    fn substring(&self, begin_index: usize, end_index: usize) -> (r: Result<
        Self,
        StringIndexOutOfBoundsException,
    >) {
        let n = self.as_str().unicode_len();
        if end_index > n {
            return Err(
                StringIndexOutOfBoundsException::new(
                    String::from_str("index out of range"),
                    end_index,
                ),
            );
        }
        if begin_index > end_index {
            return Err(
                StringIndexOutOfBoundsException::new(
                    String::from_str("index out of range"),
                    begin_index,
                ),
            );
        }
        Ok(self.as_str().substring_char(begin_index, end_index).to_owned())
    }

    fn subsequence(&self, begin_index: usize, end_index: usize) -> (r: Result<
        Vec<char>,
        StringIndexOutOfBoundsException,
    >) {
        let n = self.as_str().unicode_len();
        if end_index > n {
            return Err(
                StringIndexOutOfBoundsException::new(
                    String::from_str("index out of range"),
                    end_index,
                ),
            );
        }
        if begin_index > end_index {
            return Err(
                StringIndexOutOfBoundsException::new(
                    String::from_str("index out of range"),
                    begin_index,
                ),
            );
        }
        let mut v: Vec<char> = Vec::new();
        let mut i: usize = begin_index;
        while i < end_index
            invariant
                n == self@.len(),
                begin_index <= i <= end_index <= n,
                v@ == self@.subrange(begin_index as int, i as int),
            decreases end_index - i,
        {
            v.push(self.as_str().get_char(i));
            proof {
                assert(self@.subrange(begin_index as int, i + 1) =~= self@.subrange(
                    begin_index as int,
                    i as int,
                ).push(self@[i as int]));
            }
            i += 1;
        }
        proof {
            assert(v@ =~= self@.subrange(begin_index as int, end_index as int));
        }
        Ok(v)
    }

    fn concat(&self, other: &Self) -> (r: Self) {
        self.clone().concat(other.as_str())
    }

    fn get_chars(
        &self,
        src_begin: usize,
        src_end: usize,
        dest: &mut Vec<char>,
        dest_begin: usize,
    ) -> (r: Result<(), StringIndexOutOfBoundsException>) {
        let n = self.as_str().unicode_len();
        if src_end > n {
            return Err(
                StringIndexOutOfBoundsException::new(
                    String::from_str("index out of range"),
                    src_end,
                ),
            );
        }
        if src_begin > src_end {
            return Err(
                StringIndexOutOfBoundsException::new(
                    String::from_str("index out of range"),
                    src_begin,
                ),
            );
        }
        let needed = src_end - src_begin;
        if dest_begin > dest.len() || needed > dest.len() - dest_begin {
            return Err(
                StringIndexOutOfBoundsException::new(
                    String::from_str("index out of range"),
                    dest_begin,
                ),
            );
        }
        let limit: usize = dest_begin + needed;
        let mut k: usize = 0;
        while k < needed
            invariant
                n == self@.len(),
                src_begin + needed == src_end <= n,
                k <= needed,
                limit == dest_begin + needed,
                dest@.len() == old(dest)@.len(),
                dest_begin + needed <= dest@.len(),
                forall|t: int|
                    0 <= t < k ==> #[trigger] dest@[dest_begin + t] == self@[src_begin + t],
                forall|j: int|
                    0 <= j < dest@.len() && !(dest_begin <= j < dest_begin + k)
                        ==> #[trigger] dest@[j] == old(dest)@[j],
            decreases needed - k,
        {
            let c = self.as_str().get_char(src_begin + k);
            dest.set(dest_begin + k, c);
            k += 1;
        }
        Ok(())
    }

    fn transform<R, F: FnOnce(Self) -> R>(&self, function: F) -> (r: R) {
        let copy = self.clone();
        let ghost witness = copy;
        let out = function(copy);
        proof {
            assert(witness.text() == self.text() && call_ensures(function, (witness,), out));
        }
        out
    }

    fn value_of<T: core::fmt::Display>(x: T) -> (r: Self)
        ensures
            vstd::string::to_string_from_display_ensures::<T>(&x, r),
    {
        x.to_string()
    }

    fn split_with_delimiters<P: CharPredicate>(&self, regex: P) -> (r: Vec<Self>) {
        let n = self.as_str().unicode_len();
        let mut out: Vec<String> = Vec::new();
        let mut start: usize = 0;
        let mut i: usize = 0;
        proof {
            assert(self@.skip(0) =~= self@);
            assert(out.deep_view() + split_incl(self@, &regex) =~= split_incl(self@, &regex));
        }
        while i < n
            invariant
                n == self@.len(),
                start <= i <= n,
                forall|j: int| start <= j < i ==> !regex.spec_test(#[trigger] self@[j]),
                out.deep_view() + split_incl(self@.skip(start as int), &regex) == split_incl(
                    self@,
                    &regex,
                ),
            decreases n - i,
        {
            let c = self.as_str().get_char(i);
            if regex.test(c) {
                let ghost pre = out.deep_view();
                let ghost rest = self@.skip(start as int);
                let seg = self.as_str().substring_char(start, i + 1).to_owned();
                out.push(seg);
                proof {
                    assert forall|j: int| 0 <= j < i - start implies !regex.spec_test(
                        #[trigger] rest[j],
                    ) by {
                        assert(rest[j] == self@[start + j]);
                    }
                    assert(rest[i - start] == self@[i as int]);
                    lemma_first_match_found(rest, &regex, i - start);
                    assert(rest.take(i - start + 1) =~= self@.subrange(start as int, i + 1));
                    assert(rest.skip(i - start + 1) =~= self@.skip(i + 1));
                    assert(split_incl(rest, &regex) == seq![seg@] + split_incl(
                        self@.skip(i + 1),
                        &regex,
                    ));
                    assert(out.deep_view() =~= pre.push(seg@));
                    assert(out.deep_view() + split_incl(self@.skip(i + 1), &regex) =~= pre
                        + split_incl(rest, &regex));
                }
                start = i + 1;
            }
            i += 1;
        }
        if start < n {
            let ghost pre = out.deep_view();
            let ghost rest = self@.skip(start as int);
            let seg = self.as_str().substring_char(start, n).to_owned();
            out.push(seg);
            proof {
                assert forall|j: int| 0 <= j < rest.len() implies !regex.spec_test(
                    #[trigger] rest[j],
                ) by {
                    assert(rest[j] == self@[start + j]);
                }
                lemma_first_match_absent(rest, &regex);
                assert(rest =~= self@.subrange(start as int, n as int));
                assert(split_incl(rest, &regex) == seq![rest]);
                assert(out.deep_view() =~= pre.push(seg@));
                assert(out.deep_view() =~= pre + split_incl(rest, &regex));
            }
        } else {
            proof {
                assert(self@.skip(start as int) =~= Seq::<char>::empty());
                assert(split_incl(self@.skip(start as int), &regex) =~= Seq::<Seq<char>>::empty());
                assert(out.deep_view() + split_incl(self@.skip(start as int), &regex)
                    =~= out.deep_view());
            }
        }
        out
    }

    fn replace_all<P: CharPredicate>(&self, regex: P, replacement: &Self) -> (r: Self) {
        let n = self.as_str().unicode_len();
        let mut out = String::new();
        let mut i: usize = 0;
        proof {
            assert(self@.skip(0) =~= self@);
            assert(out@ + replace_all_spec(self@, &regex, replacement@) =~= replace_all_spec(
                self@,
                &regex,
                replacement@,
            ));
        }
        while i < n
            invariant
                n == self@.len(),
                i <= n,
                out@ + replace_all_spec(self@.skip(i as int), &regex, replacement@)
                    == replace_all_spec(self@, &regex, replacement@),
            decreases n - i,
        {
            let c = self.as_str().get_char(i);
            let ghost pre = out@;
            let ghost rest = self@.skip(i as int);
            proof {
                assert(rest[0] == self@[i as int]);
                assert(rest.skip(1) =~= self@.skip(i + 1));
            }
            if regex.test(c) {
                out.append(replacement.as_str());
                proof {
                    assert(replace_all_spec(rest, &regex, replacement@) == replacement@
                        + replace_all_spec(self@.skip(i + 1), &regex, replacement@));
                    assert((pre + replacement@) + replace_all_spec(
                        self@.skip(i + 1),
                        &regex,
                        replacement@,
                    ) =~= pre + (replacement@ + replace_all_spec(
                        self@.skip(i + 1),
                        &regex,
                        replacement@,
                    )));
                }
            } else {
                out.append(self.as_str().substring_char(i, i + 1));
                proof {
                    let piece = self@.subrange(i as int, i + 1);
                    assert(piece =~= seq![self@[i as int]]);
                    assert(replace_all_spec(rest, &regex, replacement@) == piece
                        + replace_all_spec(self@.skip(i + 1), &regex, replacement@));
                    assert((pre + piece) + replace_all_spec(
                        self@.skip(i + 1),
                        &regex,
                        replacement@,
                    ) =~= pre + (piece + replace_all_spec(self@.skip(i + 1), &regex, replacement@)));
                }
            }
            i += 1;
        }
        proof {
            assert(self@.skip(n as int) =~= Seq::<char>::empty());
            assert(out@ + replace_all_spec(self@.skip(n as int), &regex, replacement@) =~= out@);
        }
        out
    }

    fn replace_first<P: CharPredicate>(&self, regex: P, replacement: &Self) -> (r: Self) {
        let n = self.as_str().unicode_len();
        let mut out = String::new();
        let mut i: usize = 0;
        proof {
            assert(self@.skip(0) =~= self@);
            assert(out@ + replace_first_spec(self@, &regex, replacement@) =~= replace_first_spec(
                self@,
                &regex,
                replacement@,
            ));
        }
        while i < n
            invariant
                n == self@.len(),
                i <= n,
                out@ + replace_first_spec(self@.skip(i as int), &regex, replacement@)
                    == replace_first_spec(self@, &regex, replacement@),
            decreases n - i,
        {
            let c = self.as_str().get_char(i);
            let ghost pre = out@;
            let ghost rest = self@.skip(i as int);
            proof {
                assert(rest[0] == self@[i as int]);
                assert(rest.skip(1) =~= self@.skip(i + 1));
            }
            if regex.test(c) {
                out.append(replacement.as_str());
                out.append(self.as_str().substring_char(i + 1, n));
                proof {
                    let tail = self@.subrange(i + 1, n as int);
                    assert(tail =~= self@.skip(i + 1));
                    assert(replace_first_spec(rest, &regex, replacement@) == replacement@
                        + self@.skip(i + 1));
                    assert((pre + replacement@) + tail =~= pre + (replacement@ + self@.skip(
                        i + 1,
                    )));
                }
                return out;
            }
            out.append(self.as_str().substring_char(i, i + 1));
            proof {
                let piece = self@.subrange(i as int, i + 1);
                assert(piece =~= seq![self@[i as int]]);
                assert(replace_first_spec(rest, &regex, replacement@) == piece
                    + replace_first_spec(self@.skip(i + 1), &regex, replacement@));
                assert((pre + piece) + replace_first_spec(self@.skip(i + 1), &regex, replacement@)
                    =~= pre + (piece + replace_first_spec(self@.skip(i + 1), &regex, replacement@)));
            }
            i += 1;
        }
        proof {
            assert(self@.skip(n as int) =~= Seq::<char>::empty());
            assert(out@ + replace_first_spec(self@.skip(n as int), &regex, replacement@) =~= out@);
        }
        out
    }

    fn indent(&self, amount: usize) -> (r: Self) {
        let n: usize = self.as_str().unicode_len();
        let mut pad = String::new();
        proof {
            assert(pad@ =~= line_pad(0));
        }
        let mut a: usize = 0;
        while a < amount
            invariant
                a <= amount,
                pad@ == line_pad(a as nat),
            decreases amount - a,
        {
            pad.append(" ");
            proof {
                reveal_strlit(" ");
                assert(pad@ =~= line_pad((a + 1) as nat));
            }
            a += 1;
        }
        let mut out = String::new();
        let mut start: usize = 0;
        let mut i: usize = 0;
        proof {
            assert(self@.skip(0) =~= self@);
            assert(out@ + indent_spec(self@, pad@) =~= indent_spec(self@, pad@));
        }
        while i < n
            invariant
                n == self@.len(),
                start <= i <= n,
                pad@ == line_pad(amount as nat),
                forall|j: int| start <= j < i ==> #[trigger] self@[j] != '\n',
                out@ + indent_spec(self@.skip(start as int), pad@) == indent_spec(self@, pad@),
            decreases n - i,
        {
            let c = self.as_str().get_char(i);
            if c == '\n' {
                let ghost pre = out@;
                let ghost rest = self@.skip(start as int);
                let line_end: usize = if i > start && self.as_str().get_char(i - 1) == '\r' {
                    i - 1
                } else {
                    i
                };
                out.append(pad.as_str());
                out.append(self.as_str().substring_char(start, line_end));
                out.append("\n");
                proof {
                    reveal_strlit("\n");
                    let nlp = CharIs { target: '\n' };
                    assert forall|j: int| 0 <= j < i - start implies !nlp.spec_test(
                        #[trigger] rest[j],
                    ) by {
                        assert(rest[j] == self@[start + j]);
                    }
                    assert(rest[i - start] == self@[i as int]);
                    lemma_first_match_found(rest, &nlp, i - start);
                    assert(nl_first(rest) == i - start);
                    let content = rest.take(i - start);
                    assert(content =~= self@.subrange(start as int, i as int));
                    assert(strip_cr(content) =~= self@.subrange(start as int, line_end as int));
                    assert(rest.skip(i - start + 1) =~= self@.skip(i + 1));
                    assert(indent_spec(rest, pad@) == pad@ + strip_cr(content) + seq!['\n']
                        + indent_spec(self@.skip(i + 1), pad@));
                    assert("\n"@ =~= seq!['\n']);
                    assert(out@ + indent_spec(self@.skip(i + 1), pad@) =~= pre + indent_spec(
                        rest,
                        pad@,
                    ));
                }
                start = i + 1;
            }
            i += 1;
        }
        if start < n {
            let ghost pre = out@;
            let ghost rest = self@.skip(start as int);
            out.append(pad.as_str());
            out.append(self.as_str().substring_char(start, n));
            out.append("\n");
            proof {
                reveal_strlit("\n");
                let nlp = CharIs { target: '\n' };
                assert forall|j: int| 0 <= j < rest.len() implies !nlp.spec_test(
                    #[trigger] rest[j],
                ) by {
                    assert(rest[j] == self@[start + j]);
                }
                lemma_first_match_absent(rest, &nlp);
                assert(nl_first(rest) == rest.len());
                assert(rest =~= self@.subrange(start as int, n as int));
                assert(indent_spec(rest, pad@) == pad@ + rest + seq!['\n']);
                assert("\n"@ =~= seq!['\n']);
                assert(out@ =~= pre + indent_spec(rest, pad@));
            }
        } else {
            proof {
                assert(self@.skip(start as int) =~= Seq::<char>::empty());
                assert(out@ + indent_spec(self@.skip(start as int), pad@) =~= out@);
            }
        }
        out
    }
}

} // verus!
