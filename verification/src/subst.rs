//! Literal, leftmost, non-overlapping substring replacement over byte
//! strings, together with the lemmas that make the bind/unbind protocol
//! of the launcher reversible.

use vstd::prelude::*;

verus! {

/// `pat` occurs in `text` starting at index `i`.
pub open spec fn occurs_at(text: Seq<u8>, pat: Seq<u8>, i: int) -> bool {
    0 <= i && i + pat.len() <= text.len() && text.subrange(i, i + pat.len() as int) == pat
}

/// `pat` occurs somewhere in `text`.
pub open spec fn occurs_in(text: Seq<u8>, pat: Seq<u8>) -> bool {
    exists|i: int| occurs_at(text, pat, i)
}

/// `a` is a prefix of `b`.
pub open spec fn is_prefix(a: Seq<u8>, b: Seq<u8>) -> bool {
    a.len() <= b.len() && b.subrange(0, a.len() as int) == a
}

/// No nonempty proper prefix of `s` is also a suffix of `s`.
///
/// Replacement strings with this shape can be replaced back without a
/// partial copy of the string overlapping a neighbouring copy.
pub open spec fn border_free(s: Seq<u8>) -> bool {
    forall|k: int| 1 <= k < s.len() ==> s.subrange(0, k) != s.subrange(s.len() - k, s.len() as int)
}

/// The text obtained from `text` by replacing every occurrence of `pat`
/// by `sub`, scanning left to right without overlap. An empty `pat`
/// replaces nothing.
pub open spec fn replaced(text: Seq<u8>, pat: Seq<u8>, sub: Seq<u8>) -> Seq<u8>
    decreases text.len(),
{
    if pat.len() == 0 || text.len() < pat.len() {
        text
    } else if text.subrange(0, pat.len() as int) == pat {
        sub + replaced(text.skip(pat.len() as int), pat, sub)
    } else {
        seq![text[0]] + replaced(text.skip(1), pat, sub)
    }
}

/// Whether `pat` occurs in `text` starting exactly at index `i`.
pub(crate) fn match_at(text: &Vec<u8>, pat: &Vec<u8>, i: usize) -> (r: bool)
    requires
        i + pat@.len() <= text@.len(),
    ensures
        r == (text@.subrange(i as int, i + pat@.len()) == pat@),
{
    let n = text.len();
    let mut j: usize = 0;
    while j < pat.len()
        invariant
            n == text@.len(),
            i + pat@.len() <= text@.len(),
            j <= pat@.len(),
            forall|k: int| 0 <= k < j ==> text@[i + k] == pat@[k],
        decreases pat@.len() - j,
    {
        if text[i + j] != pat[j] {
            proof {
                assert(text@.subrange(i as int, i + pat@.len())[j as int] == text@[i + j]);
            }
            return false;
        }
        j = j + 1;
    }
    proof {
        assert(text@.subrange(i as int, i + pat@.len()) =~= pat@);
    }
    true
}

/// Appends all of `src` to `dst`.
pub(crate) fn append_bytes(dst: &mut Vec<u8>, src: &Vec<u8>)
    ensures
        final(dst)@ == old(dst)@ + src@,
{
    let mut j: usize = 0;
    while j < src.len()
        invariant
            j <= src@.len(),
            dst@ == old(dst)@ + src@.subrange(0, j as int),
        decreases src@.len() - j,
    {
        dst.push(src[j]);
        proof {
            assert(old(dst)@ + src@.subrange(0, j + 1)
                =~= (old(dst)@ + src@.subrange(0, j as int)).push(src@[j as int]));
        }
        j = j + 1;
    }
    proof {
        assert(src@.subrange(0, src@.len() as int) =~= src@);
    }
}

/// Whether two byte strings hold the same bytes.
pub fn bytes_eq(a: &Vec<u8>, b: &Vec<u8>) -> (r: bool)
    ensures
        r == (a@ == b@),
{
    if a.len() != b.len() {
        return false;
    }
    let mut j: usize = 0;
    while j < a.len()
        invariant
            a@.len() == b@.len(),
            j <= a@.len(),
            forall|k: int| 0 <= k < j ==> a@[k] == b@[k],
        decreases a@.len() - j,
    {
        if a[j] != b[j] {
            return false;
        }
        j = j + 1;
    }
    proof {
        assert(a@ =~= b@);
    }
    true
}

/// A copy of a byte string.
pub fn copy_bytes(src: &Vec<u8>) -> (r: Vec<u8>)
    ensures
        r@ == src@,
{
    let mut r: Vec<u8> = Vec::new();
    append_bytes(&mut r, src);
    proof {
        assert(Seq::<u8>::empty() + src@ =~= src@);
    }
    r
}

/// The bytes of `src` from `from` inclusive to `to` exclusive.
pub(crate) fn copy_range(src: &Vec<u8>, from: usize, to: usize) -> (r: Vec<u8>)
    requires
        from <= to <= src@.len(),
    ensures
        r@ == src@.subrange(from as int, to as int),
{
    let mut r: Vec<u8> = Vec::new();
    let mut j: usize = from;
    while j < to
        invariant
            from <= j <= to <= src@.len(),
            r@ == src@.subrange(from as int, j as int),
        decreases to - j,
    {
        r.push(src[j]);
        proof {
            assert(src@.subrange(from as int, j + 1)
                =~= src@.subrange(from as int, j as int).push(src@[j as int]));
        }
        j = j + 1;
    }
    r
}

/// Replaces every occurrence of `pat` in `text` by `sub`, scanning left
/// to right without overlap.
pub fn replace_all(text: &Vec<u8>, pat: &Vec<u8>, sub: &Vec<u8>) -> (r: Vec<u8>)
    requires
        pat@.len() > 0,
    ensures
        r@ == replaced(text@, pat@, sub@),
{
    let mut out: Vec<u8> = Vec::new();
    let mut i: usize = 0;
    proof {
        assert(text@.skip(0) =~= text@);
        assert(Seq::<u8>::empty() + replaced(text@, pat@, sub@) =~= replaced(text@, pat@, sub@));
    }
    while i < text.len()
        invariant
            pat@.len() > 0,
            i <= text@.len(),
            replaced(text@, pat@, sub@) == out@ + replaced(text@.skip(i as int), pat@, sub@),
        decreases text@.len() - i,
    {
        let rest_len = text.len() - i;
        if pat.len() <= rest_len && match_at(text, pat, i) {
            proof {
                let s = text@.skip(i as int);
                assert(s.subrange(0, pat@.len() as int)
                    =~= text@.subrange(i as int, i + pat@.len()));
                assert(s.skip(pat@.len() as int) =~= text@.skip(i + pat@.len()));
                assert(out@ + (sub@ + replaced(text@.skip(i + pat@.len()), pat@, sub@))
                    =~= (out@ + sub@) + replaced(text@.skip(i + pat@.len()), pat@, sub@));
            }
            append_bytes(&mut out, sub);
            i = i + pat.len();
        } else {
            proof {
                let s = text@.skip(i as int);
                assert(s.len() == text@.len() - i);
                if s.len() >= pat@.len() {
                    assert(s.subrange(0, pat@.len() as int)
                        =~= text@.subrange(i as int, i + pat@.len()));
                }
                assert(s.skip(1) =~= text@.skip(i + 1));
                assert(seq![s[0]] + replaced(text@.skip(i + 1), pat@, sub@)
                    == replaced(s, pat@, sub@));
                assert(out@ + (seq![s[0]] + replaced(text@.skip(i + 1), pat@, sub@))
                    =~= out@.push(s[0]) + replaced(text@.skip(i + 1), pat@, sub@));
            }
            out.push(text[i]);
            i = i + 1;
        }
    }
    proof {
        assert(text@.skip(text@.len() as int) =~= Seq::<u8>::empty());
        assert(out@ + Seq::<u8>::empty() =~= out@);
    }
    out
}

/// An occurrence in a suffix of `text` is an occurrence in `text`.
proof fn lemma_occurs_at_skip(text: Seq<u8>, pat: Seq<u8>, k: int, i: int)
    requires
        0 <= k <= text.len(),
        occurs_at(text.skip(k), pat, i),
    ensures
        occurs_at(text, pat, k + i),
{
    assert(text.skip(k).subrange(i, i + pat.len() as int)
        =~= text.subrange(k + i, k + i + pat.len() as int));
}

/// If `pat` occurs nowhere in `text`, it occurs nowhere in a suffix of it.
proof fn lemma_no_occurrence_skip(text: Seq<u8>, pat: Seq<u8>, k: int)
    requires
        0 <= k <= text.len(),
        !occurs_in(text, pat),
    ensures
        !occurs_in(text.skip(k), pat),
{
    assert forall|i: int| !occurs_at(text.skip(k), pat, i) by {
        if occurs_at(text.skip(k), pat, i) {
            lemma_occurs_at_skip(text, pat, k, i);
            assert(occurs_at(text, pat, k + i));
        }
    }
}

/// Replacing a pattern that occurs nowhere changes nothing.
pub proof fn lemma_replace_absent(text: Seq<u8>, pat: Seq<u8>, sub: Seq<u8>)
    requires
        pat.len() > 0,
        !occurs_in(text, pat),
    ensures
        replaced(text, pat, sub) == text,
    decreases text.len(),
{
    if text.len() < pat.len() {
    } else if text.subrange(0, pat.len() as int) == pat {
        assert(occurs_at(text, pat, 0));
    } else {
        lemma_no_occurrence_skip(text, pat, 1);
        lemma_replace_absent(text.skip(1), pat, sub);
        assert(seq![text[0]] + text.skip(1) =~= text);
    }
}

/// Shape of a short prefix of a replacement's result: either it was
/// already a prefix of the original text, or it ends inside a copy of
/// `sub` that the replacement wrote over an occurrence of `pat`.
proof fn lemma_prefix_structure(text: Seq<u8>, pat: Seq<u8>, sub: Seq<u8>, w: Seq<u8>)
    requires
        pat.len() > 0,
        w.len() <= sub.len(),
        is_prefix(w, replaced(text, pat, sub)),
    ensures
        is_prefix(w, text) || exists|j: int, k: int|
            0 <= j && 0 < k <= sub.len() && j + k == w.len() && occurs_at(text, pat, j)
                && w == text.subrange(0, j) + sub.subrange(0, k),
    decreases text.len(),
{
    let r = replaced(text, pat, sub);
    if w.len() == 0 {
        assert(w =~= text.subrange(0, 0));
    } else if text.len() < pat.len() {
        // r == text, so w is a prefix of text already.
    } else if text.subrange(0, pat.len() as int) == pat {
        // r == sub + replaced(rest); w, being no longer than sub, lies in sub.
        let j: int = 0;
        let k = w.len() as int;
        assert(occurs_at(text, pat, 0));
        assert forall|x: int| 0 <= x < k implies w[x] == sub[x] by {
            assert(w[x] == r.subrange(0, w.len() as int)[x]);
        }
        assert(w =~= text.subrange(0, 0) + sub.subrange(0, k));
        assert(0 <= j && 0 < k <= sub.len() && j + k == w.len() && occurs_at(text, pat, j)
            && w == text.subrange(0, j) + sub.subrange(0, k));
    } else {
        // r == seq![text[0]] + replaced(text.skip(1)); peel one byte.
        let w1 = w.skip(1);
        let r1 = replaced(text.skip(1), pat, sub);
        assert(w[0] == r[0]) by {
            assert(r.subrange(0, w.len() as int)[0] == r[0]);
        }
        assert(w[0] == text[0]);
        assert(is_prefix(w1, r1)) by {
            assert forall|x: int| 0 <= x < w1.len() implies w1[x] == r1[x] by {
                assert(w[x + 1] == r.subrange(0, w.len() as int)[x + 1]);
                assert(r[x + 1] == r1[x]);
            }
            assert(w1 =~= r1.subrange(0, w1.len() as int));
        }
        lemma_prefix_structure(text.skip(1), pat, sub, w1);
        if is_prefix(w1, text.skip(1)) {
            assert(is_prefix(w, text)) by {
                assert forall|x: int| 0 <= x < w.len() implies w[x] == text[x] by {
                    if x > 0 {
                        assert(w1[x - 1] == text.skip(1).subrange(0, w1.len() as int)[x - 1]);
                    }
                }
                assert(w =~= text.subrange(0, w.len() as int));
            }
        } else {
            let (j1, k1): (int, int) = choose|j1: int, k1: int|
                0 <= j1 && 0 < k1 <= sub.len() && j1 + k1 == w1.len()
                    && occurs_at(text.skip(1), pat, j1)
                    && w1 == text.skip(1).subrange(0, j1) + sub.subrange(0, k1);
            lemma_occurs_at_skip(text, pat, 1, j1);
            let j = j1 + 1;
            assert(w =~= text.subrange(0, j) + sub.subrange(0, k1)) by {
                assert forall|x: int| 0 <= x < w.len() implies
                    w[x] == (text.subrange(0, j) + sub.subrange(0, k1))[x] by {
                    if x > 0 {
                        assert(w1[x - 1]
                            == (text.skip(1).subrange(0, j1) + sub.subrange(0, k1))[x - 1]);
                    }
                }
            }
            assert(0 <= j && 0 < k1 <= sub.len() && j + k1 == w.len() && occurs_at(text, pat, j)
                && w == text.subrange(0, j) + sub.subrange(0, k1));
        }
    }
}

/// Round trip of one replacement: substituting `sub` for `pat` and then
/// `pat` back for `sub` restores the text, provided `sub` occurred
/// nowhere in the text beforehand and has no border.
pub proof fn lemma_replace_round_trip(text: Seq<u8>, pat: Seq<u8>, sub: Seq<u8>)
    requires
        pat.len() > 0,
        sub.len() > 0,
        !occurs_in(text, sub),
        border_free(sub),
    ensures
        replaced(replaced(text, pat, sub), sub, pat) == text,
    decreases text.len(),
{
    let r = replaced(text, pat, sub);
    if text.len() < pat.len() {
        lemma_replace_absent(text, sub, pat);
    } else if text.subrange(0, pat.len() as int) == pat {
        let rest = text.skip(pat.len() as int);
        let rr = replaced(rest, pat, sub);
        assert(r == sub + rr);
        assert(r.subrange(0, sub.len() as int) =~= sub);
        assert(r.skip(sub.len() as int) =~= rr);
        lemma_no_occurrence_skip(text, sub, pat.len() as int);
        lemma_replace_round_trip(rest, pat, sub);
        assert(replaced(r, sub, pat) == pat + rest);
        assert(pat + rest =~= text);
    } else {
        let rest = text.skip(1);
        let rr = replaced(rest, pat, sub);
        assert(r == seq![text[0]] + rr);
        lemma_no_occurrence_skip(text, sub, 1);
        lemma_replace_round_trip(rest, pat, sub);
        // The reverse replacement finds no copy of `sub` at the start of `r`.
        if r.len() >= sub.len() && r.subrange(0, sub.len() as int) == sub {
            assert(is_prefix(sub, r));
            lemma_prefix_structure(text, pat, sub, sub);
            if is_prefix(sub, text) {
                assert(occurs_at(text, sub, 0));
                assert(false);
            } else {
                let (j, k): (int, int) = choose|j: int, k: int|
                    0 <= j && 0 < k <= sub.len() && j + k == sub.len()
                        && occurs_at(text, pat, j)
                        && sub == text.subrange(0, j) + sub.subrange(0, k);
                if j == 0 {
                    // Then `text` would start with `pat`, against this branch.
                    assert(text.subrange(0, pat.len() as int) == pat);
                    assert(false);
                } else {
                    // A copy of `sub` straddles the boundary: `sub` has a border.
                    assert(sub.subrange(sub.len() - k, sub.len() as int)
                        =~= sub.subrange(0, k)) by {
                        assert forall|x: int| 0 <= x < k implies
                            sub.subrange(sub.len() - k, sub.len() as int)[x]
                                == sub.subrange(0, k)[x] by {
                            assert(sub[j + x]
                                == (text.subrange(0, j) + sub.subrange(0, k))[j + x]);
                        }
                    }
                    assert(1 <= k < sub.len());
                    assert(sub.subrange(0, k) != sub.subrange(sub.len() - k, sub.len() as int));
                    assert(false);
                }
            }
        }
        if r.len() < sub.len() {
            // Too short to hold a copy of `sub`: the reverse replacement is
            // the identity here and on `rr`.
            assert(replaced(r, sub, pat) == r);
            assert(rr.len() < sub.len());
            assert(replaced(rr, sub, pat) == rr);
            assert(seq![text[0]] + rest =~= text);
        } else {
            assert(r[0] == text[0]);
            assert(r.skip(1) =~= rr);
            assert(replaced(r, sub, pat) == seq![text[0]] + replaced(rr, sub, pat));
            assert(seq![text[0]] + rest =~= text);
        }
    }
}

} // verus!
