//! Byte-level text utilities for line-oriented reports.
//!
//! Hardware information sources hand the pipeline line-oriented text:
//! a labeled report from a management tool, or the raw content of a
//! firmware attribute file. This module holds the verified primitives
//! those tiers share: whitespace trimming, substring search, line
//! splitting, and labeled field extraction.

use vstd::prelude::*;

verus! {

/// ASCII whitespace: space, tab, line feed, carriage return.
pub open spec fn is_ws(b: u8) -> bool {
    b == 32 || b == 9 || b == 10 || b == 13
}

pub open spec fn trim_front(s: Seq<u8>) -> Seq<u8>
    decreases s.len(),
{
    if s.len() > 0 && is_ws(s[0]) {
        trim_front(s.drop_first())
    } else {
        s
    }
}

pub open spec fn trim_back(s: Seq<u8>) -> Seq<u8>
    decreases s.len(),
{
    if s.len() > 0 && is_ws(s[s.len() - 1]) {
        trim_back(s.drop_last())
    } else {
        s
    }
}

/// The sequence with leading and trailing ASCII whitespace removed.
pub open spec fn trimmed(s: Seq<u8>) -> Seq<u8> {
    trim_back(trim_front(s))
}

/// `needle` occurs in `hay` starting at position `i`.
pub open spec fn contains_at(hay: Seq<u8>, needle: Seq<u8>, i: int) -> bool {
    0 <= i && i + needle.len() <= hay.len() && hay.subrange(i, i + needle.len()) == needle
}

/// `needle` occurs somewhere in `hay`.
pub open spec fn contains_seq(hay: Seq<u8>, needle: Seq<u8>) -> bool {
    exists|i: int| contains_at(hay, needle, i)
}

/// The lines of `s`, split on line feed; always at least one line.
pub open spec fn lines_of(s: Seq<u8>) -> Seq<Seq<u8>>
    decreases s.len(),
{
    if s.len() == 0 {
        seq![Seq::<u8>::empty()]
    } else if s[0] == 10 {
        seq![Seq::<u8>::empty()] + lines_of(s.drop_first())
    } else {
        let rest = lines_of(s.drop_first());
        seq![seq![s[0]] + rest[0]] + rest.drop_first()
    }
}

/// The first line of `ls` that contains `label`, if any.
pub open spec fn first_line_with(ls: Seq<Seq<u8>>, label: Seq<u8>) -> Option<Seq<u8>>
    decreases ls.len(),
{
    if ls.len() == 0 {
        None
    } else if contains_seq(ls[0], label) {
        Some(ls[0])
    } else {
        first_line_with(ls.drop_first(), label)
    }
}

/// Everything after the first colon of `s`, if `s` has one.
pub open spec fn after_colon(s: Seq<u8>) -> Option<Seq<u8>>
    decreases s.len(),
{
    if s.len() == 0 {
        None
    } else if s[0] == 58 {
        Some(s.drop_first())
    } else {
        after_colon(s.drop_first())
    }
}

/// Labeled field extraction: the first line of `text` containing
/// `label` is split at its first colon; the trailing portion, trimmed,
/// is the field value. A missing line or a line without a colon yields
/// nothing.
pub open spec fn extract_field_spec(text: Seq<u8>, label: Seq<u8>) -> Option<Seq<u8>> {
    match first_line_with(lines_of(text), label) {
        Option::None => Option::None,
        Option::Some(line) => match after_colon(line) {
            Option::None => Option::None,
            Option::Some(tail) => Option::Some(trimmed(tail)),
        },
    }
}

/// Copy of `v[start..end]`.
fn subrange_vec(v: &Vec<u8>, start: usize, end: usize) -> (r: Vec<u8>)
    requires
        start <= end <= v@.len(),
    ensures
        r@ == v@.subrange(start as int, end as int),
{
    let mut r: Vec<u8> = Vec::new();
    let mut i: usize = start;
    while i < end
        invariant
            start <= i <= end <= v@.len(),
            r@ == v@.subrange(start as int, i as int),
        decreases end - i,
    {
        r.push(v[i]);
        i += 1;
        proof {
            assert(v@.subrange(start as int, i as int) =~= v@.subrange(start as int, i - 1).push(
                v@[i - 1],
            ));
        }
    }
    r
}

/// Append the bytes of `src` to `dst`.
pub fn append_bytes(dst: &mut Vec<u8>, src: &Vec<u8>)
    ensures
        final(dst)@ == old(dst)@ + src@,
{
    let mut i: usize = 0;
    while i < src.len()
        invariant
            i <= src@.len(),
            dst@ == old(dst)@ + src@.take(i as int),
        decreases src@.len() - i,
    {
        dst.push(src[i]);
        i += 1;
        proof {
            assert(old(dst)@ + src@.take(i as int) =~= (old(dst)@ + src@.take(i - 1)).push(
                src@[i - 1],
            ));
        }
    }
    proof {
        assert(src@.take(src@.len() as int) =~= src@);
    }
}

/// The two byte vectors hold the same bytes.
pub fn eq_bytes(a: &Vec<u8>, b: &Vec<u8>) -> (r: bool)
    ensures
        r == (a@ == b@),
{
    if a.len() != b.len() {
        return false;
    }
    let mut i: usize = 0;
    while i < a.len()
        invariant
            a@.len() == b@.len(),
            i <= a@.len(),
            forall|t: int| 0 <= t < i ==> a@[t] == b@[t],
        decreases a@.len() - i,
    {
        if a[i] != b[i] {
            return false;
        }
        i += 1;
    }
    proof {
        assert(a@ =~= b@);
    }
    true
}

/// The trimmed copy of `v`.
pub fn trim_bytes(v: &Vec<u8>) -> (r: Vec<u8>)
    ensures
        r@ == trimmed(v@),
{
    let mut start: usize = 0;
    proof {
        assert(v@.skip(0) =~= v@);
    }
    while start < v.len() && (v[start] == 32 || v[start] == 9 || v[start] == 10 || v[start] == 13)
        invariant
            start <= v@.len(),
            trim_front(v@) == trim_front(v@.skip(start as int)),
        decreases v@.len() - start,
    {
        proof {
            assert(v@.skip(start as int).drop_first() =~= v@.skip(start + 1));
        }
        start += 1;
    }
    proof {
        if start < v@.len() {
            assert(trim_front(v@.skip(start as int)) == v@.skip(start as int));
        } else {
            assert(v@.skip(start as int) =~= Seq::<u8>::empty());
        }
        assert(trim_front(v@) == v@.skip(start as int));
    }
    let mut end: usize = v.len();
    while end > start && (v[end - 1] == 32 || v[end - 1] == 9 || v[end - 1] == 10 || v[end - 1]
        == 13)
        invariant
            start <= end <= v@.len(),
            trim_front(v@) == v@.skip(start as int),
            trim_back(v@.skip(start as int)) == trim_back(
                v@.subrange(start as int, end as int),
            ),
        decreases end,
    {
        proof {
            assert(v@.subrange(start as int, end as int).drop_last() =~= v@.subrange(
                start as int,
                end - 1,
            ));
        }
        end -= 1;
    }
    proof {
        assert(v@.skip(start as int) =~= v@.subrange(start as int, v@.len() as int));
        if end == start {
            assert(v@.subrange(start as int, end as int) =~= Seq::<u8>::empty());
        }
        assert(trim_back(v@.subrange(start as int, end as int)) == v@.subrange(
            start as int,
            end as int,
        ));
        assert(trimmed(v@) == v@.subrange(start as int, end as int));
    }
    subrange_vec(v, start, end)
}

/// `needle` matches `hay` at position `i`.
fn match_at(hay: &Vec<u8>, needle: &Vec<u8>, i: usize) -> (r: bool)
    requires
        i + needle@.len() <= hay@.len(),
    ensures
        r == contains_at(hay@, needle@, i as int),
{
    let hlen = hay.len();
    let mut j: usize = 0;
    while j < needle.len()
        invariant
            hlen == hay@.len(),
            i + needle@.len() <= hay@.len(),
            j <= needle@.len(),
            forall|t: int| 0 <= t < j ==> hay@[i + t] == needle@[t],
        decreases needle@.len() - j,
    {
        if hay[i + j] != needle[j] {
            proof {
                assert(hay@.subrange(i as int, i + needle@.len())[j as int] == hay@[i + j]);
            }
            return false;
        }
        j += 1;
    }
    proof {
        assert(hay@.subrange(i as int, i + needle@.len()) =~= needle@);
    }
    true
}

/// Whether `needle` occurs anywhere in `hay`.
pub fn contains_bytes(hay: &Vec<u8>, needle: &Vec<u8>) -> (r: bool)
    ensures
        r == contains_seq(hay@, needle@),
{
    if needle.len() > hay.len() {
        proof {
            assert(forall|i: int| !contains_at(hay@, needle@, i));
        }
        return false;
    }
    if needle.len() == 0 {
        proof {
            assert(hay@.subrange(0, 0) =~= needle@);
            assert(contains_at(hay@, needle@, 0));
        }
        return true;
    }
    let hlen = hay.len();
    let bound = hay.len() - needle.len();
    let mut i: usize = 0;
    while i <= bound
        invariant
            hlen == hay@.len(),
            needle@.len() >= 1,
            needle@.len() <= hay@.len(),
            bound == hay@.len() - needle@.len(),
            i <= bound + 1,
            forall|k: int| 0 <= k < i ==> !contains_at(hay@, needle@, k),
        decreases bound + 1 - i,
    {
        if match_at(hay, needle, i) {
            return true;
        }
        i += 1;
    }
    proof {
        assert(forall|k: int| !contains_at(hay@, needle@, k));
    }
    false
}

pub proof fn lemma_lines_of_nonempty(s: Seq<u8>)
    ensures
        lines_of(s).len() >= 1,
    decreases s.len(),
{
    if s.len() > 0 {
        lemma_lines_of_nonempty(s.drop_first());
    }
}

/// Appending one byte to the text appends to its last line, or opens a
/// fresh empty line when the byte is the line feed.
pub proof fn lemma_lines_of_push(s: Seq<u8>, b: u8)
    ensures
        b == 10 ==> lines_of(s.push(b)) == lines_of(s).push(Seq::<u8>::empty()),
        b != 10 ==> lines_of(s.push(b)) == lines_of(s).update(
            lines_of(s).len() - 1,
            lines_of(s).last().push(b),
        ),
    decreases s.len(),
{
    lemma_lines_of_nonempty(s);
    if s.len() == 0 {
        let p = s.push(b);
        assert(s =~= Seq::<u8>::empty());
        assert(lines_of(s) == seq![Seq::<u8>::empty()]);
        assert(p.len() == 1 && p[0] == b);
        assert(p.drop_first() =~= s);
        if b == 10 {
            assert(lines_of(p) == seq![Seq::<u8>::empty()] + lines_of(s));
            assert(lines_of(p) =~~= lines_of(s).push(Seq::<u8>::empty()));
        } else {
            let rest = lines_of(s);
            assert(lines_of(p) == seq![seq![b] + rest[0]] + rest.drop_first());
            assert(rest[0] =~= Seq::<u8>::empty());
            assert(rest.drop_first() =~= Seq::<Seq<u8>>::empty());
            assert(seq![b] + rest[0] =~= seq![b]);
            assert(lines_of(s).last().push(b) =~= seq![b]);
            assert(lines_of(p) =~~= lines_of(s).update(
                lines_of(s).len() - 1,
                lines_of(s).last().push(b),
            ));
        }
    } else {
        let t = s.drop_first();
        lemma_lines_of_nonempty(t);
        lemma_lines_of_push(t, b);
        assert(s.push(b).drop_first() =~= t.push(b));
        assert(s.push(b)[0] == s[0]);
        if s[0] == 10 {
            if b == 10 {
                assert(lines_of(s.push(b)) =~~= lines_of(s).push(Seq::<u8>::empty()));
            } else {
                assert(lines_of(s).last() == lines_of(t).last());
                assert(lines_of(s.push(b)) =~~= lines_of(s).update(
                    lines_of(s).len() - 1,
                    lines_of(s).last().push(b),
                ));
            }
        } else {
            let rest = lines_of(t);
            let restb = lines_of(t.push(b));
            if b == 10 {
                assert(restb[0] == rest[0]);
                assert(lines_of(s.push(b)) =~~= lines_of(s).push(Seq::<u8>::empty()));
            } else {
                if rest.len() == 1 {
                    assert(restb[0] == rest[0].push(b));
                    assert((seq![s[0]] + rest[0]).push(b) =~= seq![s[0]] + rest[0].push(b));
                    assert(lines_of(s).last() == seq![s[0]] + rest[0]);
                    assert(lines_of(s.push(b)) =~~= lines_of(s).update(
                        lines_of(s).len() - 1,
                        lines_of(s).last().push(b),
                    ));
                } else {
                    assert(restb[0] == rest[0]);
                    assert(lines_of(s).last() == rest.last());
                    assert(lines_of(s.push(b)) =~~= lines_of(s).update(
                        lines_of(s).len() - 1,
                        lines_of(s).last().push(b),
                    ));
                }
            }
        }
    }
}

/// Split `text` into its lines.
pub fn split_lines(text: &Vec<u8>) -> (r: Vec<Vec<u8>>)
    ensures
        r.deep_view() == lines_of(text@),
{
    let mut out: Vec<Vec<u8>> = Vec::new();
    let mut cur: Vec<u8> = Vec::new();
    let mut i: usize = 0;
    proof {
        assert(text@.take(0) =~= Seq::<u8>::empty());
        assert(out.deep_view().push(cur@) =~~= lines_of(text@.take(0)));
    }
    while i < text.len()
        invariant
            i <= text@.len(),
            out.deep_view().push(cur@) == lines_of(text@.take(i as int)),
        decreases text@.len() - i,
    {
        let ghost prev = lines_of(text@.take(i as int));
        proof {
            lemma_lines_of_push(text@.take(i as int), text@[i as int]);
            assert(text@.take(i + 1) =~= text@.take(i as int).push(text@[i as int]));
        }
        let b = text[i];
        if b == 10 {
            out.push(cur);
            cur = Vec::new();
            proof {
                assert(out.deep_view().push(cur@) =~~= prev.push(Seq::<u8>::empty()));
            }
        } else {
            let ghost oldcur = cur@;
            cur.push(b);
            proof {
                assert(prev.last() == oldcur);
                assert(out.deep_view().push(cur@) =~~= prev.update(
                    prev.len() - 1,
                    oldcur.push(b),
                ));
            }
        }
        i += 1;
    }
    proof {
        assert(text@.take(text@.len() as int) =~= text@);
    }
    let ghost pre = out.deep_view().push(cur@);
    out.push(cur);
    proof {
        assert(out.deep_view() =~~= pre);
    }
    out
}

/// The portion of `line` after its first colon, copied out.
fn first_colon_tail(line: &Vec<u8>) -> (r: Option<Vec<u8>>)
    ensures
        match r {
            Option::Some(v) => after_colon(line@) == Some(v@),
            Option::None => after_colon(line@) is None,
        },
{
    let mut i: usize = 0;
    proof {
        assert(line@.skip(0) =~= line@);
    }
    while i < line.len()
        invariant
            i <= line@.len(),
            after_colon(line@) == after_colon(line@.skip(i as int)),
        decreases line@.len() - i,
    {
        if line[i] == 58 {
            proof {
                assert(line@.skip(i as int)[0] == line@[i as int]);
                assert(line@.skip(i as int).drop_first() =~= line@.subrange(
                    i + 1,
                    line@.len() as int,
                ));
            }
            return Some(subrange_vec(line, i + 1, line.len()));
        }
        proof {
            assert(line@.skip(i as int)[0] == line@[i as int]);
            assert(line@.skip(i as int).drop_first() =~= line@.skip(i + 1));
        }
        i += 1;
    }
    proof {
        assert(line@.skip(i as int) =~= Seq::<u8>::empty());
    }
    None
}

/// Labeled field extraction on a line-oriented report, as
/// `extract_field_spec` describes it: the first line containing the
/// label, split at its first colon, the trailing portion trimmed.
pub fn extract_field(text: &Vec<u8>, label: &Vec<u8>) -> (r: Option<Vec<u8>>)
    ensures
        match r {
            Option::Some(v) => extract_field_spec(text@, label@) == Some(v@),
            Option::None => extract_field_spec(text@, label@) is None,
        },
{
    let lines = split_lines(text);
    let ghost all = lines.deep_view();
    let mut i: usize = 0;
    proof {
        assert(all.skip(0) =~~= all);
    }
    while i < lines.len()
        invariant
            i <= lines@.len(),
            all == lines.deep_view(),
            all == lines_of(text@),
            first_line_with(all, label@) == first_line_with(all.skip(i as int), label@),
        decreases lines@.len() - i,
    {
        proof {
            assert(all.skip(i as int)[0] == all[i as int]);
            assert(all[i as int] == lines@[i as int]@);
        }
        if contains_bytes(&lines[i], label) {
            proof {
                assert(first_line_with(all, label@) == Some(all[i as int]));
            }
            match first_colon_tail(&lines[i]) {
                Option::Some(tail) => {
                    let t = trim_bytes(&tail);
                    return Some(t);
                },
                Option::None => {
                    return None;
                },
            }
        }
        proof {
            assert(all.skip(i as int).drop_first() =~~= all.skip(i + 1));
        }
        i += 1;
    }
    proof {
        assert(all.skip(i as int) =~~= Seq::<Seq<u8>>::empty());
    }
    None
}

} // verus!
