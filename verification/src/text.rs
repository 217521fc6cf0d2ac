//! Searching, rewriting and splitting byte strings.

use vstd::prelude::*;

verus! {

/// `needle` stands in `hay` at offset `i`.
pub open spec fn occurs_at(hay: Seq<u8>, needle: Seq<u8>, i: int) -> bool {
    &&& 0 <= i
    &&& i + needle.len() <= hay.len()
    &&& hay.subrange(i, i + needle.len()) == needle
}

/// `needle` stands somewhere in `hay`.
pub open spec fn contains_seq(hay: Seq<u8>, needle: Seq<u8>) -> bool {
    exists|i: int| occurs_at(hay, needle, i)
}

/// No occurrence of `needle` in `hay` starts at an offset in `lo..hi`.
pub open spec fn absent_between(hay: Seq<u8>, needle: Seq<u8>, lo: int, hi: int) -> bool {
    forall|j: int| lo <= j < hi ==> !occurs_at(hay, needle, j)
}

/// Tells whether `needle` stands in `hay` at offset `i`.
pub fn matches_at(hay: &[u8], needle: &[u8], i: usize) -> (found: bool)
    ensures
        found == occurs_at(hay@, needle@, i as int),
{
    if i > hay.len() || needle.len() > hay.len() - i {
        return false;
    }
    let mut k: usize = 0;
    while k < needle.len()
        invariant
            i + needle.len() <= hay.len(),
            k <= needle.len(),
            forall|j: int| 0 <= j < k ==> hay[i + j] == needle[j],
        decreases needle.len() - k,
    {
        if hay[i + k] != needle[k] {
            proof {
                let window = hay@.subrange(i as int, i + needle.len());
                assert(window[k as int] == hay[i + k]);
            }
            return false;
        }
        k += 1;
    }
    proof {
        assert(hay@.subrange(i as int, i + needle.len()) =~= needle@);
    }
    true
}

/// Finds the first offset at or after `from` at which `needle` stands in `hay`.
pub fn find_from(hay: &[u8], needle: &[u8], from: usize) -> (found: Option<usize>)
    ensures
        match found {
            Some(i) => from <= i && occurs_at(hay@, needle@, i as int) && absent_between(
                hay@,
                needle@,
                from as int,
                i as int,
            ),
            None => forall|j: int| from <= j ==> !occurs_at(hay@, needle@, j),
        },
{
    if needle.len() > hay.len() || from > hay.len() - needle.len() {
        return None;
    }
    let last: usize = hay.len() - needle.len();
    let mut i: usize = from;
    loop
        invariant
            last == hay.len() - needle.len(),
            from <= i <= last,
            absent_between(hay@, needle@, from as int, i as int),
        decreases last - i,
    {
        if matches_at(hay, needle, i) {
            return Some(i);
        }
        if i == last {
            return None;
        }
        i += 1;
    }
}

/// Tells whether `needle` stands somewhere in `hay`.
pub fn contains(hay: &[u8], needle: &[u8]) -> (found: bool)
    ensures
        found == contains_seq(hay@, needle@),
{
    find_from(hay, needle, 0).is_some()
}

/// Appends the bytes `src[from..to]` to `out`.
pub(crate) fn push_range(out: &mut Vec<u8>, src: &[u8], from: usize, to: usize)
    requires
        from <= to <= src.len(),
    ensures
        final(out)@ == old(out)@ + src@.subrange(from as int, to as int),
{
    let mut k: usize = from;
    while k < to
        invariant
            from <= k <= to <= src.len(),
            out@ == old(out)@ + src@.subrange(from as int, k as int),
        decreases to - k,
    {
        out.push(src[k]);
        k += 1;
        proof {
            assert(src@.subrange(from as int, k as int) =~= src@.subrange(from as int, k - 1).push(
                src[k - 1],
            ));
        }
    }
}

/// What an empty pattern leaves of `s`: `rep` after every byte that ends a
/// character, that is every byte not followed by a continuation byte.
pub open spec fn interleave_seq(s: Seq<u8>, rep: Seq<u8>) -> Seq<u8>
    decreases s.len(),
{
    if s.len() == 0 {
        Seq::empty()
    } else if s.len() == 1 || !vstd::utf8::is_continuation_byte(s[1]) {
        seq![s[0]] + rep + interleave_seq(s.drop_first(), rep)
    } else {
        seq![s[0]] + interleave_seq(s.drop_first(), rep)
    }
}

/// `s` with every occurrence of `pat` replaced by `rep`, the occurrences taken
/// from the left and not overlapping. An empty pattern occurs before the first
/// byte and after every character of UTF-8 text.
pub open spec fn replace_seq(s: Seq<u8>, pat: Seq<u8>, rep: Seq<u8>) -> Seq<u8>
    decreases s.len(),
{
    if pat.len() == 0 {
        rep + interleave_seq(s, rep)
    } else if s.len() < pat.len() {
        s
    } else if s.subrange(0, pat.len() as int) == pat {
        rep + replace_seq(s.subrange(pat.len() as int, s.len() as int), pat, rep)
    } else {
        seq![s[0]] + replace_seq(s.drop_first(), pat, rep)
    }
}

fn interleave(out: &mut Vec<u8>, s: &[u8], rep: &[u8])
    ensures
        final(out)@ == old(out)@ + interleave_seq(s@, rep@),
{
    let mut pos: usize = 0;
    proof {
        assert(s@.subrange(0, s.len() as int) =~= s@);
    }
    while pos < s.len()
        invariant
            pos <= s.len(),
            old(out)@ + interleave_seq(s@, rep@) == out@ + interleave_seq(
                s@.subrange(pos as int, s.len() as int),
                rep@,
            ),
        decreases s.len() - pos,
    {
        let ghost rest = s@.subrange(pos as int, s.len() as int);
        proof {
            assert(rest.drop_first() =~= s@.subrange(pos + 1, s.len() as int));
            assert(rest[0] == s[pos as int]);
            if rest.len() > 1 {
                assert(rest[1] == s[pos + 1]);
            }
        }
        let ghost before = out@;
        out.push(s[pos]);
        let ends_char: bool = pos + 1 == s.len() || !(0x80 <= s[pos + 1] && s[pos + 1] <= 0xbf);
        if ends_char {
            push_range(out, rep, 0, rep.len());
            proof {
                assert(rep@.subrange(0, rep.len() as int) =~= rep@);
                assert(out@ + interleave_seq(rest.drop_first(), rep@) =~= before + (seq![rest[0]]
                    + rep@ + interleave_seq(rest.drop_first(), rep@)));
            }
        } else {
            proof {
                assert(out@ + interleave_seq(rest.drop_first(), rep@) =~= before + (seq![rest[0]]
                    + interleave_seq(rest.drop_first(), rep@)));
            }
        }
        pos += 1;
    }
    proof {
        assert(s@.subrange(pos as int, s.len() as int) =~= Seq::<u8>::empty());
        assert(out@ + Seq::<u8>::empty() =~= out@);
    }
}

/// Replaces every occurrence of `pat` in `s` by `rep`.
pub fn replace_all(s: &[u8], pat: &[u8], rep: &[u8]) -> (out: Vec<u8>)
    ensures
        out@ == replace_seq(s@, pat@, rep@),
{
    let mut out: Vec<u8> = Vec::new();
    if pat.len() == 0 {
        push_range(&mut out, rep, 0, rep.len());
        proof {
            assert(rep@.subrange(0, rep.len() as int) =~= rep@);
        }
        interleave(&mut out, s, rep);
        return out;
    }
    let mut pos: usize = 0;
    proof {
        assert(s@.subrange(0, s.len() as int) =~= s@);
        assert(out@ + replace_seq(s@, pat@, rep@) =~= replace_seq(s@, pat@, rep@));
    }
    while pos < s.len() && s.len() - pos >= pat.len()
        invariant
            pat.len() > 0,
            pos <= s.len(),
            replace_seq(s@, pat@, rep@) == out@ + replace_seq(
                s@.subrange(pos as int, s.len() as int),
                pat@,
                rep@,
            ),
        decreases s.len() - pos,
    {
        let ghost rest = s@.subrange(pos as int, s.len() as int);
        let ghost before = out@;
        proof {
            assert(rest.subrange(0, pat.len() as int) =~= s@.subrange(
                pos as int,
                pos + pat.len(),
            ));
        }
        if matches_at(s, pat, pos) {
            push_range(&mut out, rep, 0, rep.len());
            proof {
                assert(rep@.subrange(0, rep.len() as int) =~= rep@);
                let after = rest.subrange(pat.len() as int, rest.len() as int);
                assert(after =~= s@.subrange(pos + pat.len(), s.len() as int));
                assert(out@ + replace_seq(after, pat@, rep@) =~= before + (rep@ + replace_seq(
                    after,
                    pat@,
                    rep@,
                )));
            }
            pos += pat.len();
        } else {
            out.push(s[pos]);
            proof {
                assert(rest.drop_first() =~= s@.subrange(pos + 1, s.len() as int));
                assert(rest[0] == s[pos as int]);
                assert(out@ + replace_seq(rest.drop_first(), pat@, rep@) =~= before + (seq![
                    rest[0],
                ] + replace_seq(rest.drop_first(), pat@, rep@)));
            }
            pos += 1;
        }
    }
    let ghost before = out@;
    push_range(&mut out, s, pos, s.len());
    proof {
        let rest = s@.subrange(pos as int, s.len() as int);
        assert(rest.len() < pat.len());
        assert(replace_seq(rest, pat@, rep@) == rest);
    }
    out
}

/// The byte strings that a list of byte vectors holds.
pub open spec fn rows(v: Seq<Vec<u8>>) -> Seq<Seq<u8>> {
    Seq::new(v.len(), |i: int| v[i]@)
}

/// The length of the first line of `s`: the offset of its first line feed,
/// or the length of `s` where it holds none.
pub open spec fn line_end(s: Seq<u8>) -> int
    decreases s.len(),
{
    if s.len() == 0 || s[0] == 10 {
        0
    } else {
        1 + line_end(s.drop_first())
    }
}

/// A line without the carriage return that stood before its line feed.
pub open spec fn strip_cr(line: Seq<u8>) -> Seq<u8> {
    if line.len() > 0 && line.last() == 13 {
        line.drop_last()
    } else {
        line
    }
}

/// The lines of `s`. A line ends with a line feed, or with a carriage
/// return and a line feed, neither of which belongs to it; what follows the
/// last line feed is a line too unless it is empty, and keeps a carriage
/// return at its end.
pub open spec fn lines_of(s: Seq<u8>) -> Seq<Seq<u8>>
    decreases s.len(),
{
    let n = line_end(s);
    if s.len() == 0 {
        Seq::empty()
    } else if !(0 <= n < s.len()) {
        seq![s]
    } else {
        seq![strip_cr(s.subrange(0, n))] + lines_of(s.subrange(n + 1, s.len() as int))
    }
}

/// The text made of `lines`, a line feed after each.
pub open spec fn join_lines(lines: Seq<Seq<u8>>) -> Seq<u8>
    decreases lines.len(),
{
    if lines.len() == 0 {
        Seq::empty()
    } else {
        lines[0] + seq![10u8] + join_lines(lines.drop_first())
    }
}

/// `line_end` is the one offset before which no line feed stands and at
/// which the text ends or a line feed stands.
pub proof fn lemma_line_end(s: Seq<u8>, n: int)
    requires
        0 <= n <= s.len(),
        forall|j: int| 0 <= j < n ==> s[j] != 10,
        n == s.len() || s[n] == 10,
    ensures
        line_end(s) == n,
    decreases s.len(),
{
    if s.len() == 0 || s[0] == 10 {
    } else {
        let rest = s.drop_first();
        assert forall|j: int| 0 <= j < n - 1 implies rest[j] != 10 by {
            assert(rest[j] == s[j + 1]);
        }
        lemma_line_end(rest, n - 1);
    }
}

/// Splits `content` into its lines.
pub fn split_lines(content: &[u8]) -> (lines: Vec<Vec<u8>>)
    ensures
        rows(lines@) == lines_of(content@),
{
    let mut lines: Vec<Vec<u8>> = Vec::new();
    let mut pos: usize = 0;
    proof {
        assert(content@.subrange(0, content.len() as int) =~= content@);
        assert(rows(lines@) =~= Seq::<Seq<u8>>::empty());
        assert(rows(lines@) + lines_of(content@) =~= lines_of(content@));
    }
    while pos < content.len()
        invariant
            pos <= content.len(),
            lines_of(content@) == rows(lines@) + lines_of(
                content@.subrange(pos as int, content.len() as int),
            ),
        decreases content.len() - pos,
    {
        let ghost rest = content@.subrange(pos as int, content.len() as int);
        let ghost before = rows(lines@);
        let mut end: usize = pos;
        while end < content.len() && content[end] != 10
            invariant
                pos <= end <= content.len(),
                forall|j: int| pos <= j < end ==> content[j] != 10,
            decreases content.len() - end,
        {
            end += 1;
        }
        proof {
            assert forall|j: int| 0 <= j < end - pos implies rest[j] != 10 by {
                assert(rest[j] == content[pos + j]);
            }
            lemma_line_end(rest, end - pos);
        }
        let mut line: Vec<u8> = Vec::new();
        if end == content.len() {
            push_range(&mut line, content, pos, end);
            lines.push(line);
            proof {
                assert(line@ =~= rest);
                assert(lines_of(rest) =~= seq![rest]);
                assert(rows(lines@) =~= before + seq![rest]);
                assert(content@.subrange(end as int, content.len() as int) =~= Seq::<u8>::empty());
                assert(rows(lines@) + lines_of(Seq::<u8>::empty()) =~= rows(lines@));
            }
            pos = end;
        } else {
            let stop: usize = if end > pos && content[end - 1] == 13 {
                end - 1
            } else {
                end
            };
            push_range(&mut line, content, pos, stop);
            lines.push(line);
            proof {
                let raw = rest.subrange(0, end - pos);
                assert(raw =~= content@.subrange(pos as int, end as int));
                if raw.len() > 0 {
                    assert(raw.last() == content[end - 1]);
                }
                assert(line@ =~= strip_cr(raw));
                let after = rest.subrange(end - pos + 1, rest.len() as int);
                assert(after =~= content@.subrange(end + 1, content.len() as int));
                assert(rows(lines@) =~= before + seq![strip_cr(raw)]);
                assert(rows(lines@) + lines_of(after) =~= before + (seq![strip_cr(raw)]
                    + lines_of(after)));
            }
            pos = end + 1;
        }
    }
    proof {
        assert(content@.subrange(pos as int, content.len() as int) =~= Seq::<u8>::empty());
        assert(rows(lines@) + lines_of(Seq::<u8>::empty()) =~= rows(lines@));
    }
    lines
}

/// Writes `lines` out as one text, a line feed after each.
pub fn join(lines: &Vec<Vec<u8>>) -> (out: Vec<u8>)
    ensures
        out@ == join_lines(rows(lines@)),
{
    let mut out: Vec<u8> = Vec::new();
    let mut i: usize = 0;
    let ghost all = rows(lines@);
    proof {
        assert(all.subrange(0, all.len() as int) =~= all);
        assert(out@ + join_lines(all) =~= join_lines(all));
    }
    while i < lines.len()
        invariant
            i <= lines.len(),
            all == rows(lines@),
            all.len() == lines.len(),
            join_lines(all) == out@ + join_lines(all.subrange(i as int, all.len() as int)),
        decreases lines.len() - i,
    {
        let ghost rest = all.subrange(i as int, all.len() as int);
        let ghost before = out@;
        push_range(&mut out, lines[i].as_slice(), 0, lines[i].len());
        out.push(10);
        proof {
            assert(lines[i as int]@.subrange(0, lines[i as int].len() as int) =~= lines[i as int]@);
            assert(rest[0] == lines[i as int]@);
            assert(rest.drop_first() =~= all.subrange(i + 1, all.len() as int));
            assert(out@ + join_lines(rest.drop_first()) =~= before + (rest[0] + seq![10u8]
                + join_lines(rest.drop_first())));
        }
        i += 1;
    }
    proof {
        assert(all.subrange(i as int, all.len() as int) =~= Seq::<Seq<u8>>::empty());
        assert(out@ + Seq::<u8>::empty() =~= out@);
    }
    out
}

/// A copy of `bytes`.
pub fn copy_bytes(bytes: &[u8]) -> (copy: Vec<u8>)
    ensures
        copy@ == bytes@,
{
    let mut copy: Vec<u8> = Vec::new();
    push_range(&mut copy, bytes, 0, bytes.len());
    proof {
        assert(bytes@.subrange(0, bytes.len() as int) =~= bytes@);
    }
    copy
}

} // verus!
