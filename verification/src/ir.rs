//! The shape of LLVM IR text that matters for stubbing out function bodies:
//! lines, the header line of a function definition, and the line that closes
//! its body.

use crate::text::{lemma_line_end, line_end, matches_at, occurs_at};
use vstd::prelude::*;
use vstd::string::StringSliceAdditionalSpecFns;

verus! {

/// The length of the first line of `s` with its line feed, where it has one.
pub open spec fn line_len(s: Seq<u8>) -> int {
    let n = line_end(s);
    if 0 <= n < s.len() {
        n + 1
    } else {
        s.len() as int
    }
}

/// The word with which the header of a function definition starts.
pub const DEFINE: &'static str = "define";

/// The body that every function gets: the label `start:`, the instruction
/// `unreachable` and the closing brace, a line each.
pub const STUB: &'static str = "start:\n  unreachable\n}\n";

/// The bytes of the body that every function gets.
pub open spec fn stub() -> Seq<u8> {
    STUB.spec_bytes()
}

/// White space: space, tab, line feed, vertical tab, form feed, carriage
/// return.
pub open spec fn is_space(b: u8) -> bool {
    b == 32 || (9 <= b <= 13)
}

/// `line` is the header of a function definition: it starts with `define`
/// and ends with a line feed.
pub open spec fn is_header(line: Seq<u8>) -> bool {
    &&& occurs_at(line, DEFINE.spec_bytes(), 0)
    &&& line.len() > 0
    &&& line.last() == 10
}

/// `line` closes a function body: a closing brace in its first column and
/// nothing but white space after it.
pub open spec fn is_closing(line: Seq<u8>) -> bool {
    &&& line.len() >= 1
    &&& line[0] == 125
    &&& forall|i: int| 1 <= i < line.len() ==> is_space(#[trigger] line[i])
}

/// The length of `s` up to the end of its first closing line, or -1 where
/// no line of `s` closes a body.
pub open spec fn body_len(s: Seq<u8>) -> int
    decreases s.len(),
{
    if s.len() == 0 {
        -1
    } else {
        let l = line_len(s);
        if is_closing(s.subrange(0, l)) {
            l
        } else if !(0 < l <= s.len()) {
            -1
        } else {
            let r = body_len(s.subrange(l, s.len() as int));
            if r < 0 {
                -1
            } else {
                l + r
            }
        }
    }
}

/// `s` with the body of every function definition replaced by the stub. A
/// definition runs from a header line to the first closing line after it;
/// every line outside a definition stays as it is, the header too. From a
/// header that no line closes onwards the text is left as it is.
pub open spec fn neutralize(s: Seq<u8>) -> Seq<u8>
    decreases s.len(),
{
    if s.len() == 0 {
        Seq::empty()
    } else {
        let l = line_len(s);
        let line = s.subrange(0, l);
        let rest = s.subrange(l, s.len() as int);
        if !(0 < l <= s.len()) {
            s
        } else if is_header(line) {
            let b = body_len(rest);
            if 0 <= b <= rest.len() {
                line + stub() + neutralize(rest.subrange(b, rest.len() as int))
            } else {
                s
            }
        } else {
            line + neutralize(rest)
        }
    }
}

/// The first line of a text that is not empty is not empty and lies within
/// the text.
pub proof fn lemma_line_len_bounds(s: Seq<u8>)
    requires
        s.len() > 0,
    ensures
        0 < line_len(s) <= s.len(),
        0 <= line_end(s) <= s.len(),
    decreases s.len(),
{
    if s[0] == 10 {
    } else if s.len() == 1 {
        assert(line_end(s.drop_first()) == 0);
    } else {
        lemma_line_len_bounds(s.drop_first());
    }
}

/// The end of a body, where there is one, lies within the text and after
/// its start.
pub proof fn lemma_body_len_bounds(s: Seq<u8>)
    ensures
        body_len(s) == -1 || 0 < body_len(s) <= s.len(),
    decreases s.len(),
{
    if s.len() > 0 {
        lemma_line_len_bounds(s);
        let l = line_len(s);
        if !is_closing(s.subrange(0, l)) {
            lemma_body_len_bounds(s.subrange(l, s.len() as int));
        }
    }
}

/// Finds the end of the line that starts at `pos`: the offset after its line
/// feed, or the end of the text.
pub(crate) fn line_stop(content: &[u8], pos: usize) -> (end: usize)
    requires
        pos < content.len(),
    ensures
        pos < end <= content.len(),
        end == pos + line_len(content@.subrange(pos as int, content.len() as int)),
{
    let ghost rest = content@.subrange(pos as int, content.len() as int);
    let mut end: usize = pos;
    while end < content.len() && content[end] != 10
        invariant
            pos <= end <= content.len(),
            forall|j: int| pos <= j < end ==> content[j] != 10,
        decreases content.len() - end,
    {
        end += 1;
    }
    proof {
        assert forall|j: int| 0 <= j < end - pos implies rest[j] != 10 by {
            assert(rest[j] == content[pos + j]);
        }
        if end < content.len() {
            assert(rest[end - pos] == content[end as int]);
        }
        lemma_line_end(rest, end - pos);
    }
    if end < content.len() {
        end + 1
    } else {
        end
    }
}

/// Tells whether the line `content[pos..end]` is the header of a function
/// definition.
pub(crate) fn is_header_at(content: &[u8], pos: usize, end: usize) -> (header: bool)
    requires
        pos <= end <= content.len(),
    ensures
        header == is_header(content@.subrange(pos as int, end as int)),
{
    let ghost line = content@.subrange(pos as int, end as int);
    let word = DEFINE.as_bytes();
    if end == pos || end - pos < word.len() || content[end - 1] != 10 {
        proof {
            if end > pos {
                assert(line.last() == content[end - 1]);
            }
        }
        return false;
    }
    proof {
        assert(line.last() == content[end - 1]);
        assert(line.subrange(0, word.len() as int) =~= content@.subrange(
            pos as int,
            pos + word.len(),
        ));
    }
    matches_at(content, word, pos)
}

/// Tells whether the line `content[pos..end]` closes a function body.
pub(crate) fn is_closing_at(content: &[u8], pos: usize, end: usize) -> (closing: bool)
    requires
        pos <= end <= content.len(),
    ensures
        closing == is_closing(content@.subrange(pos as int, end as int)),
{
    let ghost line = content@.subrange(pos as int, end as int);
    if end == pos || content[pos] != 125 {
        proof {
            if end > pos {
                assert(line[0] == content[pos as int]);
            }
        }
        return false;
    }
    proof {
        assert(line[0] == content[pos as int]);
    }
    let mut k: usize = pos + 1;
    while k < end
        invariant
            pos < k <= end <= content.len(),
            line == content@.subrange(pos as int, end as int),
            forall|i: int| 1 <= i < k - pos ==> is_space(#[trigger] line[i]),
        decreases end - k,
    {
        let b: u8 = content[k];
        if !(b == 32 || (9 <= b && b <= 13)) {
            proof {
                assert(line[k - pos] == b);
            }
            return false;
        }
        proof {
            assert(line[k - pos] == b);
        }
        k += 1;
    }
    true
}

/// Finds the end of the first closing line at or after `from`, which starts a
/// line.
pub(crate) fn find_body_end(content: &[u8], from: usize) -> (end: Option<usize>)
    requires
        from <= content.len(),
    ensures
        match end {
            Some(e) => from < e <= content.len() && e == from + body_len(
                content@.subrange(from as int, content.len() as int),
            ),
            None => body_len(content@.subrange(from as int, content.len() as int)) == -1,
        },
{
    let ghost whole = content@.subrange(from as int, content.len() as int);
    let mut pos: usize = from;
    while pos < content.len()
        invariant
            from <= pos <= content.len(),
            whole == content@.subrange(from as int, content.len() as int),
            body_len(content@.subrange(pos as int, content.len() as int)) == -1 ==> body_len(whole)
                == -1,
            body_len(content@.subrange(pos as int, content.len() as int)) >= 0 ==> body_len(whole)
                == pos - from + body_len(content@.subrange(pos as int, content.len() as int)),
        decreases content.len() - pos,
    {
        let ghost rest = content@.subrange(pos as int, content.len() as int);
        let stop = line_stop(content, pos);
        proof {
            assert(rest.subrange(0, stop - pos) =~= content@.subrange(pos as int, stop as int));
            assert(rest.subrange(stop - pos, rest.len() as int) =~= content@.subrange(
                stop as int,
                content.len() as int,
            ));
            lemma_body_len_bounds(content@.subrange(stop as int, content.len() as int));
        }
        if is_closing_at(content, pos, stop) {
            return Some(stop);
        }
        pos = stop;
    }
    proof {
        assert(content@.subrange(pos as int, content.len() as int).len() == 0);
    }
    None
}

/// One part of a well-formed IR text: a line outside any function
/// definition, or a function definition with its header line, the lines of
/// its body and the line that closes it.
pub enum Item {
    Line(Seq<u8>),
    Function { header: Seq<u8>, body: Seq<Seq<u8>>, closing: Seq<u8> },
}

/// `l` is one whole line: it ends with the only line feed that it holds.
pub open spec fn is_line(l: Seq<u8>) -> bool {
    &&& l.len() > 0
    &&& l.last() == 10
    &&& forall|i: int| 0 <= i < l.len() - 1 ==> l[i] != 10
}

/// The lines of `lines` one after the other.
pub open spec fn concat_lines(lines: Seq<Seq<u8>>) -> Seq<u8>
    decreases lines.len(),
{
    if lines.len() == 0 {
        Seq::empty()
    } else {
        lines[0] + concat_lines(lines.drop_first())
    }
}

impl Item {
    /// The parts are whole lines of the kind that their place asks for: a
    /// line outside a definition is no header, a header is one, no line of a
    /// body closes it and the closing line does.
    pub open spec fn well_formed(self) -> bool {
        match self {
            Item::Line(l) => is_line(l) && !is_header(l),
            Item::Function { header, body, closing } => {
                &&& is_line(header)
                &&& is_header(header)
                &&& forall|i: int|
                    0 <= i < body.len() ==> is_line(#[trigger] body[i]) && !is_closing(body[i])
                &&& is_line(closing)
                &&& is_closing(closing)
            },
        }
    }

    /// The text of the part.
    pub open spec fn text(self) -> Seq<u8> {
        match self {
            Item::Line(l) => l,
            Item::Function { header, body, closing } => header + concat_lines(body) + closing,
        }
    }

    /// The text of the part with a function body replaced by the stub.
    pub open spec fn stubbed(self) -> Seq<u8> {
        match self {
            Item::Line(l) => l,
            Item::Function { header, .. } => header + stub(),
        }
    }
}

/// All parts of `items` are well formed.
pub open spec fn well_formed(items: Seq<Item>) -> bool {
    forall|i: int| 0 <= i < items.len() ==> (#[trigger] items[i]).well_formed()
}

/// The text that `items` make up.
pub open spec fn render(items: Seq<Item>) -> Seq<u8>
    decreases items.len(),
{
    if items.len() == 0 {
        Seq::empty()
    } else {
        items[0].text() + render(items.drop_first())
    }
}

/// The text that `items` make up once every function body is the stub: each
/// line outside a definition and each header as it was, in the same order,
/// and the stub after each header.
pub open spec fn render_stubbed(items: Seq<Item>) -> Seq<u8>
    decreases items.len(),
{
    if items.len() == 0 {
        Seq::empty()
    } else {
        items[0].stubbed() + render_stubbed(items.drop_first())
    }
}

/// A text that starts with a whole line has that line as its first line.
pub proof fn lemma_first_line(l: Seq<u8>, rest: Seq<u8>)
    requires
        is_line(l),
    ensures
        line_len(l + rest) == l.len(),
        (l + rest).subrange(0, l.len() as int) == l,
        (l + rest).subrange(l.len() as int, (l + rest).len() as int) == rest,
{
    let s = l + rest;
    assert forall|j: int| 0 <= j < l.len() - 1 implies s[j] != 10 by {
        assert(s[j] == l[j]);
    }
    assert(s[l.len() - 1] == l.last());
    lemma_line_end(s, l.len() - 1);
    assert(s.subrange(0, l.len() as int) =~= l);
    assert(s.subrange(l.len() as int, s.len() as int) =~= rest);
}

/// The body that starts a text ends with its closing line.
pub proof fn lemma_body_len(body: Seq<Seq<u8>>, closing: Seq<u8>, rest: Seq<u8>)
    requires
        forall|i: int| 0 <= i < body.len() ==> is_line(#[trigger] body[i]) && !is_closing(body[i]),
        is_line(closing),
        is_closing(closing),
    ensures
        body_len(concat_lines(body) + closing + rest) == concat_lines(body).len() + closing.len(),
    decreases body.len(),
{
    let s = concat_lines(body) + closing + rest;
    if body.len() == 0 {
        assert(s =~= closing + rest);
        lemma_first_line(closing, rest);
    } else {
        let tail = concat_lines(body.drop_first()) + closing + rest;
        assert(s =~= body[0] + tail);
        lemma_first_line(body[0], tail);
        assert forall|i: int| 0 <= i < body.drop_first().len() implies is_line(
            #[trigger] body.drop_first()[i],
        ) && !is_closing(body.drop_first()[i]) by {
            assert(body.drop_first()[i] == body[i + 1]);
        }
        lemma_body_len(body.drop_first(), closing, rest);
    }
}

/// Stubbing out a well-formed text keeps every line outside a definition
/// and every header, in their order, and puts the stub in the place of every
/// body: of a text with so many function definitions it leaves as many
/// headers, each followed by the stub. What follows the last line feed of
/// the text, `tail`, stays as it is.
pub proof fn lemma_neutralize_well_formed(items: Seq<Item>, tail: Seq<u8>)
    requires
        well_formed(items),
        forall|i: int| 0 <= i < tail.len() ==> tail[i] != 10,
    ensures
        neutralize(render(items) + tail) == render_stubbed(items) + tail,
    decreases items.len(),
{
    if items.len() == 0 {
        assert(render(items) + tail =~= tail);
        assert(render_stubbed(items) + tail =~= tail);
        if tail.len() > 0 {
            lemma_line_end(tail, tail.len() as int);
            assert(tail.subrange(0, tail.len() as int) =~= tail);
            assert(tail.subrange(tail.len() as int, tail.len() as int) =~= Seq::<u8>::empty());
            assert(tail + neutralize(Seq::<u8>::empty()) =~= tail);
        }
    } else {
        let rest = items.drop_first();
        assert forall|i: int| 0 <= i < rest.len() implies (#[trigger] rest[i]).well_formed() by {
            assert(rest[i] == items[i + 1]);
        }
        lemma_neutralize_well_formed(rest, tail);
        let after = render(rest) + tail;
        let s = render(items) + tail;
        assert(items[0].well_formed());
        match items[0] {
            Item::Line(l) => {
                assert(s =~= l + after);
                lemma_first_line(l, after);
                assert(l + (render_stubbed(rest) + tail) =~= render_stubbed(items) + tail);
            },
            Item::Function { header, body, closing } => {
                let inner = concat_lines(body) + closing + after;
                assert(s =~= header + inner);
                lemma_first_line(header, inner);
                lemma_body_len(body, closing, after);
                let b: int = (concat_lines(body).len() + closing.len()) as int;
                assert(inner.subrange(b, inner.len() as int) =~= after);
                assert(header + stub() + (render_stubbed(rest) + tail) =~= render_stubbed(items)
                    + tail);
            },
        }
    }
}

/// Some line of `s` is the header of a function definition.
pub open spec fn has_header(s: Seq<u8>) -> bool
    decreases s.len(),
{
    if s.len() == 0 {
        false
    } else {
        let l = line_len(s);
        if !(0 < l <= s.len()) {
            false
        } else {
            is_header(s.subrange(0, l)) || has_header(s.subrange(l, s.len() as int))
        }
    }
}

/// A text without function definitions stays as it is.
pub proof fn lemma_neutralize_without_headers(s: Seq<u8>)
    requires
        !has_header(s),
    ensures
        neutralize(s) == s,
    decreases s.len(),
{
    if s.len() > 0 {
        lemma_line_len_bounds(s);
        let l = line_len(s);
        let rest = s.subrange(l, s.len() as int);
        lemma_neutralize_without_headers(rest);
        assert(s.subrange(0, l) + rest =~= s);
    } else {
        assert(s =~= Seq::<u8>::empty());
    }
}

} // verus!
