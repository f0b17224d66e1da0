use vstd::prelude::*;
use vstd::string::*;
use crate::text::{trim, trimmed, strip_prefix, str_eq};

verus! {

/// The byte that ends a line.
pub const NEWLINE: u8 = 10;

/// Whether `s` holds no line end.
pub open spec fn no_newline(s: Seq<u8>) -> bool {
    forall|i: int| 0 <= i < s.len() ==> s[i] != NEWLINE
}

/// Whether `line` is one complete line: it ends with a line end and holds no
/// other.
pub open spec fn is_complete_line(line: Seq<u8>) -> bool {
    &&& line.len() > 0
    &&& line.last() == NEWLINE
    &&& no_newline(line.drop_last())
}

/// All of `lines`, one after another.
pub open spec fn concat_lines(lines: Seq<Seq<u8>>) -> Seq<u8>
    decreases lines.len(),
{
    if lines.len() == 0 {
        Seq::empty()
    } else {
        concat_lines(lines.drop_last()) + lines.last()
    }
}

/// The byte views of `lines`.
pub open spec fn line_views(lines: Seq<Vec<u8>>) -> Seq<Seq<u8>> {
    lines.map_values(|l: Vec<u8>| l@)
}

proof fn lemma_concat_ends_with_newline(lines: Seq<Seq<u8>>)
    requires
        forall|i: int| 0 <= i < lines.len() ==> is_complete_line(#[trigger] lines[i]),
    ensures
        concat_lines(lines).len() > 0 ==> concat_lines(lines).last() == NEWLINE,
        lines.len() > 0 ==> concat_lines(lines).len() > 0,
{
    if lines.len() > 0 {
        assert(is_complete_line(lines[lines.len() - 1]));
    }
}

/// How a stream splits into complete lines and an unfinished tail does not
/// depend on how it was received: two such splits of the same bytes are the
/// same split.
pub proof fn lemma_line_split_unique(a1: Seq<Seq<u8>>, r1: Seq<u8>, a2: Seq<Seq<u8>>, r2: Seq<u8>)
    requires
        forall|i: int| 0 <= i < a1.len() ==> is_complete_line(#[trigger] a1[i]),
        forall|i: int| 0 <= i < a2.len() ==> is_complete_line(#[trigger] a2[i]),
        no_newline(r1),
        no_newline(r2),
        concat_lines(a1) + r1 == concat_lines(a2) + r2,
    ensures
        a1 == a2,
        r1 == r2,
    decreases a1.len(),
{
    let c1 = concat_lines(a1);
    let c2 = concat_lines(a2);
    let t = c1 + r1;
    lemma_concat_ends_with_newline(a1);
    lemma_concat_ends_with_newline(a2);
    let u = c2 + r2;
    assert(t =~= u);
    assert(t.len() == c1.len() + r1.len());
    assert(u.len() == c2.len() + r2.len());
    if c1.len() < c2.len() {
        let k = c2.len() - 1;
        assert(k - c1.len() < r1.len());
        assert(u[k] == c2[k]);
        assert(c2[k] == NEWLINE);
        assert(t[k] == r1[k - c1.len()]);
        assert(r1[k - c1.len()] != NEWLINE);
    }
    if c2.len() < c1.len() {
        let k = c1.len() - 1;
        assert(k - c2.len() < r2.len());
        assert(t[k] == c1[k]);
        assert(c1[k] == NEWLINE);
        assert(u[k] == r2[k - c2.len()]);
        assert(r2[k - c2.len()] != NEWLINE);
    }
    assert(c1 =~= t.take(c1.len() as int));
    assert(c2 =~= (c2 + r2).take(c2.len() as int));
    assert(r1 =~= t.skip(c1.len() as int));
    assert(r2 =~= (c2 + r2).skip(c2.len() as int));
    if a1.len() == 0 || a2.len() == 0 {
        assert(a1.len() == 0 && a2.len() == 0);
        assert(a1 =~= a2);
    } else {
        let l1 = a1.last();
        let l2 = a2.last();
        let p1 = a1.drop_last();
        let p2 = a2.drop_last();
        assert(is_complete_line(a1[a1.len() - 1]));
        assert(is_complete_line(a2[a2.len() - 1]));
        assert forall|i: int| 0 <= i < p1.len() implies is_complete_line(#[trigger] p1[i]) by {
            assert(p1[i] == a1[i]);
        }
        assert forall|i: int| 0 <= i < p2.len() implies is_complete_line(#[trigger] p2[i]) by {
            assert(p2[i] == a2[i]);
        }
        assert(c1 == concat_lines(p1) + l1);
        assert(c2 == concat_lines(p2) + l2);
        assert(c1.drop_last() =~= concat_lines(p1) + l1.drop_last());
        assert(c2.drop_last() =~= concat_lines(p2) + l2.drop_last());
        lemma_line_split_unique(p1, l1.drop_last(), p2, l2.drop_last());
        assert(l1 =~= l1.drop_last().push(NEWLINE));
        assert(l2 =~= l2.drop_last().push(NEWLINE));
        assert(a1 =~= p1.push(l1));
        assert(a2 =~= p2.push(l2));
    }
}

/// Bytes of a streamed response that wait for their line to be completed.
pub struct LineBuffer {
    buf: Vec<u8>,
}

impl View for LineBuffer {
    type V = Seq<u8>;

    closed spec fn view(&self) -> Seq<u8> {
        self.buf@
    }
}

impl LineBuffer {
    /// A buffer holding nothing.
    pub fn new() -> (r: Self)
        ensures
            r@ == Seq::<u8>::empty(),
    {
        LineBuffer { buf: Vec::new() }
    }

    /// Adds a chunk of the stream after what is held.
    pub fn extend(&mut self, chunk: &[u8])
        ensures
            final(self)@ == old(self)@ + chunk@,
    {
        let mut i: usize = 0;
        while i < chunk.len()
            invariant
                i <= chunk@.len(),
                self@ == old(self)@ + chunk@.take(i as int),
            decreases chunk@.len() - i,
        {
            self.buf.push(chunk[i]);
            i += 1;
            assert(chunk@.take(i as int) =~= chunk@.take(i - 1).push(chunk@[i - 1]));
        }
        assert(chunk@.take(chunk@.len() as int) =~= chunk@);
    }

    /// Takes the first complete line, its line end included, off the front
    /// of the buffer; `None`, and the buffer unchanged, where no line is
    /// complete yet.
    pub fn next_line(&mut self) -> (r: Option<Vec<u8>>)
        ensures
            match r {
                Some(line) => is_complete_line(line@) && line@ + final(self)@ == old(self)@,
                None => no_newline(old(self)@) && final(self)@ == old(self)@,
            },
    {
        let mut p: usize = 0;
        while p < self.buf.len() && self.buf[p] != NEWLINE
            invariant
                p <= self.buf@.len(),
                self@ == old(self)@,
                no_newline(self.buf@.take(p as int)),
            decreases self.buf@.len() - p,
        {
            assert(self.buf@.take(p + 1) =~= self.buf@.take(p as int).push(self.buf@[p as int]));
            p += 1;
        }
        if p == self.buf.len() {
            assert(self.buf@.take(p as int) =~= self.buf@);
            return None;
        }
        let rest = self.buf.split_off(p + 1);
        let mut line = rest;
        std::mem::swap(&mut line, &mut self.buf);
        assert(line@.drop_last() =~= old(self)@.take(p as int));
        assert(line@ + self.buf@ =~= old(self)@);
        Some(line)
    }

    /// Takes every complete line off the front of the buffer, in order,
    /// leaving only the unfinished tail.
    pub fn drain_lines(&mut self) -> (r: Vec<Vec<u8>>)
        ensures
            concat_lines(line_views(r@)) + final(self)@ == old(self)@,
            forall|i: int| 0 <= i < r@.len() ==> is_complete_line(#[trigger] r@[i]@),
            no_newline(final(self)@),
    {
        let mut lines: Vec<Vec<u8>> = Vec::new();
        loop
            invariant
                concat_lines(line_views(lines@)) + self@ == old(self)@,
                forall|i: int| 0 <= i < lines@.len() ==> is_complete_line(#[trigger] lines@[i]@),
            ensures
                concat_lines(line_views(lines@)) + self@ == old(self)@,
                forall|i: int| 0 <= i < lines@.len() ==> is_complete_line(#[trigger] lines@[i]@),
                no_newline(self@),
            decreases self@.len(),
        {
            let ghost before = self@;
            match self.next_line() {
                Some(line) => {
                    let ghost prev = line_views(lines@);
                    lines.push(line);
                    assert(line_views(lines@).drop_last() =~= prev);
                    assert(line_views(lines@).last() == line@);
                    assert(concat_lines(line_views(lines@)) == concat_lines(prev) + line@);
                    assert(concat_lines(line_views(lines@)) + self@ =~= concat_lines(prev) + (line@
                        + self@));
                },
                None => {
                    break ;
                },
            }
        }
        lines
    }
}

/// The characters that `bytes` decode to, each invalid UTF-8 sequence taken
/// as U+FFFD; what `String::from_utf8_lossy` gives.
pub uninterp spec fn utf8_lossy(bytes: Seq<u8>) -> Seq<char>;

/// Decodes `bytes` as UTF-8 with `String::from_utf8_lossy`. Its contract
/// names the result and states that valid UTF-8 decodes exactly; how an
/// invalid sequence is replaced is left unsaid.
#[verifier::external_body]
pub(crate) fn decode_lossy(bytes: &[u8]) -> (r: String)
    ensures
        r@ == utf8_lossy(bytes@),
        vstd::utf8::valid_utf8(bytes@) ==> r@ == vstd::utf8::decode_utf8(bytes@),
{
    String::from_utf8_lossy(bytes).into_owned()
}

/// What one line of an event stream carries as data: the trimmed text after
/// a `data:` prefix of the trimmed line, unless that is empty or the end
/// marker `[DONE]`.
pub open spec fn sse_data_of(line: Seq<char>) -> Option<Seq<char>> {
    let t = trimmed(line);
    if "data:"@.is_prefix_of(t) {
        let d = trimmed(t.skip(5));
        if d.len() == 0 || d == "[DONE]"@ {
            None
        } else {
            Some(d)
        }
    } else {
        None
    }
}

/// The data that one received line of an event stream carries, if any.
pub fn sse_data(line: &[u8]) -> (r: Option<String>)
    ensures
        r matches Some(d) ==> sse_data_of(utf8_lossy(line@)) == Some(d@),
        r is None ==> sse_data_of(utf8_lossy(line@)) is None,
{
    proof {
        reveal_strlit("data:");
    }
    let text = decode_lossy(line);
    let t = trim(text.as_str());
    match strip_prefix(t, "data:") {
        None => None,
        Some(rest) => {
            let d = trim(rest);
            if d.is_empty() || str_eq(d, "[DONE]") {
                None
            } else {
                Some(String::from_str(d))
            }
        },
    }
}

} // verus!
