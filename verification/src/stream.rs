//! Splitting a streamed response into lines: text arrives in chunks that
//! may end anywhere, and only complete lines are handed on.

use crate::text::{chars_of, concat, trim, trimmed};
use vstd::prelude::*;

verus! {

/// Scanning `s` from position `i` with the current line starting at
/// `start`: the complete lines met (without their line feed), and where
/// the unfinished rest begins.
pub open spec fn line_scan(s: Seq<char>, start: int, i: int) -> (Seq<Seq<char>>, int)
    decreases s.len() - i,
{
    if i < 0 || i >= s.len() {
        (Seq::empty(), start)
    } else if s[i] == '\n' {
        let next = line_scan(s, i + 1, i + 1);
        (seq![s.subrange(start, i)].add(next.0), next.1)
    } else {
        line_scan(s, start, i + 1)
    }
}

/// The complete lines of `s`.
pub open spec fn complete_lines(s: Seq<char>) -> Seq<Seq<char>> {
    line_scan(s, 0, 0).0
}

/// What follows the last line feed of `s`.
pub open spec fn unfinished_rest(s: Seq<char>) -> Seq<char> {
    s.subrange(line_scan(s, 0, 0).1, s.len() as int)
}

/// Holds the unfinished end of a stream between chunks.
pub struct LineBuffer {
    buffer: String,
}

impl View for LineBuffer {
    type V = Seq<char>;

    closed spec fn view(&self) -> Seq<char> {
        self.buffer@
    }
}

impl LineBuffer {
    /// An empty buffer.
    pub fn new() -> (b: Self)
        ensures
            b@.len() == 0,
    {
        LineBuffer { buffer: String::new() }
    }

    /// Adds a chunk and returns the lines it completes, each trimmed; what
    /// follows the last line feed stays in the buffer.
    pub fn push_chunk(&mut self, chunk: &str) -> (lines: Vec<String>)
        ensures
            final(self)@ == unfinished_rest(old(self)@ + chunk@),
            lines@.map_values(|l: String| l@) == complete_lines(old(self)@ + chunk@).map_values(
                |l: Seq<char>| trimmed(l),
            ),
    {
        let all = concat(self.buffer.as_str(), chunk);
        let ghost s = all@;
        let v = chars_of(all.as_str());
        let n = v.len();
        let mut lines: Vec<String> = Vec::new();
        let mut start: usize = 0;
        let mut i: usize = 0;
        while i < n
            invariant
                v@ == s,
                n == s.len(),
                0 <= start <= i <= n,
                all@ == s,
                line_scan(s, 0, 0).0.map_values(|l: Seq<char>| trimmed(l)) == lines@.map_values(
                    |l: String| l@,
                ) + line_scan(s, start as int, i as int).0.map_values(|l: Seq<char>| trimmed(l)),
                line_scan(s, 0, 0).1 == line_scan(s, start as int, i as int).1,
            decreases n - i,
        {
            if v[i] == '\n' {
                let piece = all.as_str().substring_char(start, i);
                let t = trim(piece);
                let ghost before = lines@;
                lines.push(t);
                proof {
                    let next = line_scan(s, i + 1, i + 1);
                    let mapped = next.0.map_values(|l: Seq<char>| trimmed(l));
                    assert(seq![s.subrange(start as int, i as int)].add(next.0).map_values(
                        |l: Seq<char>| trimmed(l),
                    ) =~= seq![trimmed(s.subrange(start as int, i as int))] + mapped);
                    assert(lines@.map_values(|l: String| l@) =~= before.map_values(|l: String| l@)
                        + seq![trimmed(s.subrange(start as int, i as int))]);
                }
                start = i + 1;
            }
            i += 1;
        }
        proof {
            assert(line_scan(s, start as int, i as int).0.map_values(|l: Seq<char>| trimmed(l))
                =~= Seq::empty());
            assert(lines@.map_values(|l: String| l@) + Seq::<Seq<char>>::empty() =~= lines@.map_values(
                |l: String| l@,
            ));
        }
        self.buffer = all.as_str().substring_char(start, n).to_string();
        lines
    }
}

/// Scanning a longer text first covers the shorter one, then goes on where
/// that scan stopped.
proof fn lemma_scan_prefix(s: Seq<char>, t: Seq<char>, start: int, i: int)
    requires
        0 <= start <= i <= s.len(),
    ensures
        ({
            let q = line_scan(s, start, i).1;
            &&& start <= q <= s.len()
            &&& line_scan(s + t, start, i).0 == line_scan(s, start, i).0 + line_scan(
                s + t,
                q,
                s.len() as int,
            ).0
            &&& line_scan(s + t, start, i).1 == line_scan(s + t, q, s.len() as int).1
            &&& forall|j: int| i <= j < s.len() && q <= j ==> s[j] != '\n'
        }),
    decreases s.len() - i,
{
    let w = s + t;
    if i == s.len() {
        assert(line_scan(s, start, i).0 + line_scan(w, start, i).0 =~= line_scan(w, start, i).0);
    } else {
        assert(w[i] == s[i]);
        if s[i] == '\n' {
            lemma_scan_prefix(s, t, i + 1, i + 1);
            assert(w.subrange(start, i) =~= s.subrange(start, i));
            let a = line_scan(s, i + 1, i + 1).0;
            let b = line_scan(w, line_scan(s, i + 1, i + 1).1, s.len() as int).0;
            assert(seq![s.subrange(start, i)].add(a + b) =~= seq![s.subrange(start, i)].add(a) + b);
        } else {
            lemma_scan_prefix(s, t, start, i + 1);
        }
    }
}

/// Scanning from an offset is scanning the text from there on, shifted.
proof fn lemma_scan_shift(w: Seq<char>, q: int, start: int, i: int)
    requires
        0 <= q <= start <= i <= w.len(),
    ensures
        line_scan(w, start, i).0 == line_scan(w.skip(q), start - q, i - q).0,
        line_scan(w, start, i).1 == line_scan(w.skip(q), start - q, i - q).1 + q,
    decreases w.len() - i,
{
    let v = w.skip(q);
    if i < w.len() {
        assert(v[i - q] == w[i]);
        if w[i] == '\n' {
            lemma_scan_shift(w, q, i + 1, i + 1);
            assert(v.subrange(start - q, i - q) =~= w.subrange(start, i));
        } else {
            lemma_scan_shift(w, q, start, i + 1);
        }
    }
}

/// A stretch without line feeds adds nothing to the scan.
proof fn lemma_scan_no_newline(w: Seq<char>, start: int, i: int, k: int)
    requires
        0 <= start <= i <= k <= w.len(),
        forall|j: int| i <= j < k ==> w[j] != '\n',
    ensures
        line_scan(w, start, i) == line_scan(w, start, k),
    decreases k - i,
{
    if i < k {
        lemma_scan_no_newline(w, start, i + 1, k);
    }
}

/// How a stream is cut into chunks does not matter: pushing `t` after `s`
/// hands on the same lines, and leaves the same unfinished rest, as pushing
/// `s + t` at once.
pub proof fn lemma_chunking_does_not_matter(s: Seq<char>, t: Seq<char>)
    ensures
        complete_lines(s) + complete_lines(unfinished_rest(s) + t) == complete_lines(s + t),
        unfinished_rest(unfinished_rest(s) + t) == unfinished_rest(s + t),
{
    let w = s + t;
    lemma_scan_prefix(s, t, 0, 0);
    let p = line_scan(s, 0, 0).1;
    let r = s.subrange(p, s.len() as int);
    assert(r + t =~= w.skip(p));
    lemma_scan_shift(w, p, p, s.len() as int);
    assert forall|j: int| 0 <= j < r.len() implies (r + t)[j] != '\n' by {
        assert((r + t)[j] == s[j + p]);
    }
    lemma_scan_no_newline(r + t, 0, 0, r.len() as int);
    let m = line_scan(r + t, 0, 0).1;
    lemma_scan_prefix(r + t, Seq::empty(), 0, 0);
    assert(w.subrange(m + p, w.len() as int) =~= (r + t).subrange(m, (r + t).len() as int));
}

/// Lines put back together, each followed by its line feed.
pub open spec fn rejoin(lines: Seq<Seq<char>>) -> Seq<char>
    decreases lines.len(),
{
    if lines.len() == 0 {
        Seq::empty()
    } else {
        lines[0] + seq!['\n'] + rejoin(lines.drop_first())
    }
}

proof fn lemma_line_scan_pieces(s: Seq<char>, start: int, i: int)
    requires
        0 <= start <= i <= s.len(),
        !s.subrange(start, i).contains('\n'),
    ensures
        rejoin(line_scan(s, start, i).0) + s.subrange(line_scan(s, start, i).1, s.len() as int)
            == s.subrange(start, s.len() as int),
        forall|k: int|
            0 <= k < line_scan(s, start, i).0.len() ==> !(#[trigger] line_scan(s, start, i).0[k]).contains(
                '\n',
            ),
        !s.subrange(line_scan(s, start, i).1, s.len() as int).contains('\n'),
        start <= line_scan(s, start, i).1 <= s.len(),
    decreases s.len() - i,
{
    if i >= s.len() {
        assert(rejoin(Seq::<Seq<char>>::empty()) =~= Seq::<char>::empty());
        assert(Seq::<char>::empty() + s.subrange(start, s.len() as int) =~= s.subrange(
            start,
            s.len() as int,
        ));
    } else if s[i] == '\n' {
        assert(s.subrange(i + 1, i + 1) =~= Seq::<char>::empty());
        lemma_line_scan_pieces(s, i + 1, i + 1);
        let next = line_scan(s, i + 1, i + 1);
        let ls = seq![s.subrange(start, i)].add(next.0);
        assert(ls[0] == s.subrange(start, i));
        assert(ls.drop_first() =~= next.0);
        assert(s.subrange(start, i) + seq!['\n'] + s.subrange(i + 1, s.len() as int) =~= s.subrange(
            start,
            s.len() as int,
        ));
        assert(rejoin(ls) + s.subrange(next.1, s.len() as int) =~= s.subrange(start, i) + seq![
            '\n'
        ] + (rejoin(next.0) + s.subrange(next.1, s.len() as int)));
        assert forall|k: int| 0 <= k < ls.len() implies !(#[trigger] ls[k]).contains('\n') by {
            if k > 0 {
                assert(ls[k] == next.0[k - 1]);
            }
        }
    } else {
        assert forall|w: int| 0 <= w < i + 1 - start implies #[trigger] s.subrange(start, i + 1)[w]
            != '\n' by {
            if w < i - start {
                assert(s.subrange(start, i + 1)[w] == s.subrange(start, i)[w]);
            }
        }
        lemma_line_scan_pieces(s, start, i + 1);
    }
}

/// Splitting loses nothing and cuts only at line feeds: the complete lines,
/// each given back its line feed, followed by the unfinished rest, are the
/// text again, and neither a line nor the rest holds a line feed.
pub proof fn lemma_lines_are_the_text(s: Seq<char>)
    ensures
        rejoin(complete_lines(s)) + unfinished_rest(s) == s,
        forall|k: int| 0 <= k < complete_lines(s).len() ==> !(#[trigger] complete_lines(s)[k]).contains('\n'),
        !unfinished_rest(s).contains('\n'),
{
    assert(s.subrange(0, 0) =~= Seq::<char>::empty());
    lemma_line_scan_pieces(s, 0, 0);
    assert(s.subrange(0, s.len() as int) =~= s);
}

} // verus!
