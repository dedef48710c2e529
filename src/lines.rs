use vstd::prelude::*;

verus! {

/// How a line is terminated.
#[derive(Debug, Clone, Copy, PartialEq, Eq, Structural)]
pub enum Ending {
    /// `\n`
    Lf,
    /// `\r\n`
    CrLf,
    /// No terminator: the last line of a file that does not end in a newline.
    Bare,
}

/// One line of a text file: its text and its terminator.
#[derive(Debug, Clone)]
pub struct Line {
    pub body: Vec<u8>,
    pub ending: Ending,
}

pub type LineView = (Seq<u8>, Ending);

impl View for Line {
    type V = LineView;

    open spec fn view(&self) -> LineView {
        (self.body@, self.ending)
    }
}

pub open spec fn lines_view(v: Seq<Line>) -> Seq<LineView> {
    v.map_values(|l: Line| l@)
}

pub open spec fn ending_bytes(e: Ending) -> Seq<u8> {
    match e {
        Ending::Lf => seq![10u8],
        Ending::CrLf => seq![13u8, 10u8],
        Ending::Bare => Seq::empty(),
    }
}

/// The bytes of a file made of `lines`.
pub open spec fn render(lines: Seq<LineView>) -> Seq<u8>
    decreases lines.len(),
{
    if lines.len() == 0 {
        Seq::empty()
    } else {
        render(lines.drop_last()) + lines.last().0 + ending_bytes(lines.last().1)
    }
}

/// The line that a terminated run of bytes `cur` (its `\n` already removed) forms.
pub open spec fn close_line(cur: Seq<u8>) -> LineView {
    if cur.len() > 0 && cur.last() == 13 {
        (cur.drop_last(), Ending::CrLf)
    } else {
        (cur, Ending::Lf)
    }
}

/// Reading `s` from the left: the lines closed so far and the bytes of the
/// line still open.
pub open spec fn scan(s: Seq<u8>) -> (Seq<LineView>, Seq<u8>)
    decreases s.len(),
{
    if s.len() == 0 {
        (Seq::empty(), Seq::empty())
    } else {
        let (ls, cur) = scan(s.drop_last());
        if s.last() == 10 {
            (ls.push(close_line(cur)), Seq::empty())
        } else {
            (ls, cur.push(s.last()))
        }
    }
}

/// The lines of the file whose bytes are `s`.
pub open spec fn parse(s: Seq<u8>) -> Seq<LineView> {
    let (ls, cur) = scan(s);
    if cur.len() == 0 {
        ls
    } else {
        ls.push((cur, Ending::Bare))
    }
}

pub open spec fn no_newline(b: Seq<u8>) -> bool {
    forall|i: int| 0 <= i < b.len() ==> #[trigger] b[i] != 10
}

/// A line sequence that some file reads as: bodies hold no `\n`, an `\n`
/// body does not end in `\r`, and only a non-empty last line is unterminated.
pub open spec fn wf_lines(ls: Seq<LineView>) -> bool {
    &&& forall|i: int| 0 <= i < ls.len() ==> no_newline(#[trigger] ls[i].0)
    &&& forall|i: int|
        0 <= i < ls.len() && #[trigger] ls[i].1 == Ending::Lf && ls[i].0.len() > 0 ==> ls[i].0.last()
            != 13
    &&& forall|i: int| 0 <= i < ls.len() - 1 ==> #[trigger] ls[i].1 != Ending::Bare
    &&& ls.len() > 0 && ls.last().1 == Ending::Bare ==> ls.last().0.len() > 0
}

proof fn lemma_scan_no_newline(x: Seq<u8>, t: Seq<u8>)
    requires
        no_newline(t),
    ensures
        scan(x + t) == (scan(x).0, scan(x).1 + t),
    decreases t.len(),
{
    if t.len() == 0 {
        assert(x + t =~= x);
        assert(scan(x).1 + t =~= scan(x).1);
    } else {
        let t0 = t.drop_last();
        assert(no_newline(t0));
        lemma_scan_no_newline(x, t0);
        assert((x + t).drop_last() =~= x + t0);
        assert((x + t).last() == t.last());
        assert(scan(x).1 + t0 + seq![t.last()] =~= scan(x).1 + t);
        assert((scan(x).1 + t0).push(t.last()) =~= scan(x).1 + t);
    }
}

proof fn lemma_scan_terminated(ls: Seq<LineView>)
    requires
        wf_lines(ls),
        forall|i: int| 0 <= i < ls.len() ==> #[trigger] ls[i].1 != Ending::Bare,
    ensures
        scan(render(ls)) == (ls, Seq::<u8>::empty()),
    decreases ls.len(),
{
    if ls.len() > 0 {
        let p = ls.drop_last();
        assert(wf_lines(p));
        lemma_scan_terminated(p);
        let (b, e) = ls.last();
        assert(no_newline(ls[ls.len() - 1].0));
        let x = render(p);
        if e == Ending::Lf {
            lemma_scan_no_newline(x, b);
            assert(render(ls) =~= (x + b).push(10u8));
            assert((x + b).push(10u8).drop_last() =~= x + b);
            assert(Seq::<u8>::empty() + b =~= b);
            assert(ls[ls.len() - 1].1 == Ending::Lf);
            assert(close_line(b) == (b, Ending::Lf));
        } else {
            let bc = b.push(13u8);
            assert(no_newline(bc)) by {
                assert forall|i: int| 0 <= i < bc.len() implies #[trigger] bc[i] != 10 by {
                    if i < b.len() {
                        assert(bc[i] == b[i]);
                    }
                }
            }
            lemma_scan_no_newline(x, bc);
            assert(render(ls) =~= (x + bc).push(10u8));
            assert((x + bc).push(10u8).drop_last() =~= x + bc);
            assert(Seq::<u8>::empty() + bc =~= bc);
            assert(bc.drop_last() =~= b);
        }
        assert(p.push(ls.last()) =~= ls);
    }
}

/// Rendering well-formed lines and reading the bytes back gives the same lines.
pub proof fn lemma_parse_render(ls: Seq<LineView>)
    requires
        wf_lines(ls),
    ensures
        parse(render(ls)) == ls,
{
    if ls.len() > 0 && ls.last().1 == Ending::Bare {
        let p = ls.drop_last();
        assert(wf_lines(p));
        assert forall|i: int| 0 <= i < p.len() implies #[trigger] p[i].1 != Ending::Bare by {
            assert(p[i] == ls[i]);
        }
        lemma_scan_terminated(p);
        let b = ls.last().0;
        assert(no_newline(ls[ls.len() - 1].0));
        lemma_scan_no_newline(render(p), b);
        assert(render(ls) =~= render(p) + b);
        assert(Seq::<u8>::empty() + b =~= b);
        assert(p.push((b, Ending::Bare)) =~= ls);
    } else {
        if ls.len() > 0 {
            assert forall|i: int| 0 <= i < ls.len() implies #[trigger] ls[i].1 != Ending::Bare by {
                if i < ls.len() - 1 {
                } else {
                    assert(ls[i] == ls.last());
                }
            }
        }
        lemma_scan_terminated(ls);
    }
}

/// Splits file bytes into lines.
pub fn parse_lines(content: &Vec<u8>) -> (r: Vec<Line>)
    ensures
        lines_view(r@) == parse(content@),
{
    let mut out: Vec<Line> = Vec::new();
    let mut cur: Vec<u8> = Vec::new();
    let mut i: usize = 0;
    while i < content.len()
        invariant
            i <= content@.len(),
            scan(content@.take(i as int)) == (lines_view(out@), cur@),
        decreases content@.len() - i,
    {
        let b = content[i];
        assert(content@.take(i + 1).drop_last() =~= content@.take(i as int));
        assert(content@.take(i + 1).last() == b);
        if b == 10 {
            let n = cur.len();
            let line = if n > 0 && cur[n - 1] == 13 {
                cur.pop();
                Line { body: cur, ending: Ending::CrLf }
            } else {
                Line { body: cur, ending: Ending::Lf }
            };
            assert(line@ == close_line(scan(content@.take(i as int)).1));
            out.push(line);
            assert(lines_view(out@) =~= scan(content@.take(i + 1)).0);
            cur = Vec::new();
        } else {
            cur.push(b);
        }
        i = i + 1;
    }
    assert(content@.take(content@.len() as int) =~= content@);
    if cur.len() > 0 {
        out.push(Line { body: cur, ending: Ending::Bare });
        assert(lines_view(out@) =~= parse(content@));
    }
    out
}

/// Joins lines back into file bytes.
pub fn render_lines(lines: &Vec<Line>) -> (r: Vec<u8>)
    ensures
        r@ == render(lines_view(lines@)),
{
    let mut out: Vec<u8> = Vec::new();
    let mut i: usize = 0;
    while i < lines.len()
        invariant
            i <= lines@.len(),
            out@ == render(lines_view(lines@).take(i as int)),
        decreases lines@.len() - i,
    {
        let line = &lines[i];
        let mut j: usize = 0;
        let ghost start = out@;
        while j < line.body.len()
            invariant
                j <= line.body@.len(),
                out@ == start + line.body@.take(j as int),
            decreases line.body@.len() - j,
        {
            out.push(line.body[j]);
            assert(line.body@.take(j + 1) =~= line.body@.take(j as int).push(line.body@[j as int]));
            assert(out@ =~= start + line.body@.take(j + 1));
            j = j + 1;
        }
        assert(line.body@.take(line.body@.len() as int) =~= line.body@);
        match line.ending {
            Ending::Lf => {
                out.push(10);
            },
            Ending::CrLf => {
                out.push(13);
                out.push(10);
            },
            Ending::Bare => {},
        }
        let ghost lv = lines_view(lines@);
        assert(lv.take(i + 1).drop_last() =~= lv.take(i as int));
        assert(lv.take(i + 1).last() == lines@[i as int]@);
        assert(out@ =~= start + line.body@ + ending_bytes(line.ending));
        i = i + 1;
    }
    assert(lines_view(lines@).take(lines@.len() as int) =~= lines_view(lines@));
    out
}

proof fn lemma_scan_wf(s: Seq<u8>)
    ensures
        wf_lines(scan(s).0),
        forall|i: int| 0 <= i < scan(s).0.len() ==> #[trigger] scan(s).0[i].1 != Ending::Bare,
        no_newline(scan(s).1),
    decreases s.len(),
{
    if s.len() > 0 {
        lemma_scan_wf(s.drop_last());
        let (ls, cur) = scan(s.drop_last());
        if s.last() == 10 {
            let l = close_line(cur);
            let n = ls.push(l);
            assert(no_newline(l.0));
            assert forall|i: int| 0 <= i < n.len() implies no_newline(#[trigger] n[i].0) by {
                if i < ls.len() {
                    assert(n[i] == ls[i]);
                }
            }
        } else {
            let c = cur.push(s.last());
            assert forall|i: int| 0 <= i < c.len() implies #[trigger] c[i] != 10 by {
                if i < cur.len() {
                    assert(c[i] == cur[i]);
                }
            }
        }
    }
}

/// Whatever a file holds, the lines read from it are well formed.
pub proof fn lemma_parse_wf(s: Seq<u8>)
    ensures
        wf_lines(parse(s)),
{
    lemma_scan_wf(s);
    let (ls, cur) = scan(s);
    if cur.len() > 0 {
        let n = ls.push((cur, Ending::Bare));
        assert forall|i: int| 0 <= i < n.len() implies no_newline(#[trigger] n[i].0) by {
            if i < ls.len() {
                assert(n[i] == ls[i]);
            }
        }
        assert forall|i: int| 0 <= i < n.len() - 1 implies #[trigger] n[i].1 != Ending::Bare by {
            assert(n[i] == ls[i]);
        }
    }
}

} // verus!
