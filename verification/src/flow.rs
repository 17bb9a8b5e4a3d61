//! Captured flows: the records of the capture log, the newest-first order the
//! viewer shows them in, and the splitting of the log into its record lines.
use crate::text::{is_blank, is_space, is_space_char, lemma_line_end, lines_of, push_char, strip_cr};
use crate::time::{later_than, lemma_instant_total, Timestamp};
use vstd::prelude::*;
use vstd::string::*;

verus! {

/// One captured message as the proxy logged it.
#[derive(Debug)]
pub struct Flow {
    pub pipeline: String,
    pub direction: String,
    pub at: Timestamp,
    pub format: String,
    pub rendered: String,
}

impl Flow {
    /// A field-by-field copy.
    pub fn duplicate(&self) -> (f: Flow)
        ensures
            f == *self,
    {
        Flow {
            pipeline: self.pipeline.clone(),
            direction: self.direction.clone(),
            at: self.at,
            format: self.format.clone(),
            rendered: self.rendered.clone(),
        }
    }
}

/// The flows of `s` captured at instant `k`, in their order in `s`.
pub open spec fn with_time(s: Seq<Flow>, k: Timestamp) -> Seq<Flow> {
    s.filter(|f: Flow| f.at == k)
}

/// No flow of `s` is later than one before it.
pub open spec fn newest_first(s: Seq<Flow>) -> bool {
    forall|i: int, j: int| 0 <= i < j < s.len() ==> !later_than(#[trigger] s[j].at, #[trigger] s[i].at)
}

/// `out` holds the flows of `inp`, newest first, flows of one instant kept in
/// their order in `inp` (a stable sort by descending time).
pub open spec fn newest_first_of(out: Seq<Flow>, inp: Seq<Flow>) -> bool {
    &&& newest_first(out)
    &&& forall|k: Timestamp| #[trigger] with_time(out, k) == with_time(inp, k)
}

proof fn lemma_with_time_insert(out: Seq<Flow>, p: int, x: Flow, k: Timestamp)
    requires
        0 <= p <= out.len(),
        forall|i: int| 0 <= i < p ==> later_than(#[trigger] out[i].at, x.at),
    ensures
        with_time(out.insert(p, x), k) == (if x.at == k {
            seq![x] + with_time(out, k)
        } else {
            with_time(out, k)
        }),
{
    let pred = |f: Flow| f.at == k;
    let a = out.take(p);
    let b = out.skip(p);
    assert(out.insert(p, x) =~= a + (seq![x] + b));
    assert(out =~= a + b);
    Seq::filter_distributes_over_add(a, seq![x] + b, pred);
    Seq::filter_distributes_over_add(a, b, pred);
    b.lemma_filter_prepend(x, pred);
    if x.at == k {
        assert forall|i: int| 0 <= i < a.len() implies !pred(#[trigger] a[i]) by {
            lemma_instant_total(a[i].at, x.at);
        }
        a.lemma_all_neg_filter_empty(pred);
        assert(a.filter(pred) =~= Seq::<Flow>::empty());
    }
}

/// Sorts `flows` newest first, keeping flows of one instant in their order
/// (what `sort_by_key(|f| Reverse(f.at))` gives).
pub fn sort_newest_first(flows: Vec<Flow>) -> (out: Vec<Flow>)
    ensures
        newest_first_of(out@, flows@),
{
    let ghost orig = flows@;
    let mut rest = flows;
    let mut out: Vec<Flow> = Vec::new();
    assert(orig.skip(orig.len() as int) =~= Seq::<Flow>::empty());
    while rest.len() > 0
        invariant
            rest@ == orig.take(rest@.len() as int),
            rest@.len() <= orig.len(),
            newest_first(out@),
            forall|k: Timestamp| #[trigger] with_time(out@, k) == with_time(orig.skip(rest@.len() as int), k),
        decreases rest@.len(),
    {
        let x = rest.pop().unwrap();
        let ghost n = rest@.len() as int;
        assert(orig.skip(n) =~= seq![x] + orig.skip(n + 1));
        let mut p: usize = 0;
        while p < out.len() && out[p].at.is_after(&x.at)
            invariant
                p <= out@.len(),
                forall|i: int| 0 <= i < p ==> later_than(#[trigger] out@[i].at, x.at),
            decreases out@.len() - p,
        {
            p = p + 1;
        }
        let ghost before = out@;
        out.insert(p, x);
        proof {
            assert forall|k: Timestamp| #[trigger] with_time(out@, k) == with_time(orig.skip(n), k) by {
                lemma_with_time_insert(before, p as int, x, k);
                orig.skip(n + 1).lemma_filter_prepend(x, |f: Flow| f.at == k);
            }
            assert forall|i: int, j: int| 0 <= i < j < out@.len() implies !later_than(
                #[trigger] out@[j].at,
                #[trigger] out@[i].at,
            ) by {
                if j < p {
                } else if j == p {
                } else if i < p {
                    assert(out@[j] == before[j - 1]);
                    if p < before.len() {
                        assert(!later_than(before[p as int].at, x.at));
                        assert(!later_than(before[j - 1].at, before[p as int].at));
                    }
                } else if i == p {
                    assert(out@[j] == before[j - 1]);
                    assert(!later_than(before[p as int].at, x.at));
                    if j - 1 > p {
                        assert(!later_than(before[j - 1].at, before[p as int].at));
                    }
                } else {
                    assert(out@[j] == before[j - 1]);
                    assert(out@[i] == before[i - 1]);
                }
            }
        }
    }
    assert(orig.skip(0) =~= orig);
    out
}

/// The record lines of a capture log: its lines (as `str::lines` splits them)
/// that hold something besides whitespace, in order.
pub open spec fn record_lines(raw: Seq<char>) -> Seq<Seq<char>> {
    lines_of(raw).filter(has_content())
}

/// Holds of the lines that are not blank.
pub open spec fn has_content() -> spec_fn(Seq<char>) -> bool {
    |l: Seq<char>| !is_blank(l)
}

proof fn lemma_lines_step(s: Seq<char>, start: int, i: int)
    requires
        0 <= start <= i < s.len(),
        s[i] == '\n',
        forall|j: int| start <= j < i ==> s[j] != '\n',
    ensures
        lines_of(s.skip(start)) == seq![strip_cr(s.subrange(start, i))] + lines_of(s.skip(i + 1)),
{
    let t = s.skip(start);
    lemma_line_end(t, i - start);
    assert(t.take(i - start) =~= s.subrange(start, i));
    assert(t.skip(i - start + 1) =~= s.skip(i + 1));
}

proof fn lemma_lines_last(s: Seq<char>, start: int)
    requires
        0 <= start <= s.len(),
        forall|j: int| start <= j < s.len() ==> s[j] != '\n',
    ensures
        lines_of(s.skip(start)) == if start < s.len() {
            seq![s.subrange(start, s.len() as int)]
        } else {
            Seq::<Seq<char>>::empty()
        },
{
    let t = s.skip(start);
    lemma_line_end(t, t.len() as int);
    assert(t =~= s.subrange(start, s.len() as int));
}

/// Splits a capture log into its record lines, skipping blank ones.
pub fn capture_lines(raw: &str) -> (out: Vec<String>)
    ensures
        out@.map_values(|l: String| l@) == record_lines(raw@),
{
    let ghost s = raw@;
    let ghost nonblank = has_content();
    let mut out: Vec<String> = Vec::new();
    let mut cur = String::new();
    let mut pending_cr = false;
    let mut blank = true;
    let ghost mut start: int = 0;
    let ghost mut acc: Seq<Seq<char>> = Seq::empty();
    assert(s.skip(0) =~= s);
    for c in it: raw.chars()
        invariant
            it.seq() == s,
            nonblank == has_content(),
            0 <= start <= it.index() <= s.len(),
            lines_of(s) == acc + lines_of(s.skip(start)),
            forall|j: int| start <= j < it.index() ==> s[j] != '\n',
            cur@ + (if pending_cr { seq!['\r'] } else { Seq::<char>::empty() }) == s.subrange(start, it.index() as int),
            blank == is_blank(s.subrange(start, it.index() as int)),
            !pending_cr ==> (cur@.len() == 0 || cur@.last() != '\r'),
            out@.map_values(|l: String| l@) == acc.filter(nonblank),
    {
        let ghost i = it.index() as int;
        assert(c == s[i]);
        if c == '\n' {
            proof {
                lemma_lines_step(s, start, i);
                let line = s.subrange(start, i);
                if pending_cr {
                    assert(line.last() == '\r');
                    assert(strip_cr(line) =~= cur@);
                    assert(is_space(line.last()));
                    assert(is_blank(line) == is_blank(cur@)) by {
                        assert forall|j: int| 0 <= j < cur@.len() implies cur@[j] == line[j] by {}
                    }
                } else {
                    assert(line =~= cur@);
                    assert(strip_cr(line) == cur@);
                }
                assert(lines_of(s) =~= acc.push(cur@) + lines_of(s.skip(i + 1)));
                acc.lemma_filter_push(cur@, nonblank);
            }
            let ghost line = cur@;
            let ghost before = out@;
            assert(is_blank(line) == blank) by {
                let sub = s.subrange(start, i);
                if pending_cr {
                    assert(sub =~= line.push('\r'));
                } else {
                    assert(sub =~= line);
                }
                if blank {
                    assert forall|j: int| 0 <= j < line.len() implies is_space(#[trigger] line[j]) by {
                        assert(line[j] == sub[j]);
                    }
                } else {
                    let j = choose|j: int| 0 <= j < sub.len() && !is_space(#[trigger] sub[j]);
                    if j < line.len() {
                        assert(line[j] == sub[j]);
                    } else {
                        assert(sub[j] == '\r');
                    }
                }
            }
            assert(nonblank(line) == !blank);
            if !blank {
                out.push(cur);
                assert(out@.map_values(|l: String| l@) =~= before.map_values(|l: String| l@).push(line));
            }
            assert(out@.map_values(|l: String| l@) == acc.push(line).filter(nonblank));
            proof {
                acc = acc.push(line);
                start = i + 1;
            }
            cur = String::new();
            pending_cr = false;
            blank = true;
            assert(s.subrange(start, i + 1) =~= Seq::<char>::empty());
        } else {
            if pending_cr {
                push_char(&mut cur, '\r');
            }
            if c == '\r' {
                pending_cr = true;
            } else {
                push_char(&mut cur, c);
                pending_cr = false;
            }
            let sp = is_space_char(c);
            blank = blank && sp;
            proof {
                let sub = s.subrange(start, i);
                let sub2 = s.subrange(start, i + 1);
                assert(sub2 =~= sub.push(c));
                if is_blank(sub) && is_space(c) {
                    assert forall|j: int| 0 <= j < sub2.len() implies is_space(#[trigger] sub2[j]) by {
                        if j < sub.len() {
                            assert(sub2[j] == sub[j]);
                        }
                    }
                } else if !is_space(c) {
                    assert(!is_space(sub2[sub.len() as int]));
                } else {
                    let j = choose|j: int| 0 <= j < sub.len() && !is_space(#[trigger] sub[j]);
                    assert(sub2[j] == sub[j]);
                }
            }
        }
    }
    proof {
        lemma_lines_last(s, start);
    }
    if pending_cr {
        push_char(&mut cur, '\r');
    }
    if !cur.as_str().is_empty() {
        proof {
            assert(cur@ =~= s.subrange(start, s.len() as int));
            assert(lines_of(s) =~= acc.push(cur@));
            acc.lemma_filter_push(cur@, nonblank);
        }
        let ghost line = cur@;
        let ghost before = out@;
        if !blank {
            out.push(cur);
            assert(out@.map_values(|l: String| l@) =~= before.map_values(|l: String| l@).push(line));
        }
    } else {
        assert(lines_of(s) =~= acc);
    }
    out
}

/// The flows of the lines that parsed, in order (unparsable lines are dropped).
pub fn keep_parsed(parsed: Vec<Option<Flow>>) -> (out: Vec<Flow>)
    ensures
        out@ == parsed@.filter_map(|o: Option<Flow>| o),
{
    let ghost orig = parsed@;
    let mut rest = parsed;
    let mut rev: Vec<Flow> = Vec::new();
    while rest.len() > 0
        invariant
            rest@ == orig.take(rest@.len() as int),
            rest@.len() <= orig.len(),
            rev@.reverse() == orig.skip(rest@.len() as int).filter_map(|o: Option<Flow>| o),
        decreases rest@.len(),
    {
        let n = rest.len();
        let o = rest.pop().unwrap();
        proof {
            let k = (n - 1) as int;
            assert(orig.skip(k) =~= seq![o] + orig.skip(k + 1));
            lemma_filter_map_prepend(orig.skip(k + 1), o);
        }
        if let Some(f) = o {
            rev.push(f);
            proof {
                assert(rev@.reverse() =~= seq![f] + rev@.drop_last().reverse());
            }
        }
    }
    assert(orig.skip(0) =~= orig);
    let mut out: Vec<Flow> = Vec::new();
    let ghost target = rev@.reverse();
    while rev.len() > 0
        invariant
            out@ + rev@.reverse() == target,
        decreases rev@.len(),
    {
        let f = rev.pop().unwrap();
        proof {
            assert(rev@.push(f).reverse() =~= seq![f] + rev@.reverse());
        }
        out.push(f);
        assert(out@ + rev@.reverse() =~= target);
    }
    assert(out@ =~= target);
    out
}

proof fn lemma_filter_map_prepend(s: Seq<Option<Flow>>, o: Option<Flow>)
    ensures
        (seq![o] + s).filter_map(|x: Option<Flow>| x) == (match o {
            Some(f) => seq![f],
            None => Seq::<Flow>::empty(),
        }) + s.filter_map(|x: Option<Flow>| x),
    decreases s.len(),
{
    let id = |x: Option<Flow>| x;
    let e = Seq::<Option<Flow>>::empty();
    assert(e.filter_map(id) =~= Seq::<Flow>::empty());
    if s.len() == 0 {
        assert((seq![o] + s) =~= seq![o]);
        assert(seq![o].drop_last() =~= e);
        assert(s =~= e);
        assert(seq![o].filter_map(id) =~= e.filter_map(id) + match o {
            Some(f) => seq![f],
            None => Seq::<Flow>::empty(),
        });
    } else {
        lemma_filter_map_prepend(s.drop_last(), o);
        assert((seq![o] + s).drop_last() =~= seq![o] + s.drop_last());
        assert((seq![o] + s).last() == s.last());
        let tail = match s.last() {
            Some(f) => seq![f],
            None => Seq::<Flow>::empty(),
        };
        assert((seq![o] + s).filter_map(id) == (seq![o] + s.drop_last()).filter_map(id) + tail);
        assert(s.filter_map(id) == s.drop_last().filter_map(id) + tail);
        let head = match o {
            Some(f) => seq![f],
            None => Seq::<Flow>::empty(),
        };
        assert((seq![o] + s).filter_map(id) =~= head + s.filter_map(id));
    }
}

} // verus!
