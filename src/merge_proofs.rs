//! What the merge guarantees, proved over its specification.

use vstd::prelude::*;
use vstd::seq_lib::{group_to_multiset_ensures, to_multiset_len};
use crate::annotate::{
    Annotation, FileTypeInfo, annotated, insert_by_line, merge_upto, merged_lines, rendered_block,
    sort_by_line,
};
use crate::text::{doc_lines, lemma_lines_round_trip, split_newlines};

verus! {

/// Proof that with no records the merge passes every line through.
proof fn lemma_merge_no_records(doc: Seq<Seq<char>>, info: FileTypeInfo, n: nat)
    requires
        n <= doc.len(),
    ensures
        merge_upto(doc, Seq::empty(), info, n).0 == doc.take(n as int),
        merge_upto(doc, Seq::empty(), info, n).1 == 0,
    decreases n,
{
    if n > 0 {
        lemma_merge_no_records(doc, info, (n - 1) as nat);
        assert(doc.take(n as int) == doc.take(n - 1).push(doc[n - 1]));
    }
}

/// An empty annotation set leaves the document as it was, but for a final
/// line break added where the document had none.
pub proof fn lemma_empty_set_identity(doc: Seq<char>, info: FileTypeInfo)
    ensures
        annotated(doc, Seq::empty(), info) == (if doc.len() == 0 || doc.last() == '\n' {
            doc
        } else {
            doc.push('\n')
        }),
{
    let lines = doc_lines(doc);
    lemma_merge_no_records(lines, info, lines.len());
    assert(lines.take(lines.len() as int) == lines);
    assert(sort_by_line(Seq::<Annotation>::empty()) == Seq::<Annotation>::empty());
    lemma_lines_round_trip(doc);
}

/// Whether the records' lines strictly ascend.
pub open spec fn strictly_ascending(recs: Seq<Annotation>) -> bool {
    forall|i: int, j: int| 0 <= i < j < recs.len() ==> #[trigger] recs[i].line_number < #[trigger] recs[j].line_number
}

/// Whether the records' lines ascend.
pub open spec fn ascending(recs: Seq<Annotation>) -> bool {
    forall|i: int, j: int| 0 <= i < j < recs.len() ==> #[trigger] recs[i].line_number <= #[trigger] recs[j].line_number
}

/// The number of line breaks in a text.
pub open spec fn breaks(s: Seq<char>) -> nat
    decreases s.len(),
{
    if s.len() == 0 {
        0
    } else {
        breaks(s.drop_last()) + if s.last() == '\n' { 1nat } else { 0nat }
    }
}

/// The number of comment lines the records render to: `k + 1` for a body
/// with `k` line breaks.
pub open spec fn block_sum(recs: Seq<Annotation>) -> nat
    decreases recs.len(),
{
    if recs.len() == 0 {
        0
    } else {
        block_sum(recs.drop_last()) + breaks(recs.last().content@) + 1
    }
}

/// Proof that a text with `k` line breaks splits into `k + 1` pieces.
pub proof fn lemma_pieces_count(s: Seq<char>)
    ensures
        split_newlines(s).len() == breaks(s) + 1,
    decreases s.len(),
{
    if s.len() > 0 {
        lemma_pieces_count(s.drop_last());
    }
}

/// Proof that sorting ascending records changes nothing.
proof fn lemma_sorted_fixed(recs: Seq<Annotation>)
    requires
        ascending(recs),
    ensures
        sort_by_line(recs) == recs,
    decreases recs.len(),
{
    if recs.len() > 0 {
        let d = recs.drop_last();
        assert(ascending(d));
        lemma_sorted_fixed(d);
        assert(d.push(recs.last()) == recs);
        if d.len() > 0 {
            assert(d.last().line_number <= recs.last().line_number);
        }
    }
}

/// Proof of how far the merge's cursor gets over strictly ascending records
/// addressing lines from 1 on, and how many lines it has written.
proof fn lemma_merge_count(doc: Seq<Seq<char>>, recs: Seq<Annotation>, info: FileTypeInfo, n: nat)
    requires
        n <= doc.len(),
        strictly_ascending(recs),
        forall|k: int| 0 <= k < recs.len() ==> #[trigger] recs[k].line_number >= 1,
    ensures
        ({
            let (out, c) = merge_upto(doc, recs, info, n);
            &&& c <= recs.len()
            &&& forall|k: int| 0 <= k < c ==> #[trigger] recs[k].line_number <= n
            &&& forall|k: int| c <= k < recs.len() ==> #[trigger] recs[k].line_number > n
            &&& out.len() == n + block_sum(recs.take(c as int))
        }),
    decreases n,
{
    if n > 0 {
        lemma_merge_count(doc, recs, info, (n - 1) as nat);
        let (out, c) = merge_upto(doc, recs, info, (n - 1) as nat);
        if c < recs.len() && recs[c as int].line_number == n {
            let content = recs[c as int].content@;
            lemma_pieces_count(content);
            assert(recs.take((c + 1) as int).drop_last() == recs.take(c as int));
            assert forall|k: int| c + 1 <= k < recs.len() implies #[trigger] recs[k].line_number > n by {
                assert(recs[c as int].line_number < recs[k].line_number);
            }
        } else {
            assert forall|k: int| c <= k < recs.len() implies #[trigger] recs[k].line_number > n by {
                if k > c {
                    assert(recs[c as int].line_number < recs[k].line_number);
                }
            }
        }
    } else {
        assert(recs.take(0) == Seq::<Annotation>::empty());
    }
}

/// For a document of `N` lines and a sorted set of records on distinct lines
/// from 1 on, where the first `M` records address lines up to `N`, the merge
/// writes `N` lines plus `k + 1` comment lines for each of those `M` records,
/// `k` being the number of line breaks in its body.
pub proof fn lemma_line_count(text: Seq<char>, anns: Seq<Annotation>, info: FileTypeInfo, m: int)
    requires
        strictly_ascending(anns),
        forall|k: int| 0 <= k < anns.len() ==> #[trigger] anns[k].line_number >= 1,
        0 <= m <= anns.len(),
        forall|k: int| 0 <= k < m ==> #[trigger] anns[k].line_number <= doc_lines(text).len(),
        forall|k: int| m <= k < anns.len() ==> #[trigger] anns[k].line_number > doc_lines(text).len(),
    ensures
        merged_lines(doc_lines(text), anns, info).len() == doc_lines(text).len() + block_sum(anns.take(m)),
{
    let doc = doc_lines(text);
    lemma_sorted_fixed(anns);
    lemma_merge_count(doc, anns, info, doc.len());
    let c = merge_upto(doc, anns, info, doc.len()).1;
    if c < m {
        assert(anns[c as int].line_number > doc.len());
    }
    if m < c {
        assert(anns[m].line_number <= doc.len());
    }
}

/// Proof that inserting by line puts the record at some position after
/// which every record addresses a later line.
proof fn lemma_insert_split(s: Seq<Annotation>, a: Annotation) -> (j: int)
    ensures
        0 <= j <= s.len(),
        insert_by_line(s, a) == s.insert(j, a),
        forall|k: int| j <= k < s.len() ==> #[trigger] s[k].line_number > a.line_number,
        ascending(s) ==> forall|k: int| 0 <= k < j ==> #[trigger] s[k].line_number <= a.line_number,
    decreases s.len(),
{
    if s.len() == 0 {
        assert(s.insert(0, a) =~= seq![a]);
        0
    } else if s.last().line_number <= a.line_number {
        assert(s.insert(s.len() as int, a) =~= s.push(a));
        s.len() as int
    } else {
        let j = lemma_insert_split(s.drop_last(), a);
        assert(s.drop_last().insert(j, a).push(s.last()) =~= s.insert(j, a));
        assert forall|k: int| j <= k < s.len() implies #[trigger] s[k].line_number > a.line_number by {
            if k < s.len() - 1 {
                assert(s[k] == s.drop_last()[k]);
            }
        }
        if ascending(s) {
            assert(ascending(s.drop_last()));
            assert forall|k: int| 0 <= k < j implies #[trigger] s[k].line_number <= a.line_number by {
                assert(s[k] == s.drop_last()[k]);
            }
        }
        j
    }
}

/// Proof that a record inserted among records that the cursor never reaches
/// past the document's end changes nothing.
proof fn lemma_merge_past_end(
    doc: Seq<Seq<char>>,
    s: Seq<Annotation>,
    j: int,
    r: Annotation,
    info: FileTypeInfo,
    n: nat,
)
    requires
        n <= doc.len(),
        0 <= j <= s.len(),
        r.line_number > doc.len(),
        forall|k: int| j <= k < s.len() ==> #[trigger] s[k].line_number > doc.len(),
    ensures
        merge_upto(doc, s.insert(j, r), info, n) == merge_upto(doc, s, info, n),
        merge_upto(doc, s, info, n).1 <= j,
    decreases n,
{
    if n > 0 {
        lemma_merge_past_end(doc, s, j, r, info, (n - 1) as nat);
        let c = merge_upto(doc, s, info, (n - 1) as nat).1;
        if c < j {
            assert(s.insert(j, r)[c as int] == s[c as int]);
        } else {
            assert(s.insert(j, r)[j] == r);
        }
    }
}

/// A record addressing a line past the document's end contributes no output
/// line: the merge is the same without it.
pub proof fn lemma_past_end_dropped(text: Seq<char>, anns: Seq<Annotation>, r: Annotation, info: FileTypeInfo)
    requires
        r.line_number > doc_lines(text).len(),
    ensures
        annotated(text, anns.push(r), info) == annotated(text, anns, info),
{
    let doc = doc_lines(text);
    let s = sort_by_line(anns);
    assert(anns.push(r).drop_last() == anns);
    let j = lemma_insert_split(s, r);
    lemma_merge_past_end(doc, s, j, r, info, doc.len());
}

/// Proof that a second record on the first record's line is never consumed.
proof fn lemma_merge_collision(doc: Seq<Seq<char>>, a: Annotation, b: Annotation, info: FileTypeInfo, n: nat)
    requires
        n <= doc.len(),
        a.line_number == b.line_number,
    ensures
        merge_upto(doc, seq![a, b], info, n).0 == merge_upto(doc, seq![a], info, n).0,
        merge_upto(doc, seq![a, b], info, n).1 == merge_upto(doc, seq![a], info, n).1,
        merge_upto(doc, seq![a], info, n).1 <= 1,
        merge_upto(doc, seq![a], info, n).1 == 1 ==> a.line_number <= n,
    decreases n,
{
    if n > 0 {
        lemma_merge_collision(doc, a, b, info, (n - 1) as nat);
    }
}

/// Of two records on one line, only the first in sorted order is rendered:
/// the merge is the same as with the first alone, which puts its block
/// before the line it addresses.
pub proof fn lemma_same_line_collision(text: Seq<char>, a: Annotation, b: Annotation, info: FileTypeInfo)
    requires
        a.line_number == b.line_number,
    ensures
        annotated(text, seq![a, b], info) == annotated(text, seq![a], info),
        1 <= a.line_number <= doc_lines(text).len() ==> merged_lines(doc_lines(text), seq![a], info)
            == doc_lines(text).take(a.line_number - 1) + rendered_block(info, a.content@) + doc_lines(
            text,
        ).skip(a.line_number - 1),
{
    let doc = doc_lines(text);
    assert(seq![a, b].drop_last() == seq![a]);
    assert(seq![a].drop_last() == Seq::<Annotation>::empty());
    assert(sort_by_line(Seq::<Annotation>::empty()) == Seq::<Annotation>::empty());
    assert(seq![a].last() == a);
    assert(insert_by_line(Seq::<Annotation>::empty(), a) == seq![a]);
    assert(sort_by_line(seq![a]) == seq![a]);
    assert(seq![a, b].last() == b);
    assert(sort_by_line(seq![a, b]) == seq![a, b]);
    lemma_merge_collision(doc, a, b, info, doc.len());
    if 1 <= a.line_number <= doc.len() {
        lemma_merge_single(doc, a, info, doc.len());
    }
}

/// Proof of what the merge of a single record on a line of the document
/// writes.
proof fn lemma_merge_single(doc: Seq<Seq<char>>, a: Annotation, info: FileTypeInfo, n: nat)
    requires
        n <= doc.len(),
        1 <= a.line_number <= doc.len(),
    ensures
        n < a.line_number ==> merge_upto(doc, seq![a], info, n) == (doc.take(n as int), 0nat),
        n >= a.line_number ==> merge_upto(doc, seq![a], info, n) == (
            doc.take(a.line_number - 1) + rendered_block(info, a.content@) + doc.subrange(
                a.line_number - 1,
                n as int,
            ),
            1nat,
        ),
    decreases n,
{
    if n > 0 {
        lemma_merge_single(doc, a, info, (n - 1) as nat);
        let l = a.line_number as int;
        if n < l {
            assert(doc.take(n as int) == doc.take(n - 1).push(doc[n - 1]));
        } else if n == l {
            assert(doc.subrange(l - 1, n as int) == seq![doc[n - 1]]);
            assert(doc.take(n - 1) + rendered_block(info, a.content@).push(doc[n - 1]) == doc.take(l - 1)
                + rendered_block(info, a.content@) + doc.subrange(l - 1, n as int));
        } else {
            assert(doc.subrange(l - 1, n as int) == doc.subrange(l - 1, n - 1).push(doc[n - 1]));
            let pre = doc.take(l - 1) + rendered_block(info, a.content@);
            assert((pre + doc.subrange(l - 1, n - 1)).push(doc[n - 1]) == pre + doc.subrange(l - 1, n as int));
        }
    } else {
        assert(doc.take(0) == Seq::<Seq<char>>::empty());
    }
}

/// Proof that sorting keeps records in ascending line order.
proof fn lemma_sort_ascending(s: Seq<Annotation>)
    ensures
        ascending(sort_by_line(s)),
    decreases s.len(),
{
    if s.len() > 0 {
        lemma_sort_ascending(s.drop_last());
        let t = sort_by_line(s.drop_last());
        let a = s.last();
        let j = lemma_insert_split(t, a);
        let u = t.insert(j, a);
        assert forall|x: int, y: int| 0 <= x < y < u.len() implies #[trigger] u[x].line_number <= #[trigger] u[y].line_number by {
            if y < j {
            } else if y == j {
            } else if x < j {
            } else if x == j {
                assert(u[y] == t[y - 1]);
            } else {
                assert(u[x] == t[x - 1]);
                assert(u[y] == t[y - 1]);
            }
        }
    }
}

/// Proof that sorting rearranges the records without adding or losing any.
proof fn lemma_sort_multiset(s: Seq<Annotation>)
    ensures
        sort_by_line(s).to_multiset() == s.to_multiset(),
    decreases s.len(),
{
    broadcast use group_to_multiset_ensures;

    if s.len() > 0 {
        lemma_sort_multiset(s.drop_last());
        let t = sort_by_line(s.drop_last());
        let a = s.last();
        let j = lemma_insert_split(t, a);
        assert(t.insert(j, a).remove(j) == t);
        assert(t.insert(j, a)[j] == a);
        assert(t.insert(j, a).to_multiset().remove(a) == t.to_multiset());
        assert(s.drop_last().push(a) == s);
        assert(t.insert(j, a).to_multiset() =~= t.to_multiset().insert(a));
    }
}

/// Proof that two ascending orders of one collection of records are the
/// same when records on one line are equal.
proof fn lemma_sorted_unique(p: Seq<Annotation>, q: Seq<Annotation>)
    requires
        ascending(p),
        ascending(q),
        p.to_multiset() == q.to_multiset(),
        forall|x: Annotation, y: Annotation|
            p.to_multiset().count(x) > 0 && p.to_multiset().count(y) > 0 && x.line_number == y.line_number
                ==> x == y,
    ensures
        p == q,
    decreases p.len(),
{
    broadcast use group_to_multiset_ensures;

    to_multiset_len(p);
    to_multiset_len(q);
    assert(p.len() == q.len());
    if p.len() == 0 {
        assert(p =~= q);
    } else {
        let x = p.last();
        let y = q.last();
        assert(p.contains(x));
        assert(q.contains(y));
        assert(p.to_multiset().count(x) > 0);
        assert(q.to_multiset().count(y) > 0);
        assert(q.to_multiset().count(x) > 0);
        assert(p.to_multiset().count(y) > 0);
        assert(q.contains(x));
        assert(p.contains(y));
        let kq = choose|k: int| 0 <= k < q.len() && q[k] == x;
        let kp = choose|k: int| 0 <= k < p.len() && p[k] == y;
        if kq < q.len() - 1 {
            assert(q[kq].line_number <= q[q.len() - 1].line_number);
        }
        if kp < p.len() - 1 {
            assert(p[kp].line_number <= p[p.len() - 1].line_number);
        }
        assert(x == y);
        let pd = p.drop_last();
        let qd = q.drop_last();
        assert(pd.push(x) == p);
        assert(qd.push(y) == q);
        assert(pd.to_multiset() =~= p.to_multiset().remove(x));
        assert(qd.to_multiset() =~= q.to_multiset().remove(y));
        assert(ascending(pd));
        assert(ascending(qd));
        assert forall|u: Annotation, v: Annotation|
            pd.to_multiset().count(u) > 0 && pd.to_multiset().count(v) > 0 && u.line_number == v.line_number
                implies u == v by {
            assert(p.to_multiset().count(u) > 0);
            assert(p.to_multiset().count(v) > 0);
        }
        lemma_sorted_unique(pd, qd);
        assert(p =~= q);
    }
}

/// The order in which records arrive does not change the merge, when
/// records on one line are equal: any rearrangement of the set gives the
/// same output.
pub proof fn lemma_order_independent(text: Seq<char>, a: Seq<Annotation>, b: Seq<Annotation>, info: FileTypeInfo)
    requires
        a.to_multiset() == b.to_multiset(),
        forall|i: int, j: int|
            0 <= i < a.len() && 0 <= j < a.len() && a[i].line_number == a[j].line_number ==> a[i] == a[j],
    ensures
        annotated(text, a, info) == annotated(text, b, info),
{
    broadcast use group_to_multiset_ensures;

    lemma_sort_ascending(a);
    lemma_sort_ascending(b);
    lemma_sort_multiset(a);
    lemma_sort_multiset(b);
    let p = sort_by_line(a);
    assert forall|x: Annotation, y: Annotation|
        p.to_multiset().count(x) > 0 && p.to_multiset().count(y) > 0 && x.line_number == y.line_number
            implies x == y by {
        assert(a.contains(x));
        assert(a.contains(y));
        let i = choose|i: int| 0 <= i < a.len() && a[i] == x;
        let j = choose|j: int| 0 <= j < a.len() && a[j] == y;
    }
    lemma_sorted_unique(p, sort_by_line(b));
}

} // verus!
