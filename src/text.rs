//! Character-level helpers: splitting on line breaks and joining lines.

use vstd::prelude::*;
use vstd::std_specs::iter::IteratorSpec;

verus! {

/// Splits `s` at every `sep`: a text with `k` separators has `k + 1` pieces.
pub open spec fn split_on(s: Seq<char>, sep: char) -> Seq<Seq<char>>
    decreases s.len(),
{
    if s.len() == 0 {
        seq![Seq::empty()]
    } else {
        let rest = split_on(s.drop_last(), sep);
        if s.last() == sep {
            rest.push(Seq::empty())
        } else {
            rest.update(rest.len() - 1, rest.last().push(s.last()))
        }
    }
}

/// Splits `s` at every `'\n'`: a text with `k` line breaks has `k + 1` pieces.
pub open spec fn split_newlines(s: Seq<char>) -> Seq<Seq<char>> {
    split_on(s, '\n')
}

/// The lines of a document, as a line reader yields them: the pieces between
/// line breaks, where a final line break does not open one more (empty) line.
pub open spec fn doc_lines(s: Seq<char>) -> Seq<Seq<char>> {
    let p = split_newlines(s);
    if p.last().len() == 0 {
        p.drop_last()
    } else {
        p
    }
}

/// Pieces joined with a `'\n'` between each two of them.
pub open spec fn join_with_breaks(p: Seq<Seq<char>>) -> Seq<char>
    decreases p.len(),
{
    if p.len() == 0 {
        Seq::empty()
    } else if p.len() == 1 {
        p[0]
    } else {
        join_with_breaks(p.drop_last()) + seq!['\n'] + p.last()
    }
}

/// Lines written out one after another, each followed by `'\n'`.
pub open spec fn join_lines(p: Seq<Seq<char>>) -> Seq<char>
    decreases p.len(),
{
    if p.len() == 0 {
        Seq::empty()
    } else {
        join_lines(p.drop_last()) + p.last() + seq!['\n']
    }
}

/// The views of a sequence of strings.
pub open spec fn views(v: Seq<String>) -> Seq<Seq<char>> {
    v.map_values(|x: String| x@)
}

/// The decimal digit for `d` (below ten).
pub open spec fn digit_char(d: nat) -> char {
    if d == 0 { '0' }
    else if d == 1 { '1' }
    else if d == 2 { '2' }
    else if d == 3 { '3' }
    else if d == 4 { '4' }
    else if d == 5 { '5' }
    else if d == 6 { '6' }
    else if d == 7 { '7' }
    else if d == 8 { '8' }
    else { '9' }
}

/// The decimal notation of `n`, without leading zeros.
pub open spec fn decimal(n: nat) -> Seq<char>
    decreases n,
{
    if n < 10 {
        seq![digit_char(n)]
    } else {
        decimal(n / 10).push(digit_char(n % 10))
    }
}

/// Appends the decimal notation of `n` to `out`.
pub fn push_decimal(out: &mut String, n: usize)
    ensures
        final(out)@ == old(out)@ + decimal(n as nat),
    decreases n,
{
    if n >= 10 {
        push_decimal(out, n / 10);
    }
    let d = n % 10;
    let c = if d == 0 { '0' }
        else if d == 1 { '1' }
        else if d == 2 { '2' }
        else if d == 3 { '3' }
        else if d == 4 { '4' }
        else if d == 5 { '5' }
        else if d == 6 { '6' }
        else if d == 7 { '7' }
        else if d == 8 { '8' }
        else { '9' };
    push_char(out, c);
    proof {
        if n >= 10 {
            assert(final(out)@ =~= old(out)@ + decimal(n as nat));
        } else {
            assert(final(out)@ =~= old(out)@ + decimal(n as nat));
        }
    }
}

/// Relies on `String::push`: appends one character.
#[verifier::external_body]
pub(crate) fn push_char(s: &mut String, c: char)
    ensures
        final(s)@ == old(s)@.push(c),
{
    s.push(c)
}

/// The characters of `s`, in order.
pub fn chars_of(s: &str) -> (r: Vec<char>)
    ensures
        r@ == s@,
{
    let mut out: Vec<char> = Vec::new();
    let mut it = s.chars();
    loop
        invariant
            it.obeys_prophetic_iter_laws(),
            it.decrease() is Some,
            out@ + it.remaining() == s@,
        ensures
            out@ == s@,
        decreases it.decrease()->0,
    {
        match it.next() {
            Some(c) => {
                out.push(c);
            },
            None => {
                break;
            },
        }
    }
    out
}

/// Splits `s` at every line break; see [`split_newlines`].
pub fn split_pieces(s: &str) -> (r: Vec<String>)
    ensures
        views(r@) == split_newlines(s@),
{
    split_at(s, '\n')
}

/// Splits `s` at every `sep`; see [`split_on`].
pub fn split_at(s: &str, sep: char) -> (r: Vec<String>)
    ensures
        views(r@) == split_on(s@, sep),
{
    let cs = chars_of(s);
    let mut done: Vec<String> = Vec::new();
    let mut cur = String::new();
    let mut i: usize = 0;
    while i < cs.len()
        invariant
            cs@ == s@,
            i <= cs.len(),
            views(done@).push(cur@) == split_on(cs@.take(i as int), sep),
        decreases cs.len() - i,
    {
        let c = cs[i];
        proof {
            assert(cs@.take(i + 1).drop_last() == cs@.take(i as int));
        }
        if c == sep {
            let ghost old_done = done@;
            done.push(cur);
            cur = String::new();
            proof {
                assert(views(done@) == views(old_done).push(views(done@).last()));
            }
        } else {
            let ghost old_cur = cur@;
            push_char(&mut cur, c);
            proof {
                let p = views(done@).push(old_cur);
                assert(views(done@).push(cur@) == p.update(p.len() - 1, p.last().push(c)));
            }
        }
        i = i + 1;
    }
    proof {
        assert(cs@.take(cs@.len() as int) == cs@);
    }
    done.push(cur);
    done
}

/// Proof that splitting at line breaks and joining again gives the text back.
pub proof fn lemma_join_split(s: Seq<char>)
    ensures
        join_with_breaks(split_newlines(s)) == s,
    decreases s.len(),
{
    if s.len() > 0 {
        lemma_join_split(s.drop_last());
        let rest = split_newlines(s.drop_last());
        if s.last() == '\n' {
            assert(rest.push(Seq::empty()).drop_last() == rest);
        } else {
            let p = rest.update(rest.len() - 1, rest.last().push(s.last()));
            assert(p.drop_last() == rest.drop_last());
            if rest.len() == 1 {
                assert(s == s.drop_last().push(s.last()));
            } else {
                assert(s == s.drop_last().push(s.last()));
            }
        }
    }
}

/// Proof that writing lines with a terminator each is writing them with
/// separators and one final terminator.
pub proof fn lemma_join_lines_breaks(p: Seq<Seq<char>>)
    requires
        p.len() > 0,
    ensures
        join_lines(p) == join_with_breaks(p) + seq!['\n'],
    decreases p.len(),
{
    if p.len() > 1 {
        lemma_join_lines_breaks(p.drop_last());
        assert(join_lines(p) =~= join_with_breaks(p) + seq!['\n']);
    } else {
        assert(p.drop_last().len() == 0);
        assert(join_lines(p.drop_last()) == Seq::<char>::empty());
        assert(join_lines(p) == join_lines(p.drop_last()) + p.last() + seq!['\n']);
        assert(p.last() == p[0]);
        assert(join_lines(p) =~= join_with_breaks(p) + seq!['\n']);
    }
}

/// Proof that line output distributes over concatenation.
pub proof fn lemma_join_lines_append(a: Seq<Seq<char>>, b: Seq<Seq<char>>)
    ensures
        join_lines(a + b) == join_lines(a) + join_lines(b),
    decreases b.len(),
{
    if b.len() == 0 {
        assert(a + b == a);
    } else {
        lemma_join_lines_append(a, b.drop_last());
        assert((a + b).drop_last() == a + b.drop_last());
    }
}

/// Proof that a text comes back from its lines, with a final line break
/// added where it had none.
pub proof fn lemma_lines_round_trip(s: Seq<char>)
    ensures
        join_lines(doc_lines(s)) == (if s.len() == 0 || s.last() == '\n' {
            s
        } else {
            s.push('\n')
        }),
{
    lemma_join_split(s);
    let p = split_newlines(s);
    lemma_split_nonempty(s);
    lemma_last_piece(s);
    if p.last().len() == 0 {
        if p.len() == 1 {
            assert(p.drop_last().len() == 0);
        } else {
            lemma_join_lines_breaks(p.drop_last());
            assert(join_with_breaks(p) == join_with_breaks(p.drop_last()) + seq!['\n'] + p.last());
        }
    } else {
        lemma_join_lines_breaks(p);
    }
}

/// Proof that splitting always gives at least one piece.
pub proof fn lemma_split_nonempty(s: Seq<char>)
    ensures
        split_newlines(s).len() >= 1,
    decreases s.len(),
{
    if s.len() > 0 {
        lemma_split_nonempty(s.drop_last());
    }
}

/// Proof that the last piece is empty exactly when the text is empty or ends
/// with a line break.
pub proof fn lemma_last_piece(s: Seq<char>)
    ensures
        split_newlines(s).last().len() == 0 <==> (s.len() == 0 || s.last() == '\n'),
    decreases s.len(),
{
    lemma_split_nonempty(s);
    if s.len() > 0 {
        lemma_split_nonempty(s.drop_last());
    }
}

} // verus!
