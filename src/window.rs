//! Selecting the window of a document that is submitted for review, and
//! numbering its lines for the engine.

use vstd::prelude::*;
use crate::err::{Error, Oops};
use crate::annotate::document_lines;
use crate::text::{decimal, doc_lines, join_with_breaks, push_char, push_decimal, views};

verus! {

/// The lines submitted for review: `start` and `end` are 1-based and
/// inclusive; an absent `end` means the last line.
pub struct Window {
    pub start: usize,
    pub end: Option<usize>,
}

/// The lines of `doc` that `window` selects: none when `start` is past the
/// end, and `end` clamped to the last line.
pub open spec fn window_lines(doc: Seq<Seq<char>>, start: nat, end: Option<usize>) -> Seq<Seq<char>> {
    let hi: int = match end {
        Some(e) => if e < doc.len() { e as int } else { doc.len() as int },
        None => doc.len() as int,
    };
    if start - 1 >= hi {
        Seq::empty()
    } else {
        doc.subrange(start - 1, hi)
    }
}

/// Whether a window's end precedes its start.
pub open spec fn window_reversed(window: Window) -> bool {
    match window.end {
        Some(e) => e < window.start,
        None => false,
    }
}

/// Selects the lines of the document that the window covers.
pub fn select_window(input: &str, window: &Window) -> (r: Result<Vec<String>, Error>)
    requires
        window.start >= 1,
    ensures
        window_reversed(*window) <==> r is Err,
        r matches Ok(lines) ==> views(lines@) == window_lines(doc_lines(input@), window.start as nat, window.end),
        r matches Err(e) ==> e@ == seq![(Oops::WindowRangeError, None::<Seq<char>>)],
{
    if let Some(e) = window.end {
        if e < window.start {
            let err = Error::new().wrap(Oops::WindowRangeError);
            return Err(err);
        }
    }
    let lines = document_lines(input);
    let n = lines.len();
    let hi = match window.end {
        Some(e) => if e < n { e } else { n },
        None => n,
    };
    let mut out: Vec<String> = Vec::new();
    let lo = if window.start - 1 < hi { window.start - 1 } else { hi };
    let mut i: usize = lo;
    while i < hi
        invariant
            views(lines@) == doc_lines(input@),
            hi <= lines.len(),
            lo <= i <= hi,
            views(out@) == doc_lines(input@).subrange(lo as int, i as int),
        decreases hi - i,
    {
        let ghost before = out@;
        let l = lines[i].clone();
        out.push(l);
        proof {
            assert(views(lines@)[i as int] == lines@[i as int]@);
            assert(views(out@) =~= views(before).push(l@));
            assert(views(out@) =~= doc_lines(input@).subrange(lo as int, i + 1));
        }
        i = i + 1;
    }
    proof {
        if window.start - 1 >= hi {
            assert(views(out@) =~= Seq::<Seq<char>>::empty());
        }
    }
    Ok(out)
}

/// One line as the completion engine sees it: its position within the
/// window, a space, and the text.
pub open spec fn numbered_line(position: nat, line: Seq<char>) -> Seq<char> {
    decimal(position) + seq![' '] + line
}

/// The window's lines numbered from 1 and joined by line breaks.
pub open spec fn numbered(lines: Seq<Seq<char>>) -> Seq<char> {
    join_with_breaks(Seq::new(lines.len(), |i: int| numbered_line((i + 1) as nat, lines[i])))
}

/// Renders the window's lines with each prefixed by its position within the
/// window, so that the engine can address lines without counting them.
pub fn number_lines(lines: &Vec<String>) -> (r: String)
    ensures
        r@ == numbered(views(lines@)),
{
    let ghost all = Seq::new(lines@.len(), |i: int| numbered_line((i + 1) as nat, views(lines@)[i]));
    let mut out = String::new();
    let mut i: usize = 0;
    while i < lines.len()
        invariant
            all == Seq::new(lines@.len(), |i: int| numbered_line((i + 1) as nat, views(lines@)[i])),
            i <= lines.len(),
            out@ == join_with_breaks(all.take(i as int)),
        decreases lines.len() - i,
    {
        let ghost before = out@;
        if i > 0 {
            push_char(&mut out, '\n');
        }
        let ghost mid = out@;
        push_decimal(&mut out, i + 1);
        push_char(&mut out, ' ');
        out.append(lines[i].as_str());
        proof {
            assert(views(lines@)[i as int] == lines@[i as int]@);
            assert(out@ =~= mid + all[i as int]);
            assert(all.take(i + 1).drop_last() == all.take(i as int));
            assert(all.take(i + 1).last() == all[i as int]);
            if i == 0 {
                assert(all.take(i + 1).len() == 1);
            }
            assert(out@ =~= join_with_breaks(all.take(i + 1)));
        }
        i = i + 1;
    }
    proof {
        assert(all.take(lines@.len() as int) == all);
    }
    out
}

/// The window of the document, numbered for the engine; fails when the
/// window's end precedes its start.
pub fn prepare_annotation(input: &str, window: &Window) -> (r: Result<String, Error>)
    requires
        window.start >= 1,
    ensures
        window_reversed(*window) <==> r is Err,
        r matches Ok(text) ==> text@ == numbered(
            window_lines(doc_lines(input@), window.start as nat, window.end),
        ),
        r matches Err(e) ==> e@ == seq![(Oops::WindowRangeError, None::<Seq<char>>)],
{
    let lines = select_window(input, window)?;
    Ok(number_lines(&lines))
}

} // verus!
