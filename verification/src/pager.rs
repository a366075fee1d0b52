//! The scroll-back of a terminal client: text is cut into lines that fill
//! the width of a window.
//!
//! Widths are counted in bytes, and a text is taken as its UTF-8 encoding:
//! a line of the scroll-back is `w` bytes of the text, or the rest of a line
//! of the text filled up with blanks to `w` bytes. A line feed is the byte
//! 10 and a carriage return the byte 13, which in UTF-8 stand for nothing
//! else.

use vstd::prelude::*;
use vstd::utf8::{encode_utf8, encode_utf8_valid_utf8, valid_utf8};
use crate::wire::{push_all, string_of};

verus! {

/// A window on the scroll-back: `scroll_ptr` is the number of the line
/// below the last one shown, `x` and `y` are where the window stands on the
/// screen, `w` and `h` its width and height.
#[derive(Clone, Copy, Debug, PartialEq, Eq)]
pub struct Window {
    pub scroll_ptr: usize,
    pub x: u16,
    pub y: u16,
    pub w: u16,
    pub h: u16,
}

/// The encodings of a list of strings.
pub open spec fn encodings(v: Seq<String>) -> Seq<Seq<u8>> {
    v.map_values(|s: String| encode_utf8(s@))
}

/// `n` blanks.
pub open spec fn blanks(n: nat) -> Seq<u8> {
    Seq::new(n, |i: int| 0x20u8)
}

/// A line filled up with blanks to `w` bytes.
pub open spec fn padded(line: Seq<u8>, w: nat) -> Seq<u8> {
    line + blanks((w - line.len()) as nat)
}

/// A line cut to the width `w`: pieces of `w` bytes each, and a last piece
/// of at most `w` bytes that is filled up with blanks.
pub open spec fn wrapped(line: Seq<u8>, w: nat) -> Seq<Seq<u8>>
    decreases line.len(),
{
    if w == 0 || line.len() <= w {
        seq![padded(line, w)]
    } else {
        seq![line.subrange(0, w as int)] + wrapped(line.subrange(w as int, line.len() as int), w)
    }
}

/// Number of bytes from `from` up to the next line feed, or to the end of
/// the text if none follows.
pub open spec fn run(text: Seq<u8>, from: int) -> nat
    decreases text.len() - from,
{
    if from < 0 || from >= text.len() || text[from] == 10 {
        0
    } else {
        1 + run(text, from + 1)
    }
}

/// The line that starts at `from`: the bytes up to the next line feed,
/// without a carriage return that stands right before that line feed.
pub open spec fn line_at(text: Seq<u8>, from: int) -> Seq<u8> {
    let end = from + run(text, from);
    if end < text.len() && end > from && text[end - 1] == 13 {
        text.subrange(from, end - 1)
    } else {
        text.subrange(from, end)
    }
}

/// What the text from `from` on adds to the scroll-back of a window of width
/// `w`: each of its lines, cut to the width. A line feed at the very end of
/// the text starts no line.
pub open spec fn shown(text: Seq<u8>, from: int, w: nat) -> Seq<Seq<u8>>
    decreases text.len() - from,
{
    let next = from + run(text, from) + 1;
    if from < 0 || from >= text.len() {
        Seq::empty()
    } else if next >= text.len() {
        wrapped(line_at(text, from), w)
    } else {
        wrapped(line_at(text, from), w) + shown(text, next, w)
    }
}

/// No cut has fallen inside a character: every piece is well-formed UTF-8.
pub open spec fn cut_cleanly(pieces: Seq<Seq<u8>>) -> bool {
    forall|k: int| 0 <= k < pieces.len() ==> valid_utf8(#[trigger] pieces[k])
}

/// Whether a text can be put into the scroll-back of a window of width `w`:
/// the window has a width, and no cut falls inside a character.
pub open spec fn fits_window(text: Seq<char>, w: u16) -> bool {
    w > 0 && cut_cleanly(shown(encode_utf8(text), 0, w as nat))
}

/// A run goes on over every byte that is no line feed.
pub proof fn lemma_run_on(text: Seq<u8>, from: int, upto: int)
    requires
        0 <= from <= upto <= text.len(),
        forall|j: int| from <= j < upto ==> text[j] != 10,
    ensures
        run(text, from) == (upto - from) + run(text, upto),
    decreases upto - from,
{
    if from < upto {
        lemma_run_on(text, from + 1, upto);
    }
}

/// Strings are cut cleanly: the encoding of a string is well-formed.
pub proof fn lemma_strings_are_clean(v: Seq<String>)
    ensures
        cut_cleanly(encodings(v)),
{
    assert forall|k: int| 0 <= k < encodings(v).len() implies valid_utf8(
        #[trigger] encodings(v)[k],
    ) by {
        encode_utf8_valid_utf8(v[k]@);
    }
}

/// Pieces of which a part is not cut cleanly are not cut cleanly.
pub proof fn lemma_part_unclean(before: Seq<Seq<u8>>, part: Seq<Seq<u8>>, after: Seq<Seq<u8>>)
    requires
        !cut_cleanly(part),
    ensures
        !cut_cleanly(before + part + after),
{
    let k = choose|k: int| 0 <= k < part.len() && !valid_utf8(#[trigger] part[k]);
    assert((before + part + after)[before.len() + k] == part[k]);
}

/// Appends to `out` the pieces of one line, as strings. Gives up, and says
/// so, at the first piece that is not well-formed UTF-8.
fn wrap_line(out: &mut Vec<String>, line: &[u8], w: usize) -> (ok: bool)
    requires
        w > 0,
    ensures
        ok <==> cut_cleanly(wrapped(line@, w as nat)),
        ok ==> encodings(final(out)@) == encodings(old(out)@) + wrapped(line@, w as nat),
{
    let n = line.len();
    let ghost all = wrapped(line@, w as nat);
    let ghost start_len = old(out)@.len();
    let mut start: usize = 0;
    assert(line@.subrange(0, n as int) =~= line@);
    assert(encodings(out@) + all =~= encodings(old(out)@) + all);
    while n - start > w
        invariant
            start <= n,
            n == line@.len(),
            w > 0,
            all == wrapped(line@, w as nat),
            out@.len() >= start_len,
            start_len == old(out)@.len(),
            encodings(out@) + wrapped(line@.subrange(start as int, n as int), w as nat)
                == encodings(old(out)@) + all,
        decreases n - start,
    {
        let ghost rest = line@.subrange(start as int, n as int);
        let ghost before = encodings(out@);
        let piece = vstd::slice::slice_subrange(line, start, start + w);
        proof {
            assert(rest.subrange(0, w as int) =~= piece@);
            assert(rest.subrange(w as int, rest.len() as int) =~= line@.subrange(
                start + w,
                n as int,
            ));
            assert(encodings(old(out)@).len() == start_len);
            assert(before.len() == out@.len());
            assert(wrapped(rest, w as nat)[0] == piece@);
            assert((before + wrapped(rest, w as nat))[before.len() as int] == piece@);
            assert((before + wrapped(rest, w as nat)).len() == start_len + all.len());
            assert((encodings(old(out)@) + all)[before.len() as int] == all[before.len()
                - start_len]);
        }
        match string_of(piece) {
            Some(s) => {
                out.push(s);
                assert(encodings(out@) =~= before.push(piece@));
                assert(before.push(piece@) + wrapped(line@.subrange(start + w, n as int), w as nat)
                    =~= before + wrapped(rest, w as nat));
            },
            None => {
                assert(!valid_utf8(all[before.len() - start_len]));
                return false;
            },
        }
        start = start + w;
    }
    let ghost rest = line@.subrange(start as int, n as int);
    let ghost before = encodings(out@);
    let mut last: Vec<u8> = Vec::new();
    push_all(&mut last, vstd::slice::slice_subrange(line, start, n));
    let mut k: usize = n - start;
    assert(last@ =~= rest + blanks(0));
    while k < w
        invariant
            n - start <= k <= w,
            rest.len() == n - start,
            last@ == rest + blanks((k - rest.len()) as nat),
        decreases w - k,
    {
        last.push(0x20u8);
        k = k + 1;
        assert(last@ =~= rest + blanks((k - rest.len()) as nat));
    }
    proof {
        assert(wrapped(rest, w as nat) =~= seq![padded(rest, w as nat)]);
        assert(encodings(old(out)@).len() == start_len);
        assert(before.len() == out@.len());
        assert((before + wrapped(rest, w as nat))[before.len() as int] == last@);
        assert((before + wrapped(rest, w as nat)).len() == start_len + all.len());
        assert((encodings(old(out)@) + all)[before.len() as int] == all[before.len() - start_len]);
    }
    match string_of(last.as_slice()) {
        Some(s) => {
            out.push(s);
            proof {
                assert(encodings(out@) =~= before.push(last@));
                assert(before.push(last@) =~= before + wrapped(rest, w as nat));
                lemma_strings_are_clean(out@);
                assert forall|j: int| 0 <= j < all.len() implies valid_utf8(#[trigger] all[j]) by {
                    assert((encodings(old(out)@) + all)[start_len + j] == all[j]);
                    assert(encodings(out@)[start_len + j] == all[j]);
                }
            }
            true
        },
        None => {
            assert(!valid_utf8(all[before.len() - start_len]));
            false
        },
    }
}

/// The lines that a text adds to the scroll-back of a window of width `w`,
/// as strings; nothing for a text that does not fit the window.
pub fn wrap_text(message: &str, w: u16) -> (res: Option<Vec<String>>)
    ensures
        res is Some <==> fits_window(message@, w),
        res matches Some(lines) ==> encodings(lines@) == shown(
            encode_utf8(message@),
            0,
            w as nat,
        ),
{
    if w == 0 {
        return None;
    }
    let text = message.as_bytes();
    let n = text.len();
    let width = w as usize;
    let ghost all = shown(text@, 0, w as nat);
    let mut lines: Vec<String> = Vec::new();
    let mut from: usize = 0;
    assert(encodings(lines@) + all =~= all);
    while from < n
        invariant
            from <= n,
            n == text@.len(),
            text@ == encode_utf8(message@),
            width == w,
            w > 0,
            all == shown(text@, 0, w as nat),
            encodings(lines@) + shown(text@, from as int, w as nat) == all,
        decreases n - from,
    {
        let mut end: usize = from;
        while end < n && text[end] != 10
            invariant
                from <= end <= n,
                n == text@.len(),
                forall|j: int| from <= j < end ==> text@[j] != 10,
            decreases n - end,
        {
            end = end + 1;
        }
        proof {
            lemma_run_on(text@, from as int, end as int);
            assert(run(text@, end as int) == 0);
        }
        let stop = if end < n && end > from && text[end - 1] == 13 {
            end - 1
        } else {
            end
        };
        let line = vstd::slice::slice_subrange(text, from, stop);
        assert(line@ == line_at(text@, from as int));
        let ghost before = encodings(lines@);
        let ghost after_line = if end + 1 >= n {
            Seq::<Seq<u8>>::empty()
        } else {
            shown(text@, end + 1, w as nat)
        };
        assert(shown(text@, from as int, w as nat) =~= wrapped(line@, w as nat) + after_line);
        assert(all =~= before + wrapped(line@, w as nat) + after_line);
        if !wrap_line(&mut lines, line, width) {
            proof {
                lemma_part_unclean(before, wrapped(line@, w as nat), after_line);
            }
            return None;
        }
        assert(encodings(lines@) + after_line =~= before + (wrapped(line@, w as nat) + after_line));
        if end < n {
            from = end + 1;
        } else {
            from = n;
        }
    }
    proof {
        assert(encodings(lines@) + Seq::<Seq<u8>>::empty() =~= encodings(lines@));
        lemma_strings_are_clean(lines@);
    }
    Some(lines)
}

/// Appends a text to the scroll-back, line by line, each line cut to the
/// width of the window and its last piece filled up with blanks; the window
/// moves down by as many lines as were appended.
///
/// Left out are the window without width, for which cutting never ends, and
/// the text of which a cut falls inside a character, which cannot be cut.
/// `try_push_to_output` tells these apart at run time.
pub fn push_to_output(output: &mut Vec<String>, message: String, window: &mut Window)
    requires
        fits_window(message@, old(window).w),
        old(window).scroll_ptr + shown(encode_utf8(message@), 0, old(window).w as nat).len()
            <= usize::MAX,
    ensures
        encodings(final(output)@) == encodings(old(output)@) + shown(
            encode_utf8(message@),
            0,
            old(window).w as nat,
        ),
        final(window).scroll_ptr == old(window).scroll_ptr + shown(
            encode_utf8(message@),
            0,
            old(window).w as nat,
        ).len(),
        final(window).x == old(window).x,
        final(window).y == old(window).y,
        final(window).w == old(window).w,
        final(window).h == old(window).h,
{
    match wrap_text(message.as_str(), window.w) {
        Some(lines) => {
            let mut lines = lines;
            let ghost added = lines@;
            assert(encodings(added).len() == added.len());
            window.scroll_ptr = window.scroll_ptr + lines.len();
            output.append(&mut lines);
            assert(encodings(output@) =~= encodings(old(output)@) + encodings(added));
        },
        None => {},
    }
}

/// As `push_to_output`, for any text and any window: the text is appended
/// where it fits the window and the count of lines does not overflow; else
/// nothing changes, and the result says so.
pub fn try_push_to_output(output: &mut Vec<String>, message: String, window: &mut Window) -> (done:
    bool)
    ensures
        done <==> fits_window(message@, old(window).w) && old(window).scroll_ptr + shown(
            encode_utf8(message@),
            0,
            old(window).w as nat,
        ).len() <= usize::MAX,
        done ==> encodings(final(output)@) == encodings(old(output)@) + shown(
            encode_utf8(message@),
            0,
            old(window).w as nat,
        ) && final(window).scroll_ptr == old(window).scroll_ptr + shown(
            encode_utf8(message@),
            0,
            old(window).w as nat,
        ).len(),
        !done ==> final(output)@ == old(output)@ && final(window).scroll_ptr == old(
            window,
        ).scroll_ptr,
        final(window).x == old(window).x,
        final(window).y == old(window).y,
        final(window).w == old(window).w,
        final(window).h == old(window).h,
{
    match wrap_text(message.as_str(), window.w) {
        Some(lines) => {
            let mut lines = lines;
            let ghost added = lines@;
            assert(encodings(added).len() == added.len());
            if lines.len() > usize::MAX - window.scroll_ptr {
                return false;
            }
            window.scroll_ptr = window.scroll_ptr + lines.len();
            output.append(&mut lines);
            assert(encodings(output@) =~= encodings(old(output)@) + encodings(added));
            true
        },
        None => false,
    }
}

} // verus!
