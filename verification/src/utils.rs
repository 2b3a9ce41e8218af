//! ## Utils
//!
//! Utility functions to work with components: the styles of a span, the
//! block around a component, the cursor position in a UTF-8 text and the
//! wrapping of styled spans into lines of bounded width.

use vstd::prelude::*;
use vstd::string::{StrSliceExecFns, StringExecFns};

use crate::props::{Alignment, BorderType, Borders, Color, Props, Style, TextSpan};

verus! {

// -- text measured and wrapped by outside crates

/// Displayed width, in terminal columns, of a text, as `unicode-width`
/// measures it.
pub uninterp spec fn display_width_of(text: Seq<char>) -> usize;

/// The lines into which `textwrap` wraps a text at a width.
pub uninterp spec fn wrapped_lines_of(text: Seq<char>, width: usize) -> Seq<Seq<char>>;

/// Every character is printable ASCII (a space up to a tilde).
pub open spec fn is_printable_ascii(text: Seq<char>) -> bool {
    forall|i: int| 0 <= i < text.len() ==> ' ' <= #[trigger] text[i] <= '~'
}

/// A character of one of the plain ranges whose display width the
/// `unicode-width` rules fix alone: printable ASCII, the basic Cyrillic
/// letters, the CJK unified ideographs and the emoticons.
pub open spec fn is_plain_char(c: char) -> bool {
    (' ' <= c <= '~') || ('\u{410}' <= c <= '\u{44F}') || ('\u{4E00}' <= c <= '\u{9FFF}') || (
    '\u{1F600}' <= c <= '\u{1F64F}')
}

/// Columns taken by a plain character: one for ASCII and Cyrillic
/// letters, two for the wide CJK ideographs and the emoticons.
pub open spec fn plain_char_width(c: char) -> int {
    if (' ' <= c <= '~') || ('\u{410}' <= c <= '\u{44F}') {
        1
    } else {
        2
    }
}

/// Every character of the text is plain.
pub open spec fn is_plain_text(text: Seq<char>) -> bool {
    forall|i: int| 0 <= i < text.len() ==> is_plain_char(#[trigger] text[i])
}

/// Sum of the widths of the characters of a plain text.
pub open spec fn plain_width(text: Seq<char>) -> int
    decreases text.len(),
{
    if text.len() == 0 {
        0
    } else {
        plain_width(text.drop_last()) + plain_char_width(text.last())
    }
}

/// Calls `unicode_width::UnicodeWidthStr::width`.
///
/// Claims that the result is the named width of the text; that the empty
/// text has width zero; that one character alone takes at most three
/// columns (the widest, U+17D8, takes three; every other character at
/// most two); and that a text of plain characters is as wide as
/// the sum of their widths. The crate's rules give printable ASCII and
/// Cyrillic letters one column and East-Asian wide characters (the CJK
/// ideographs, the emoticons) two; the sequences it measures otherwise
/// each involve a control, joiner, selector or modifier character, none of
/// which is plain. Other texts are left to the name.
#[verifier::external_body]
fn display_width(text: &str) -> (width: usize)
    ensures
        width == display_width_of(text@),
        text@.len() == 0 ==> width == 0,
        text@.len() == 1 ==> width <= 3,
        is_plain_text(text@) ==> width == plain_width(text@),
{
    unicode_width::UnicodeWidthStr::width(text)
}

/// Calls `textwrap::wrap` with the width as its options, and turns each
/// line into an owned `String`.
///
/// Claims only that the lines are the named lines of the text at that
/// width: how `textwrap` breaks a text is not restated here.
#[verifier::external_body]
fn wrap_text(text: &str, width: usize) -> (lines: Vec<String>)
    ensures
        lines@.len() == wrapped_lines_of(text@, width).len(),
        forall|i: int| 0 <= i < lines@.len() ==> #[trigger] lines@[i]@ == wrapped_lines_of(text@, width)[i],
{
    textwrap::wrap(text, width).into_iter().map(|line| line.into_owned()).collect()
}

/// Collects characters into a `String` (std's `FromIterator<&char>`).
///
/// Claims that the string holds exactly those characters, in order.
#[verifier::external_body]
fn string_from_chars(chars: &[char]) -> (s: String)
    ensures
        s@ == chars@,
{
    chars.iter().collect::<String>()
}


// -- styles

/// The colours and modifiers a span is drawn with: its own, or the
/// component's where the span keeps the default (`Color::Reset`, no
/// modifier), or the defaults where the component sets none either.
pub open spec fn styles_of(props: Props, span: TextSpan) -> (Color, Color, u16) {
    (
        if span.fg == Color::Reset {
            match props.foreground {
                Some(c) => c,
                None => Color::Reset,
            }
        } else {
            span.fg
        },
        if span.bg == Color::Reset {
            match props.background {
                Some(c) => c,
                None => Color::Reset,
            }
        } else {
            span.bg
        },
        if span.modifiers == 0 {
            match props.text_props {
                Some(m) => m,
                None => 0,
            }
        } else {
            span.modifiers
        },
    )
}

/// ### use_or_default_styles
///
/// Returns the styles to be used; in case in span are default, use props'.
/// The values returned are `(foreground, background, modifiers)`
pub fn use_or_default_styles(props: &Props, span: &TextSpan) -> (styles: (Color, Color, u16))
    ensures
        styles == styles_of(*props, *span),
{
    (
        match span.fg {
            Color::Reset => match props.foreground {
                Some(c) => c,
                None => Color::Reset,
            },
            _ => span.fg,
        },
        match span.bg {
            Color::Reset => match props.background {
                Some(c) => c,
                None => Color::Reset,
            },
            _ => span.bg,
        },
        if span.modifiers == 0 {
            match props.text_props {
                Some(m) => m,
                None => 0,
            }
        } else {
            span.modifiers
        },
    )
}

/// The style a span is drawn with: its colours and modifiers on the
/// default style.
pub open spec fn span_style(props: Props, span: TextSpan) -> Style {
    let (fg, bg, modifiers) = styles_of(props, span);
    Style { fg: Some(fg), bg: Some(bg), add_modifier: modifiers, sub_modifier: 0 }
}

/// A span's own colour wins; the component's colour (or the default)
/// stands in only for a span left in the default colour. A span with
/// modifiers of its own keeps exactly those; the component's modifiers (or
/// none) stand in only for a span that has none.
pub proof fn own_styles_win(props: Props, span: TextSpan)
    ensures
        span.fg != Color::Reset ==> styles_of(props, span).0 == span.fg,
        span.fg == Color::Reset ==> styles_of(props, span).0 == props.foreground.unwrap_or(Color::Reset),
        span.bg != Color::Reset ==> styles_of(props, span).1 == span.bg,
        span.bg == Color::Reset ==> styles_of(props, span).1 == props.background.unwrap_or(Color::Reset),
        span.modifiers != 0 ==> styles_of(props, span).2 == span.modifiers,
        span.modifiers == 0 ==> styles_of(props, span).2 == props.text_props.unwrap_or(0),
        span_style(props, span).fg == Some(styles_of(props, span).0),
        span_style(props, span).bg == Some(styles_of(props, span).1),
        span_style(props, span).add_modifier == styles_of(props, span).2,
        span_style(props, span).sub_modifier == 0,
{
}

// -- lines of styled text

/// A styled piece of text, as drawn on a line.
#[derive(Debug)]
pub struct Span {
    pub content: String,
    pub style: Style,
}

/// A span as a value: its characters and its style.
pub open spec fn span_view(span: Span) -> (Seq<char>, Style) {
    (span.content@, span.style)
}

/// A line as a sequence of span values.
pub open spec fn line_view(line: Vec<Span>) -> Seq<(Seq<char>, Style)> {
    line@.map_values(|span: Span| span_view(span))
}

/// Lines as sequences of span values.
pub open spec fn lines_view(lines: Vec<Vec<Span>>) -> Seq<Seq<(Seq<char>, Style)>> {
    lines@.map_values(|line: Vec<Span>| line_view(line))
}

/// A span to place on a line, with its displayed width.
#[derive(Debug)]
pub struct Piece {
    pub span: Span,
    pub width: usize,
}

/// A piece as a value: characters, style and width.
pub open spec fn piece_view(piece: Piece) -> (Seq<char>, Style, usize) {
    (piece.span.content@, piece.span.style, piece.width)
}

/// Pieces as values.
pub open spec fn pieces_view(pieces: Seq<Piece>) -> Seq<(Seq<char>, Style, usize)> {
    pieces.map_values(|piece: Piece| piece_view(piece))
}

/// A piece value without its width.
pub open spec fn piece_span(piece: (Seq<char>, Style, usize)) -> (Seq<char>, Style) {
    (piece.0, piece.1)
}

/// Lines filled so far, the line being filled and its width, after
/// placing `pieces` one after the other: a piece that would make the
/// current line wider than `width` starts a new line.
pub open spec fn fill_state(pieces: Seq<(Seq<char>, Style, usize)>, width: usize) -> (
    Seq<Seq<(Seq<char>, Style)>>,
    Seq<(Seq<char>, Style)>,
    int,
)
    decreases pieces.len(),
{
    if pieces.len() == 0 {
        (seq![], seq![], 0)
    } else {
        let (done, line, line_width) = fill_state(pieces.drop_last(), width);
        let piece = pieces.last();
        if line_width + piece.2 > width {
            (done.push(line), seq![piece_span(piece)], piece.2 as int)
        } else {
            (done, line.push(piece_span(piece)), line_width + piece.2)
        }
    }
}

/// The lines that `pieces` fill at `width`: the filled lines, then the
/// last line unless it is empty.
pub open spec fn filled_lines(pieces: Seq<(Seq<char>, Style, usize)>, width: usize) -> Seq<
    Seq<(Seq<char>, Style)>,
> {
    let (done, line, _) = fill_state(pieces, width);
    if line.len() > 0 {
        done.push(line)
    } else {
        done
    }
}

/// Places the pieces on lines no wider than `width`, in order: a piece
/// goes on the current line while the line stays within `width`, and
/// starts a new line otherwise.
pub fn fill_lines(pieces: &[Piece], width: usize) -> (lines: Vec<Vec<Span>>)
    ensures
        lines_view(lines) == filled_lines(pieces_view(pieces@), width),
{
    let ghost all = pieces_view(pieces@);
    let mut res: Vec<Vec<Span>> = Vec::new();
    let mut line: Vec<Span> = Vec::new();
    let mut line_width: usize = 0;
    let mut i: usize = 0;
    proof {
        assert(all.take(0) =~= Seq::<(Seq<char>, Style, usize)>::empty());
        assert(lines_view(res) =~= Seq::<Seq<(Seq<char>, Style)>>::empty());
        assert(line_view(line) =~= Seq::<(Seq<char>, Style)>::empty());
    }
    while i < pieces.len()
        invariant
            0 <= i <= pieces@.len(),
            all == pieces_view(pieces@),
            fill_state(all.take(i as int), width) == (lines_view(res), line_view(line), line_width as int),
        decreases pieces@.len() - i,
    {
        let ghost prev = all.take(i as int);
        let piece_width = pieces[i].width;
        let span = Span { content: pieces[i].span.content.clone(), style: pieces[i].span.style };
        proof {
            assert(all.take(i + 1).drop_last() =~= prev);
            assert(all.take(i + 1).last() == piece_view(pieces@[i as int]));
        }
        if line_width > width || piece_width > width - line_width {
            let ghost old_res = res;
            let ghost old_line = line;
            res.push(line);
            line = Vec::new();
            line_width = 0;
            proof {
                assert(lines_view(res) =~= lines_view(old_res).push(line_view(old_line)));
            }
        }
        let ghost before = line;
        line_width = line_width + piece_width;
        line.push(span);
        proof {
            assert(line_view(line) =~= line_view(before).push(span_view(span)));
            if line_view(before).len() == 0 {
                assert(line_view(line) =~= seq![span_view(span)]);
            }
        }
        i = i + 1;
    }
    proof {
        assert(all.take(i as int) =~= all);
    }
    if line.len() > 0 {
        let ghost old_res = res;
        let ghost old_line = line;
        res.push(line);
        proof {
            assert(lines_view(res) =~= lines_view(old_res).push(line_view(old_line)));
        }
    }
    res
}


// -- cutting a line into chunks that fit

/// The chunks of `text` from the chunk that starts at `start` and holds
/// the characters up to `end`: a chunk grows one character at a time while
/// it stays within `width` columns, and holds at least one character.
pub open spec fn chunks_from(text: Seq<char>, start: int, end: int, width: usize) -> Seq<Seq<char>>
    decreases text.len() - end,
{
    if end >= text.len() {
        seq![text.subrange(start, text.len() as int)]
    } else if display_width_of(text.subrange(start, end + 1)) <= width {
        chunks_from(text, start, end + 1, width)
    } else {
        seq![text.subrange(start, end)] + chunks_from(text, end, end + 1, width)
    }
}

/// The chunks a non-empty text is cut into so that each fits in `width`.
pub open spec fn text_chunks(text: Seq<char>, width: usize) -> Seq<Seq<char>> {
    chunks_from(text, 0, 1, width)
}

/// Chunks put end to end give back the text; each holds at least one
/// character and fits in `width`, unless it is one character alone; and
/// each chunk but the last is as long as it could grow: with the next
/// character added it would not fit.
pub proof fn chunks_cover_the_text(text: Seq<char>, start: int, end: int, width: usize)
    requires
        0 <= start < end <= text.len(),
        end == start + 1 || display_width_of(text.subrange(start, end)) <= width,
    ensures
        chunks_from(text, start, end, width).flatten() == text.subrange(start, text.len() as int),
        forall|k: int|
            0 <= k < chunks_from(text, start, end, width).len() ==> (#[trigger] chunks_from(
                text,
                start,
                end,
                width,
            )[k]).len() > 0 && (display_width_of(chunks_from(text, start, end, width)[k]) <= width
                || chunks_from(text, start, end, width)[k].len() == 1),
        forall|k: int|
            0 <= k < chunks_from(text, start, end, width).len() - 1 ==> display_width_of(
                #[trigger] chunks_from(text, start, end, width)[k] + seq![
                    chunks_from(text, start, end, width)[k + 1][0],
                ],
            ) > width,
    decreases text.len() - end,
{
    broadcast use Seq::lemma_flatten_singleton;

    if end >= text.len() {
        let one = seq![text.subrange(start, text.len() as int)];
        assert(one.len() == 1);
    } else if display_width_of(text.subrange(start, end + 1)) <= width {
        chunks_cover_the_text(text, start, end + 1, width);
    } else {
        chunks_cover_the_text(text, end, end + 1, width);
        let first = text.subrange(start, end);
        let rest = chunks_from(text, end, end + 1, width);
        let all = seq![first] + rest;
        assert(all.drop_first() =~= rest);
        assert(all.first() == first);
        assert(all.flatten() == first + rest.flatten());
        assert(first + text.subrange(end, text.len() as int) =~= text.subrange(start, text.len() as int));
        assert forall|k: int| 0 <= k < all.len() implies (#[trigger] all[k]).len() > 0 && (
        display_width_of(all[k]) <= width || all[k].len() == 1) by {
            if k > 0 {
                assert(all[k] == rest[k - 1]);
            }
        }
        assert(rest.len() > 0 && rest[0].len() > 0);
        assert(rest.flatten() == rest[0] + rest.drop_first().flatten()) by {
            assert(rest.first() == rest[0]);
        }
        assert(rest[0][0] == text[end]) by {
            assert(text.subrange(end, text.len() as int)[0] == text[end]);
            assert((rest[0] + rest.drop_first().flatten())[0] == rest[0][0]);
        }
        assert(first + seq![text[end]] =~= text.subrange(start, end + 1));
        assert forall|k: int| 0 <= k < all.len() - 1 implies display_width_of(
            #[trigger] all[k] + seq![all[k + 1][0]],
        ) > width by {
            if k > 0 {
                assert(all[k] == rest[k - 1]);
                assert(all[k + 1] == rest[k]);
            } else {
                assert(all[0] == first);
                assert(all[1] == rest[0]);
            }
        }
    }
}

/// Strings as character sequences.
pub open spec fn strings_view(v: Seq<String>) -> Seq<Seq<char>> {
    v.map_values(|s: String| s@)
}

/// Cuts a non-empty text into chunks that each fit in `width`, but for a
/// lone character wider than `width`.
pub fn split_to_width(text: &str, width: usize) -> (chunks: Vec<String>)
    requires
        text@.len() > 0,
    ensures
        strings_view(chunks@) == text_chunks(text@, width),
{
    let n = text.unicode_len();
    let mut out: Vec<String> = Vec::new();
    let mut start: usize = 0;
    let mut end: usize = 1;
    proof {
        assert(strings_view(out@) + chunks_from(text@, 0, 1, width) =~= text_chunks(text@, width));
    }
    while end < n
        invariant
            n == text@.len(),
            0 <= start < end <= n,
            strings_view(out@) + chunks_from(text@, start as int, end as int, width) == text_chunks(
                text@,
                width,
            ),
        decreases n - end,
    {
        let w = display_width(text.substring_char(start, end + 1));
        if w <= width {
            end = end + 1;
        } else {
            let chunk = String::from_str(text.substring_char(start, end));
            let ghost before = out@;
            out.push(chunk);
            proof {
                assert(strings_view(out@) =~= strings_view(before).push(chunk@));
                let rest = chunks_from(text@, end as int, end as int + 1, width);
                assert(strings_view(before) + (seq![chunk@] + rest) =~= strings_view(out@) + rest);
            }
            start = end;
            end = end + 1;
        }
    }
    let chunk = String::from_str(text.substring_char(start, end));
    let ghost before = out@;
    out.push(chunk);
    proof {
        assert(strings_view(out@) =~= strings_view(before).push(chunk@));
        assert(strings_view(before) + seq![chunk@] =~= strings_view(out@));
    }
    out
}

// -- laws of filling lines

/// The pieces without their widths.
pub open spec fn piece_spans(pieces: Seq<(Seq<char>, Style, usize)>) -> Seq<(Seq<char>, Style)> {
    pieces.map_values(|piece: (Seq<char>, Style, usize)| piece_span(piece))
}

/// Each piece's width is the displayed width of its characters.
pub open spec fn widths_measured(pieces: Seq<(Seq<char>, Style, usize)>) -> bool {
    forall|i: int| 0 <= i < pieces.len() ==> #[trigger] pieces[i].2 == display_width_of(pieces[i].0)
}

/// No piece is wider than `width`.
pub open spec fn pieces_fit(pieces: Seq<(Seq<char>, Style, usize)>, width: usize) -> bool {
    forall|i: int| 0 <= i < pieces.len() ==> #[trigger] pieces[i].2 <= width
}

/// Displayed width of a line: the sum of the widths of its spans.
pub open spec fn line_display_width(line: Seq<(Seq<char>, Style)>) -> int
    decreases line.len(),
{
    if line.len() == 0 {
        0
    } else {
        line_display_width(line.drop_last()) + display_width_of(line.last().0)
    }
}

/// Sum of the widths of the pieces.
pub open spec fn pieces_total(pieces: Seq<(Seq<char>, Style, usize)>) -> int
    decreases pieces.len(),
{
    if pieces.len() == 0 {
        0
    } else {
        pieces_total(pieces.drop_last()) + pieces.last().2
    }
}

proof fn fill_state_keeps_pieces(pieces: Seq<(Seq<char>, Style, usize)>, width: usize)
    ensures
        fill_state(pieces, width).0.flatten() + fill_state(pieces, width).1 == piece_spans(pieces),
    decreases pieces.len(),
{
    broadcast use Seq::lemma_flatten_push;

    if pieces.len() == 0 {
        assert(Seq::<Seq<(Seq<char>, Style)>>::empty().flatten() =~= Seq::<(Seq<char>, Style)>::empty());
        assert(piece_spans(pieces) =~= Seq::<(Seq<char>, Style)>::empty());
    } else {
        let prev = pieces.drop_last();
        fill_state_keeps_pieces(prev, width);
        let (done, line, line_width) = fill_state(prev, width);
        let piece = pieces.last();
        assert(piece_spans(pieces) =~= piece_spans(prev).push(piece_span(piece)));
        if line_width + piece.2 > width {
            assert(done.push(line).flatten() =~= done.flatten() + line);
            assert(done.push(line).flatten() + seq![piece_span(piece)] =~= piece_spans(pieces));
        } else {
            assert(done.flatten() + line.push(piece_span(piece)) =~= piece_spans(pieces));
        }
    }
}

/// Filling lines loses no piece and changes no order: the lines, put end
/// to end, are the pieces.
pub proof fn filling_keeps_every_piece(pieces: Seq<(Seq<char>, Style, usize)>, width: usize)
    ensures
        filled_lines(pieces, width).flatten() == piece_spans(pieces),
{
    broadcast use Seq::lemma_flatten_push;

    fill_state_keeps_pieces(pieces, width);
    let (done, line, _) = fill_state(pieces, width);
    if line.len() > 0 {
        assert(done.push(line).flatten() =~= done.flatten() + line);
    } else {
        assert(done.flatten() + line =~= done.flatten());
    }
}

proof fn fill_state_fits(pieces: Seq<(Seq<char>, Style, usize)>, width: usize)
    requires
        widths_measured(pieces),
        pieces_fit(pieces, width),
    ensures
        ({
            let (done, line, line_width) = fill_state(pieces, width);
            &&& line_width == line_display_width(line)
            &&& line_width <= width
            &&& forall|j: int|
                0 <= j < done.len() ==> (#[trigger] done[j]).len() > 0 && line_display_width(done[j])
                    <= width
        }),
    decreases pieces.len(),
{
    if pieces.len() > 0 {
        let prev = pieces.drop_last();
        assert(widths_measured(prev)) by {
            assert forall|i: int| 0 <= i < prev.len() implies #[trigger] prev[i].2 == display_width_of(
                prev[i].0,
            ) by {
                assert(prev[i] == pieces[i]);
            }
        }
        assert(pieces_fit(prev, width)) by {
            assert forall|i: int| 0 <= i < prev.len() implies #[trigger] prev[i].2 <= width by {
                assert(prev[i] == pieces[i]);
            }
        }
        fill_state_fits(prev, width);
        let (done, line, line_width) = fill_state(prev, width);
        let piece = pieces.last();
        assert(piece == pieces[pieces.len() - 1]);
        assert(piece.2 <= width);
        assert(piece.2 == display_width_of(piece.0));
        if line_width + piece.2 > width {
            assert(line.len() > 0);
            let one = seq![piece_span(piece)];
            assert(one.drop_last() =~= Seq::<(Seq<char>, Style)>::empty());
            assert(line_display_width(one.drop_last()) == 0);
            assert(one.last() == piece_span(piece));
            assert(line_display_width(one) == display_width_of(piece.0));
            assert forall|j: int| 0 <= j < done.push(line).len() implies (#[trigger] done.push(
                line,
            )[j]).len() > 0 && line_display_width(done.push(line)[j]) <= width by {
                if j < done.len() {
                    assert(done.push(line)[j] == done[j]);
                }
            }
        } else {
            assert(line.push(piece_span(piece)).drop_last() =~= line);
        }
    }
}

/// When no piece is wider than `width`, every line holds at least one
/// piece and is no wider than `width`.
pub proof fn filled_lines_fit(pieces: Seq<(Seq<char>, Style, usize)>, width: usize)
    requires
        widths_measured(pieces),
        pieces_fit(pieces, width),
    ensures
        forall|j: int|
            0 <= j < filled_lines(pieces, width).len() ==> (#[trigger] filled_lines(pieces, width)[j]).len()
                > 0 && line_display_width(filled_lines(pieces, width)[j]) <= width,
{
    fill_state_fits(pieces, width);
    let (done, line, line_width) = fill_state(pieces, width);
    if line.len() > 0 {
        assert forall|j: int| 0 <= j < done.push(line).len() implies (#[trigger] done.push(line)[j]).len()
            > 0 && line_display_width(done.push(line)[j]) <= width by {
            if j < done.len() {
                assert(done.push(line)[j] == done[j]);
            }
        }
    }
}

/// A break between two lines is forced: the first piece of the next line
/// did not fit after the line before it.
pub open spec fn break_forced(
    line: Seq<(Seq<char>, Style)>,
    next: Seq<(Seq<char>, Style)>,
    width: usize,
) -> bool {
    next.len() > 0 && line_display_width(line) + display_width_of(next[0].0) > width
}

proof fn fill_state_breaks(pieces: Seq<(Seq<char>, Style, usize)>, width: usize)
    requires
        widths_measured(pieces),
    ensures
        ({
            let (done, line, line_width) = fill_state(pieces, width);
            &&& line_width == line_display_width(line)
            &&& forall|k: int|
                0 <= k < done.len() - 1 ==> break_forced(#[trigger] done[k], done[k + 1], width)
            &&& done.len() > 0 ==> break_forced(done.last(), line, width)
        }),
    decreases pieces.len(),
{
    if pieces.len() > 0 {
        let prev = pieces.drop_last();
        assert(widths_measured(prev)) by {
            assert forall|i: int| 0 <= i < prev.len() implies #[trigger] prev[i].2 == display_width_of(
                prev[i].0,
            ) by {
                assert(prev[i] == pieces[i]);
            }
        }
        fill_state_breaks(prev, width);
        let (done, line, line_width) = fill_state(prev, width);
        let piece = pieces.last();
        assert(piece == pieces[pieces.len() - 1]);
        assert(piece.2 == display_width_of(piece.0));
        if line_width + piece.2 > width {
            let one = seq![piece_span(piece)];
            assert(one.drop_last() =~= Seq::<(Seq<char>, Style)>::empty());
            assert(line_display_width(one.drop_last()) == 0);
            assert(one.last() == piece_span(piece));
            let nd = done.push(line);
            assert forall|k: int| 0 <= k < nd.len() - 1 implies break_forced(#[trigger] nd[k], nd[k + 1], width) by {
                if k < done.len() - 1 {
                    assert(nd[k] == done[k] && nd[k + 1] == done[k + 1]);
                } else {
                    assert(nd[k] == done.last() && nd[k + 1] == line);
                }
            }
            assert(nd.last() == line);
            assert(one[0] == piece_span(piece));
        } else {
            assert(line.push(piece_span(piece)).drop_last() =~= line);
            if done.len() > 0 {
                assert(line.push(piece_span(piece))[0] == line[0]);
            }
        }
    }
}

/// Every line break is forced: the first piece of each line, after the
/// first, did not fit at the end of the line before it.
pub proof fn every_break_is_forced(pieces: Seq<(Seq<char>, Style, usize)>, width: usize)
    requires
        widths_measured(pieces),
    ensures
        forall|k: int|
            0 <= k < filled_lines(pieces, width).len() - 1 ==> break_forced(
                #[trigger] filled_lines(pieces, width)[k],
                filled_lines(pieces, width)[k + 1],
                width,
            ),
{
    fill_state_breaks(pieces, width);
    let (done, line, _) = fill_state(pieces, width);
    if line.len() > 0 {
        let nd = done.push(line);
        assert forall|k: int| 0 <= k < nd.len() - 1 implies break_forced(#[trigger] nd[k], nd[k + 1], width) by {
            if k < done.len() - 1 {
                assert(nd[k] == done[k] && nd[k + 1] == done[k + 1]);
            } else {
                assert(nd[k] == done.last() && nd[k + 1] == line);
            }
        }
    }
}

proof fn fill_state_within_width(pieces: Seq<(Seq<char>, Style, usize)>, width: usize)
    requires
        pieces_total(pieces) <= width,
    ensures
        fill_state(pieces, width).0.len() == 0,
        fill_state(pieces, width).1 == piece_spans(pieces),
        fill_state(pieces, width).2 == pieces_total(pieces),
    decreases pieces.len(),
{
    if pieces.len() > 0 {
        let prev = pieces.drop_last();
        fill_state_within_width(prev, width);
        assert(piece_spans(pieces) =~= piece_spans(prev).push(piece_span(pieces.last())));
    } else {
        assert(piece_spans(pieces) =~= Seq::<(Seq<char>, Style)>::empty());
    }
}

/// Pieces that together fit in `width` make exactly one line.
pub proof fn pieces_within_width_make_one_line(pieces: Seq<(Seq<char>, Style, usize)>, width: usize)
    requires
        pieces.len() > 0,
        pieces_total(pieces) <= width,
    ensures
        filled_lines(pieces, width) == seq![piece_spans(pieces)],
{
    fill_state_within_width(pieces, width);
    assert(piece_spans(pieces).len() > 0);
    assert(Seq::<Seq<(Seq<char>, Style)>>::empty().push(piece_spans(pieces)) =~= seq![piece_spans(pieces)]);
}

// -- wrapping spans

/// The pieces one line of wrapped text gives: the line itself when it fits
/// in `width`, otherwise its chunks, each in `style`.
pub open spec fn line_pieces(line: Seq<char>, style: Style, width: usize) -> Seq<
    (Seq<char>, Style, usize),
> {
    if display_width_of(line) <= width {
        seq![(line, style, display_width_of(line))]
    } else {
        text_chunks(line, width).map_values(|c: Seq<char>| (c, style, display_width_of(c)))
    }
}

/// The pieces of the lines of wrapped text, in order.
pub open spec fn lines_pieces(lines: Seq<Seq<char>>, style: Style, width: usize) -> Seq<
    (Seq<char>, Style, usize),
>
    decreases lines.len(),
{
    if lines.len() == 0 {
        seq![]
    } else {
        lines_pieces(lines.drop_last(), style, width) + line_pieces(lines.last(), style, width)
    }
}

/// The pieces one span gives: the whole span when it fits in `width`,
/// otherwise the lines `textwrap` wraps it into, each in the span's style
/// and cut into chunks where it is still wider than `width`.
pub open spec fn span_pieces(props: Props, span: TextSpan, width: usize) -> Seq<
    (Seq<char>, Style, usize),
> {
    let style = span_style(props, span);
    let w = display_width_of(span.content@);
    if w > width {
        lines_pieces(wrapped_lines_of(span.content@, width), style, width)
    } else {
        seq![(span.content@, style, w)]
    }
}

proof fn measured_concat(a: Seq<(Seq<char>, Style, usize)>, b: Seq<(Seq<char>, Style, usize)>)
    requires
        widths_measured(a),
        widths_measured(b),
    ensures
        widths_measured(a + b),
{
    assert forall|i: int| 0 <= i < (a + b).len() implies #[trigger] (a + b)[i].2 == display_width_of(
        (a + b)[i].0,
    ) by {
        if i < a.len() {
            assert((a + b)[i] == a[i]);
        } else {
            assert((a + b)[i] == b[i - a.len()]);
        }
    }
}

proof fn lines_pieces_are_measured(lines: Seq<Seq<char>>, style: Style, width: usize)
    ensures
        widths_measured(lines_pieces(lines, style, width)),
    decreases lines.len(),
{
    if lines.len() > 0 {
        lines_pieces_are_measured(lines.drop_last(), style, width);
        let b = line_pieces(lines.last(), style, width);
        assert(widths_measured(b));
        measured_concat(lines_pieces(lines.drop_last(), style, width), b);
    }
}

proof fn lines_pieces_keep_style(lines: Seq<Seq<char>>, style: Style, width: usize)
    ensures
        forall|i: int|
            0 <= i < lines_pieces(lines, style, width).len() ==> #[trigger] lines_pieces(
                lines,
                style,
                width,
            )[i].1 == style,
    decreases lines.len(),
{
    if lines.len() > 0 {
        lines_pieces_keep_style(lines.drop_last(), style, width);
        let a = lines_pieces(lines.drop_last(), style, width);
        let b = line_pieces(lines.last(), style, width);
        assert forall|i: int| 0 <= i < b.len() implies #[trigger] b[i].1 == style by {}
        assert forall|i: int| 0 <= i < (a + b).len() implies #[trigger] (a + b)[i].1 == style by {
            if i < a.len() {
                assert((a + b)[i] == a[i]);
            } else {
                assert((a + b)[i] == b[i - a.len()]);
            }
        }
    }
}

/// Every piece a span gives, whether the span is kept whole or wrapped and
/// cut, carries that span's style; a span that fits is one piece, itself.
pub proof fn span_pieces_keep_the_style(props: Props, span: TextSpan, width: usize)
    ensures
        forall|i: int|
            0 <= i < span_pieces(props, span, width).len() ==> #[trigger] span_pieces(
                props,
                span,
                width,
            )[i].1 == span_style(props, span),
        display_width_of(span.content@) <= width ==> span_pieces(props, span, width) == seq![
            (span.content@, span_style(props, span), display_width_of(span.content@)),
        ],
{
    lines_pieces_keep_style(
        wrapped_lines_of(span.content@, width),
        span_style(props, span),
        width,
    );
}

/// Every piece of the text carries the style of one of the spans.
pub proof fn text_pieces_keep_span_styles(props: Props, spans: Seq<&TextSpan>, width: usize)
    ensures
        forall|i: int|
            0 <= i < text_pieces(props, spans, width).len() ==> exists|j: int|
                0 <= j < spans.len() && #[trigger] text_pieces(props, spans, width)[i].1 == span_style(
                    props,
                    *spans[j],
                ),
    decreases spans.len(),
{
    if spans.len() > 0 {
        let prev = spans.drop_last();
        text_pieces_keep_span_styles(props, prev, width);
        let a = text_pieces(props, prev, width);
        let span = *spans.last();
        let b = span_pieces(props, span, width);
        span_pieces_keep_the_style(props, span, width);
        assert forall|i: int| 0 <= i < (a + b).len() implies exists|j: int|
            0 <= j < spans.len() && #[trigger] (a + b)[i].1 == span_style(props, *spans[j]) by {
            if i < a.len() {
                assert((a + b)[i] == a[i]);
                let j = choose|j: int| 0 <= j < prev.len() && a[i].1 == span_style(props, *prev[j]);
                assert(prev[j] == spans[j]);
            } else {
                assert((a + b)[i] == b[i - a.len()]);
                assert(b[i - a.len()].1 == span_style(props, span));
                assert(spans[spans.len() - 1] == spans.last());
            }
        }
    }
}

/// The pieces of all spans, in order.
pub open spec fn text_pieces(props: Props, spans: Seq<&TextSpan>, width: usize) -> Seq<
    (Seq<char>, Style, usize),
>
    decreases spans.len(),
{
    if spans.len() == 0 {
        seq![]
    } else {
        text_pieces(props, spans.drop_last(), width) + span_pieces(props, *spans.last(), width)
    }
}

/// Every piece is measured: its width is the displayed width of its text.
pub proof fn text_pieces_are_measured(props: Props, spans: Seq<&TextSpan>, width: usize)
    ensures
        widths_measured(text_pieces(props, spans, width)),
    decreases spans.len(),
{
    if spans.len() > 0 {
        text_pieces_are_measured(props, spans.drop_last(), width);
        let a = text_pieces(props, spans.drop_last(), width);
        let b = span_pieces(props, *spans.last(), width);
        let span = *spans.last();
        lines_pieces_are_measured(
            wrapped_lines_of(span.content@, width),
            span_style(props, span),
            width,
        );
        assert forall|i: int| 0 <= i < (a + b).len() implies #[trigger] (a + b)[i].2 == display_width_of(
            (a + b)[i].0,
        ) by {
            if i < a.len() {
                assert((a + b)[i] == a[i]);
            } else {
                assert((a + b)[i] == b[i - a.len()]);
            }
        }
    }
}

/// Sum of the displayed widths of the spans' texts.
pub open spec fn spans_width(spans: Seq<&TextSpan>) -> int
    decreases spans.len(),
{
    if spans.len() == 0 {
        0
    } else {
        spans_width(spans.drop_last()) + display_width_of(spans.last().content@)
    }
}

/// A span kept whole, in its style, as drawn.
pub open spec fn whole_span(props: Props, span: &TextSpan) -> (Seq<char>, Style) {
    (span.content@, span_style(props, *span))
}

proof fn spans_width_nonnegative(spans: Seq<&TextSpan>)
    ensures
        spans_width(spans) >= 0,
    decreases spans.len(),
{
    if spans.len() > 0 {
        spans_width_nonnegative(spans.drop_last());
    }
}

/// No span is wider than `width` on its own.
pub open spec fn spans_each_fit(spans: Seq<&TextSpan>, width: usize) -> bool {
    forall|i: int| 0 <= i < spans.len() ==> display_width_of(#[trigger] spans[i].content@) <= width
}

proof fn fitting_spans_stay_whole(props: Props, spans: Seq<&TextSpan>, width: usize)
    requires
        spans_each_fit(spans, width),
    ensures
        piece_spans(text_pieces(props, spans, width)) == spans.map_values(|s: &TextSpan| whole_span(props, s)),
        pieces_total(text_pieces(props, spans, width)) == spans_width(spans),
        pieces_fit(text_pieces(props, spans, width), width),
    decreases spans.len(),
{
    if spans.len() == 0 {
        assert(piece_spans(text_pieces(props, spans, width)) =~= spans.map_values(
            |s: &TextSpan| whole_span(props, s),
        ));
    } else {
        let prev = spans.drop_last();
        assert(spans_each_fit(prev, width)) by {
            assert forall|i: int| 0 <= i < prev.len() implies display_width_of(#[trigger] prev[i].content@)
                <= width by {
                assert(prev[i] == spans[i]);
            }
        }
        fitting_spans_stay_whole(props, prev, width);
        let a = text_pieces(props, prev, width);
        let span = *spans.last();
        assert(spans[spans.len() - 1] == span);
        let piece = (span.content@, span_style(props, span), display_width_of(span.content@));
        assert(span_pieces(props, span, width) == seq![piece]);
        assert forall|i: int| 0 <= i < a.push(piece).len() implies #[trigger] a.push(piece)[i].2 <= width by {
            if i < a.len() {
                assert(a.push(piece)[i] == a[i]);
            }
        }
        assert(a + seq![piece] =~= a.push(piece));
        assert(a.push(piece).drop_last() =~= a);
        assert(piece_spans(a.push(piece)) =~= piece_spans(a).push(piece_span(piece)));
        assert(spans.map_values(|s: &TextSpan| whole_span(props, s)) =~= prev.map_values(
            |s: &TextSpan| whole_span(props, s),
        ).push(whole_span(props, spans.last())));
    }
}

proof fn spans_fitting_together_each_fit(spans: Seq<&TextSpan>, width: usize)
    requires
        spans_width(spans) <= width,
    ensures
        spans_each_fit(spans, width),
    decreases spans.len(),
{
    if spans.len() > 0 {
        let prev = spans.drop_last();
        spans_width_nonnegative(prev);
        spans_fitting_together_each_fit(prev, width);
        assert forall|i: int| 0 <= i < spans.len() implies display_width_of(#[trigger] spans[i].content@)
            <= width by {
            if i < prev.len() {
                assert(prev[i] == spans[i]);
            }
        }
    }
}

/// Spans that each fit in `width` stay whole and in order, each in its
/// style; no line is empty or wider than `width`; and every line break is
/// forced, the next span not fitting after the line before it.
pub proof fn fitting_spans_stay_whole_on_full_lines(props: Props, spans: Seq<&TextSpan>, width: usize)
    requires
        spans_each_fit(spans, width),
    ensures
        filled_lines(text_pieces(props, spans, width), width).flatten() == spans.map_values(
            |s: &TextSpan| whole_span(props, s),
        ),
        forall|j: int|
            0 <= j < filled_lines(text_pieces(props, spans, width), width).len() ==> (
            #[trigger] filled_lines(text_pieces(props, spans, width), width)[j]).len() > 0
                && line_display_width(filled_lines(text_pieces(props, spans, width), width)[j])
                <= width,
        forall|k: int|
            0 <= k < filled_lines(text_pieces(props, spans, width), width).len() - 1 ==> break_forced(
                #[trigger] filled_lines(text_pieces(props, spans, width), width)[k],
                filled_lines(text_pieces(props, spans, width), width)[k + 1],
                width,
            ),
{
    let pieces = text_pieces(props, spans, width);
    fitting_spans_stay_whole(props, spans, width);
    text_pieces_are_measured(props, spans, width);
    filling_keeps_every_piece(pieces, width);
    filled_lines_fit(pieces, width);
    every_break_is_forced(pieces, width);
}

/// Spans that together fit in `width` stay whole and make exactly one line.
pub proof fn fitting_spans_make_one_line(props: Props, spans: Seq<&TextSpan>, width: usize)
    requires
        spans.len() > 0,
        spans_width(spans) <= width,
    ensures
        filled_lines(text_pieces(props, spans, width), width) == seq![
            spans.map_values(|s: &TextSpan| whole_span(props, s)),
        ],
{
    spans_fitting_together_each_fit(spans, width);
    fitting_spans_stay_whole(props, spans, width);
    let pieces = text_pieces(props, spans, width);
    assert(piece_spans(pieces).len() == spans.len());
    assert(pieces.len() > 0);
    pieces_within_width_make_one_line(pieces, width);
}

/// Adds the pieces of one wrapped line: the line when it fits, otherwise
/// its chunks; each measured by `unicode-width`.
fn push_line_pieces(pieces: &mut Vec<Piece>, line: &String, style: Style, width: usize)
    ensures
        pieces_view(final(pieces)@) == pieces_view(old(pieces)@) + line_pieces(line@, style, width),
        width >= 3 && pieces_fit(pieces_view(old(pieces)@), width) ==> pieces_fit(
            pieces_view(final(pieces)@),
            width,
        ),
{
    let ghost before = pieces_view(pieces@);
    let line_width = display_width(line.as_str());
    if line_width <= width {
        let piece = Piece { span: Span { content: line.clone(), style }, width: line_width };
        pieces.push(piece);
        proof {
            assert(pieces_view(pieces@) =~= before.push(piece_view(piece)));
            assert(before.push(piece_view(piece)) =~= before + line_pieces(line@, style, width));
        }
    } else {
        let chunks = split_to_width(line.as_str(), width);
        let ghost expected = line_pieces(line@, style, width);
        proof {
            chunks_cover_the_text(line@, 0, 1, width);
        }
        let mut k: usize = 0;
        while k < chunks.len()
            invariant
                0 <= k <= chunks@.len(),
                display_width_of(line@) > width,
                strings_view(chunks@) == text_chunks(line@, width),
                expected == line_pieces(line@, style, width),
                forall|m: int|
                    0 <= m < text_chunks(line@, width).len() ==> (#[trigger] text_chunks(line@, width)[m]).len()
                        > 0 && (display_width_of(text_chunks(line@, width)[m]) <= width || text_chunks(
                        line@,
                        width,
                    )[m].len() == 1),
                pieces_view(pieces@) == before + expected.take(k as int),
                width >= 3 && pieces_fit(before, width) ==> pieces_fit(pieces_view(pieces@), width),
            decreases chunks@.len() - k,
        {
            let chunk_width = display_width(chunks[k].as_str());
            proof {
                assert(strings_view(chunks@)[k as int] == chunks@[k as int]@);
            }
            let piece = Piece { span: Span { content: chunks[k].clone(), style }, width: chunk_width };
            let ghost old_pieces = pieces_view(pieces@);
            pieces.push(piece);
            proof {
                assert(pieces_view(pieces@) =~= old_pieces.push(piece_view(piece)));
                assert(expected[k as int] == piece_view(piece));
                assert(expected.take(k + 1) =~= expected.take(k as int).push(expected[k as int]));
                if width >= 3 && pieces_fit(before, width) {
                    assert forall|i: int| 0 <= i < pieces_view(pieces@).len() implies #[trigger] pieces_view(
                        pieces@,
                    )[i].2 <= width by {
                        if i < old_pieces.len() {
                            assert(pieces_view(pieces@)[i] == old_pieces[i]);
                        }
                    }
                }
            }
            k = k + 1;
        }
        proof {
            assert(expected.take(k as int) =~= expected);
        }
    }
}

/// Cuts the spans into pieces: each span whole if it fits in `width`,
/// otherwise wrapped by `textwrap` and cut further where a wrapped line is
/// still too wide; each piece measured by `unicode-width`. From a width of
/// three columns on, no piece is wider than `width`.
pub fn span_pieces_of(spans: &[&TextSpan], width: usize, props: &Props) -> (pieces: Vec<Piece>)
    ensures
        pieces_view(pieces@) == text_pieces(*props, spans@, width),
        width >= 3 ==> pieces_fit(pieces_view(pieces@), width),
{
    let mut pieces: Vec<Piece> = Vec::new();
    let mut i: usize = 0;
    proof {
        assert(spans@.take(0) =~= Seq::<&TextSpan>::empty());
        assert(pieces_view(pieces@) =~= Seq::<(Seq<char>, Style, usize)>::empty());
    }
    while i < spans.len()
        invariant
            0 <= i <= spans@.len(),
            pieces_view(pieces@) == text_pieces(*props, spans@.take(i as int), width),
            width >= 3 ==> pieces_fit(pieces_view(pieces@), width),
        decreases spans@.len() - i,
    {
        let span: &TextSpan = spans[i];
        let ghost before = pieces_view(pieces@);
        let (fg, bg, modifiers) = use_or_default_styles(props, span);
        let style = Style::new().fg(fg).bg(bg).add_modifier(modifiers);
        proof {
            assert(0u16 | modifiers == modifiers && 0u16 & !modifiers == 0u16) by (bit_vector);
            assert(style == span_style(*props, *span));
        }
        let w = display_width(span.content.as_str());
        let ghost expected = span_pieces(*props, *span, width);
        if w > width {
            let lines = wrap_text(span.content.as_str(), width);
            let ghost wl = wrapped_lines_of(span.content@, width);
            let mut j: usize = 0;
            proof {
                assert(wl.take(0) =~= Seq::<Seq<char>>::empty());
                assert(before + lines_pieces(wl.take(0), style, width) =~= before);
            }
            while j < lines.len()
                invariant
                    0 <= j <= lines@.len(),
                    wl == wrapped_lines_of(span.content@, width),
                    lines@.len() == wl.len(),
                    forall|k: int| 0 <= k < lines@.len() ==> #[trigger] lines@[k]@ == wl[k],
                    pieces_view(pieces@) == before + lines_pieces(wl.take(j as int), style, width),
                    width >= 3 ==> pieces_fit(pieces_view(pieces@), width),
                decreases lines@.len() - j,
            {
                let ghost old_pieces = pieces_view(pieces@);
                push_line_pieces(&mut pieces, &lines[j], style, width);
                proof {
                    assert(wl.take(j + 1).drop_last() =~= wl.take(j as int));
                    assert(wl.take(j + 1).last() == lines@[j as int]@);
                    assert(before + lines_pieces(wl.take(j + 1), style, width) =~= old_pieces
                        + line_pieces(lines@[j as int]@, style, width));
                }
                j = j + 1;
            }
            proof {
                assert(wl.take(j as int) =~= wl);
            }
        } else {
            let piece = Piece { span: Span { content: span.content.clone(), style }, width: w };
            let ghost old_pieces = pieces@;
            pieces.push(piece);
            proof {
                assert(pieces_view(pieces@) =~= pieces_view(old_pieces).push(piece_view(piece)));
                assert(expected =~= seq![piece_view(piece)]);
                if width >= 3 {
                    assert forall|k: int| 0 <= k < pieces_view(pieces@).len() implies #[trigger] pieces_view(
                        pieces@,
                    )[k].2 <= width by {
                        if k < before.len() {
                            assert(pieces_view(pieces@)[k] == before[k]);
                        }
                    }
                }
            }
        }
        proof {
            assert(spans@.take(i + 1).drop_last() =~= spans@.take(i as int));
            assert(spans@.take(i + 1).last() == span);
            assert(pieces_view(pieces@) =~= before + expected);
        }
        i = i + 1;
    }
    proof {
        assert(spans@.take(i as int) =~= spans@);
    }
    pieces
}

/// ### wrap_spans
///
/// Given a vector of `TextSpans`, it creates a list of lines which mustn't
/// exceed the provided width parameter. Each line in the returned `Vec` is
/// a line in the text.
///
/// From a width of three columns on (no character is wider), every line
/// holds at least one span and is no wider than `width`.
pub fn wrap_spans(spans: &[&TextSpan], width: usize, props: &Props) -> (lines: Vec<Vec<Span>>)
    ensures
        lines_view(lines) == filled_lines(text_pieces(*props, spans@, width), width),
        width >= 3 ==> forall|j: int|
            0 <= j < lines_view(lines).len() ==> (#[trigger] lines_view(lines)[j]).len() > 0
                && line_display_width(lines_view(lines)[j]) <= width,
{
    let pieces = span_pieces_of(spans, width, props);
    proof {
        text_pieces_are_measured(*props, spans@, width);
        if width >= 3 {
            filled_lines_fit(text_pieces(*props, spans@, width), width);
        }
    }
    fill_lines(pieces.as_slice(), width)
}


// -- blocks

/// The frame drawn around a component: its sides, their style and shape,
/// and a title with its alignment.
#[derive(Debug)]
pub struct Block {
    pub borders: u8,
    pub border_style: Style,
    pub border_type: BorderType,
    pub title: String,
    pub title_alignment: Alignment,
}

/// The style of the borders: the borders' own style when the component has
/// focus; otherwise the inactive style, or the default colours.
pub open spec fn block_border_style(props: Borders, focus: bool, inactive_style: Option<Style>) -> Style {
    if focus {
        Style { fg: Some(props.color), bg: None, add_modifier: 0, sub_modifier: 0 }
    } else {
        match inactive_style {
            Some(s) => s,
            None => Style { fg: Some(Color::Reset), bg: Some(Color::Reset), add_modifier: 0, sub_modifier: 0 },
        }
    }
}

/// A focused block's borders are drawn in the borders' own colour, whatever
/// inactive style is given; an unfocused block uses the inactive style,
/// and the default colours when there is none.
pub proof fn focus_picks_the_border_style(b: Borders, s: Option<Style>)
    ensures
        block_border_style(b, true, s) == (Style { fg: Some(b.color), bg: None, add_modifier: 0, sub_modifier: 0 }),
        s matches Some(st) ==> block_border_style(b, false, s) == st,
        s is None ==> block_border_style(b, false, s) == (Style {
            fg: Some(Color::Reset),
            bg: Some(Color::Reset),
            add_modifier: 0,
            sub_modifier: 0,
        }),
        block_border_style(b, true, s) == block_border_style(b, true, None),
{
}

/// ### get_block
///
/// Construct a block for widget using block properties.
/// If focus is true the border color is applied, otherwise inactive_style
pub fn get_block(
    props: Borders,
    title: Option<(String, Alignment)>,
    focus: bool,
    inactive_style: Option<Style>,
) -> (block: Block)
    ensures
        block.borders == props.sides,
        block.border_type == props.modifiers,
        block.border_style == block_border_style(props, focus, inactive_style),
        match title {
            Some(t) => block.title == t.0 && block.title_alignment == t.1,
            None => block.title@ == Seq::<char>::empty() && block.title_alignment == Alignment::Left,
        },
{
    let title = match title {
        Some(t) => t,
        None => (String::new(), Alignment::Left),
    };
    let border_style = match focus {
        true => props.style(),
        false => match inactive_style {
            Some(s) => s,
            None => Style::new().fg(Color::Reset).bg(Color::Reset),
        },
    };
    Block {
        borders: props.sides,
        border_style,
        border_type: props.modifiers,
        title: title.0,
        title_alignment: title.1,
    }
}

// -- cursor

/// ### calc_utf8_cursor_position
///
/// Calculate the UTF8 compliant position for the cursor given the characters
/// preceding the cursor position. Use this function to calculate cursor
/// position whenever you want to handle UTF8 texts with cursors
pub fn calc_utf8_cursor_position(chars: &[char]) -> (position: u16)
    ensures
        position == display_width_of(chars@) as u16,
        chars@.len() == 0 ==> position == 0,
        is_plain_text(chars@) && plain_width(chars@) <= u16::MAX ==> position == plain_width(chars@),
        is_printable_ascii(chars@) && chars@.len() <= u16::MAX ==> position == chars@.len(),
{
    let text = string_from_chars(chars);
    let width = display_width(text.as_str());
    proof {
        printable_ascii_is_plain(chars@);
    }
    width as u16
}

/// Printable ASCII is plain text, one column per character.
pub proof fn printable_ascii_is_plain(text: Seq<char>)
    ensures
        is_printable_ascii(text) ==> is_plain_text(text) && plain_width(text) == text.len(),
    decreases text.len(),
{
    if text.len() > 0 {
        let prev = text.drop_last();
        printable_ascii_is_plain(prev);
        if is_printable_ascii(text) {
            assert(is_printable_ascii(prev)) by {
                assert forall|i: int| 0 <= i < prev.len() implies ' ' <= #[trigger] prev[i] <= '~' by {
                    assert(prev[i] == text[i]);
                }
            }
            assert(text.last() == text[text.len() - 1]);
        }
    }
}

/// The width of plain text adds up: that of two texts put end to end is
/// the sum of theirs, so a prefix is never wider than the whole text.
pub proof fn plain_width_adds_up(a: Seq<char>, b: Seq<char>)
    ensures
        is_plain_text(a + b) <==> is_plain_text(a) && is_plain_text(b),
        plain_width(a + b) == plain_width(a) + plain_width(b),
        plain_width(b) >= 0,
        plain_width(a) <= plain_width(a + b),
    decreases b.len(),
{
    assert(is_plain_text(a) && is_plain_text(b) ==> is_plain_text(a + b)) by {
        if is_plain_text(a) && is_plain_text(b) {
            assert forall|i: int| 0 <= i < (a + b).len() implies is_plain_char(#[trigger] (a + b)[i]) by {
                if i < a.len() {
                    assert((a + b)[i] == a[i]);
                } else {
                    assert((a + b)[i] == b[i - a.len()]);
                }
            }
        }
    }
    assert(is_plain_text(a + b) ==> is_plain_text(a) && is_plain_text(b)) by {
        if is_plain_text(a + b) {
            assert forall|i: int| 0 <= i < a.len() implies is_plain_char(#[trigger] a[i]) by {
                assert((a + b)[i] == a[i]);
            }
            assert forall|i: int| 0 <= i < b.len() implies is_plain_char(#[trigger] b[i]) by {
                assert((a + b)[i + a.len()] == b[i]);
            }
        }
    }
    if b.len() == 0 {
        assert(a + b =~= a);
    } else {
        plain_width_adds_up(a, b.drop_last());
        assert((a + b).drop_last() =~= a + b.drop_last());
        assert((a + b).last() == b.last());
    }
}

} // verus!
