//! Laws of the writer model: properties that relate whole call sequences,
//! proved once and for all over the spec functions of `vga_buffer`.

use vstd::prelude::*;

use crate::vga_buffer::{
    blank_char, blank_row, glyph_char, glyph_of, glyphs_of, grid_wf, is_printable,
    lemma_write_bytes_concat, lemma_write_bytes_snoc, spec_clear_row, spec_new_line,
    spec_write_byte, spec_write_bytes, spec_write_str, ColorCode, ScreenChar, BUFFER_HEIGHT,
    BUFFER_WIDTH,
};

verus! {

/// Every byte of `s` is in the printable range.
pub open spec fn printable_seq(s: Seq<u8>) -> bool {
    forall|i: int| 0 <= i < s.len() ==> is_printable(#[trigger] s[i])
}

/// `base` with the glyphs of `s` laid over columns `col .. col + s.len()`.
pub open spec fn row_with(base: Seq<ScreenChar>, col: int, s: Seq<u8>, attr: ColorCode) -> Seq<
    ScreenChar,
> {
    Seq::new(
        base.len(),
        |c: int|
            if col <= c < col + s.len() {
                glyph_char(s[c - col], attr)
            } else {
                base[c]
            },
    )
}

/// A full row showing the first `BUFFER_WIDTH` bytes of `s`.
pub open spec fn row_of(s: Seq<u8>, attr: ColorCode) -> Seq<ScreenChar> {
    Seq::new(BUFFER_WIDTH as nat, |c: int| glyph_char(s[c], attr))
}

/// Law: a byte outside the printable range that is not the newline is always
/// rendered as the fallback glyph, never as itself.
pub proof fn lemma_fallback_glyph(b: u8)
    requires
        !is_printable(b),
        b != 0x0a,
    ensures
        glyph_of(b) == 0xfe,
{
}

/// Substitution changes nothing on a sequence of printable bytes and
/// newlines.
pub proof fn lemma_glyphs_identity(s: Seq<u8>)
    requires
        forall|i: int| 0 <= i < s.len() ==> is_printable(#[trigger] s[i]) || s[i] == 0x0a,
    ensures
        glyphs_of(s) == s,
{
    assert(glyphs_of(s) =~= s);
}

/// Law: clearing a row twice in succession leaves the grid exactly as
/// clearing it once does.
pub proof fn lemma_clear_row_idempotent(g: Seq<Seq<ScreenChar>>, row: int, attr: ColorCode)
    requires
        grid_wf(g),
        0 <= row < BUFFER_HEIGHT,
    ensures
        spec_clear_row(spec_clear_row(g, row, attr), row, attr) == spec_clear_row(g, row, attr),
{
    assert(spec_clear_row(spec_clear_row(g, row, attr), row, attr) =~~= spec_clear_row(
        g,
        row,
        attr,
    ));
}

/// Emitting one byte keeps the grid well shaped and the column within the
/// width.
pub proof fn lemma_write_byte_wf(g: Seq<Seq<ScreenChar>>, col: int, attr: ColorCode, b: u8)
    requires
        grid_wf(g),
        0 <= col <= BUFFER_WIDTH,
    ensures
        grid_wf(spec_write_byte(g, col, attr, b).0),
        0 <= spec_write_byte(g, col, attr, b).1 <= BUFFER_WIDTH,
{
}

/// Law: emitting any byte sequence from any well-formed state leaves the
/// grid well shaped and the column within the width; writer state cannot be
/// corrupted by output of any length.
pub proof fn lemma_write_bytes_wf(g: Seq<Seq<ScreenChar>>, col: int, attr: ColorCode, s: Seq<u8>)
    requires
        grid_wf(g),
        0 <= col <= BUFFER_WIDTH,
    ensures
        grid_wf(spec_write_bytes(g, col, attr, s).0),
        0 <= spec_write_bytes(g, col, attr, s).1 <= BUFFER_WIDTH,
    decreases s.len(),
{
    if s.len() > 0 {
        let st = spec_write_byte(g, col, attr, s[0]);
        lemma_write_byte_wf(g, col, attr, s[0]);
        lemma_write_bytes_wf(st.0, st.1, attr, s.drop_first());
    }
}

/// Printable bytes that fit on the remainder of the bottom row land there
/// one after the other; nothing else on the surface moves.
pub proof fn lemma_fill_row(g: Seq<Seq<ScreenChar>>, col: int, attr: ColorCode, s: Seq<u8>)
    requires
        grid_wf(g),
        0 <= col,
        col + s.len() <= BUFFER_WIDTH,
        printable_seq(s),
    ensures
        grid_wf(spec_write_bytes(g, col, attr, s).0),
        spec_write_bytes(g, col, attr, s).1 == col + s.len(),
        forall|r: int|
            0 <= r < BUFFER_HEIGHT - 1 ==> spec_write_bytes(g, col, attr, s).0[r] == g[r],
        spec_write_bytes(g, col, attr, s).0[BUFFER_HEIGHT - 1] == row_with(
            g[BUFFER_HEIGHT - 1],
            col,
            s,
            attr,
        ),
    decreases s.len(),
{
    if s.len() == 0 {
        assert(row_with(g[BUFFER_HEIGHT - 1], col, s, attr) =~= g[BUFFER_HEIGHT - 1]);
    } else {
        let b = s[0];
        let sc = glyph_char(b, attr);
        let g1 = g.update(BUFFER_HEIGHT - 1, g[BUFFER_HEIGHT - 1].update(col, sc));
        assert(spec_write_byte(g, col, attr, b) == (g1, col + 1));
        lemma_fill_row(g1, col + 1, attr, s.drop_first());
        assert forall|r: int|
            0 <= r < BUFFER_HEIGHT - 1 implies spec_write_bytes(g, col, attr, s).0[r]
            == g[r] by {
            assert(spec_write_bytes(g1, col + 1, attr, s.drop_first()).0[r] == g1[r]);
            assert(g1[r] == g[r]);
        }
        assert(row_with(g1[BUFFER_HEIGHT - 1], col + 1, s.drop_first(), attr) =~= row_with(
            g[BUFFER_HEIGHT - 1],
            col,
            s,
            attr,
        ));
    }
}

/// Law: a printable line of at most `BUFFER_WIDTH` bytes, printed with a
/// trailing newline from column zero, ends on the row above the freshly
/// blanked bottom row, and the column ends at zero.
pub proof fn lemma_println_short_line(g: Seq<Seq<ScreenChar>>, attr: ColorCode, s: Seq<u8>)
    requires
        grid_wf(g),
        s.len() <= BUFFER_WIDTH,
        printable_seq(s),
    ensures
        spec_write_str(g, 0, attr, s.push(0x0a)).1 == 0,
        forall|i: int|
            0 <= i < s.len() ==> spec_write_str(g, 0, attr, s.push(0x0a)).0[BUFFER_HEIGHT - 2][i]
                == glyph_char(#[trigger] s[i], attr),
{
    lemma_glyphs_identity(s.push(0x0a));
    lemma_write_bytes_snoc(g, 0, attr, s, 0x0a);
    lemma_fill_row(g, 0, attr, s);
    let st = spec_write_bytes(g, 0, attr, s);
    assert(spec_write_byte(st.0, st.1, attr, 0x0a) == (spec_new_line(st.0, attr), 0int));
    assert(spec_new_line(st.0, attr)[BUFFER_HEIGHT - 2] == st.0[BUFFER_HEIGHT - 1]);
    assert forall|i: int| 0 <= i < s.len() implies spec_write_str(
        g,
        0,
        attr,
        s.push(0x0a),
    ).0[BUFFER_HEIGHT - 2][i] == glyph_char(s[i], attr) by {
        assert(st.0[BUFFER_HEIGHT - 1][i] == row_with(g[BUFFER_HEIGHT - 1], 0, s, attr)[i]);
    }
}

/// Law: a printable line longer than the width, written from column zero,
/// splits at exactly the width boundary: the first `BUFFER_WIDTH` bytes fill
/// the row above the bottom row, the remainder starts the bottom row, and no
/// byte is lost or duplicated.
pub proof fn lemma_wrap_at_width(g: Seq<Seq<ScreenChar>>, attr: ColorCode, s: Seq<u8>)
    requires
        grid_wf(g),
        BUFFER_WIDTH < s.len() <= 2 * BUFFER_WIDTH,
        printable_seq(s),
    ensures
        spec_write_str(g, 0, attr, s).0[BUFFER_HEIGHT - 2] == row_of(s, attr),
        spec_write_str(g, 0, attr, s).0[BUFFER_HEIGHT - 1] == row_with(
            blank_row(attr),
            0,
            s.skip(BUFFER_WIDTH as int),
            attr,
        ),
        spec_write_str(g, 0, attr, s).1 == s.len() - BUFFER_WIDTH,
{
    let w = BUFFER_WIDTH as int;
    lemma_glyphs_identity(s);
    let head = s.take(w);
    let tail = s.skip(w);
    assert(s =~= head + tail);
    lemma_write_bytes_concat(g, 0, attr, head, tail);
    lemma_fill_row(g, 0, attr, head);
    let st1 = spec_write_bytes(g, 0, attr, head);
    // The overflowing byte: the row is full, so a scroll happens first.
    assert(tail[0] == s[w]);
    assert(!(tail[0] == 0x0a));
    let g2 = spec_new_line(st1.0, attr);
    let st2 = spec_write_byte(st1.0, st1.1, attr, tail[0]);
    assert(st2 == (g2.update(BUFFER_HEIGHT - 1, g2[BUFFER_HEIGHT - 1].update(0, glyph_char(
        tail[0],
        attr,
    ))), 1int));
    assert(g2[BUFFER_HEIGHT - 2] == st1.0[BUFFER_HEIGHT - 1]);
    assert(g2[BUFFER_HEIGHT - 1] == blank_row(attr));
    assert(spec_write_bytes(st1.0, st1.1, attr, tail) == spec_write_bytes(
        st2.0,
        st2.1,
        attr,
        tail.drop_first(),
    ));
    lemma_write_byte_wf(st1.0, st1.1, attr, tail[0]);
    lemma_fill_row(st2.0, 1, attr, tail.drop_first());
    let stf = spec_write_bytes(st2.0, 1, attr, tail.drop_first());
    // The row above the bottom: filled by the first BUFFER_WIDTH bytes.
    assert(st2.0[BUFFER_HEIGHT - 2] == st1.0[BUFFER_HEIGHT - 1]);
    assert(stf.0[BUFFER_HEIGHT - 2] == st1.0[BUFFER_HEIGHT - 1]);
    assert(st1.0[BUFFER_HEIGHT - 1] =~= row_of(s, attr));
    // The bottom row: the overflowing byte and the remainder of `s`.
    assert(stf.0[BUFFER_HEIGHT - 1] == row_with(st2.0[BUFFER_HEIGHT - 1], 1, tail.drop_first(),
        attr,
    ));
    assert(row_with(st2.0[BUFFER_HEIGHT - 1], 1, tail.drop_first(), attr) =~= row_with(
        blank_row(attr),
        0,
        tail,
        attr,
    ));
    assert(stf.1 == s.len() - w);
}

/// The grid after `n` scrolls: each row shows what stood `n` rows below it,
/// and the bottom `n` rows are blank.
pub open spec fn iter_new_line(g: Seq<Seq<ScreenChar>>, attr: ColorCode, n: nat) -> Seq<
    Seq<ScreenChar>,
>
    decreases n,
{
    if n == 0 {
        g
    } else {
        spec_new_line(iter_new_line(g, attr, (n - 1) as nat), attr)
    }
}

/// After `n` scrolls a row shows the row `n` below it, or blanks once the
/// original content has been evicted.
pub proof fn lemma_iter_new_line_shape(g: Seq<Seq<ScreenChar>>, attr: ColorCode, n: nat)
    requires
        grid_wf(g),
    ensures
        grid_wf(iter_new_line(g, attr, n)),
        forall|r: int|
            0 <= r < BUFFER_HEIGHT ==> #[trigger] iter_new_line(g, attr, n)[r] == (
            if r + n < BUFFER_HEIGHT {
                g[r + n]
            } else {
                blank_row(attr)
            }),
    decreases n,
{
    if n > 0 {
        lemma_iter_new_line_shape(g, attr, (n - 1) as nat);
    }
}

/// Law: scrolling as many times as the surface has rows clears every cell to
/// a blank, whatever was on the surface before.
pub proof fn lemma_scroll_clears_all(g: Seq<Seq<ScreenChar>>, attr: ColorCode)
    requires
        grid_wf(g),
    ensures
        forall|r: int, c: int|
            0 <= r < BUFFER_HEIGHT && 0 <= c < BUFFER_WIDTH ==> #[trigger] iter_new_line(
                g,
                attr,
                BUFFER_HEIGHT as nat,
            )[r][c] == blank_char(attr),
{
    lemma_iter_new_line_shape(g, attr, BUFFER_HEIGHT as nat);
}

} // verus!
