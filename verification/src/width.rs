//! The display-width oracle: how many terminal columns one character
//! occupies. The oracle itself is the `unicode_width` crate; everything
//! downstream measures glyphs and character sequences through it.

use vstd::prelude::*;

verus! {

/// The column count that the display-width oracle assigns to a character:
/// `None` for a control character, otherwise the number of terminal cells
/// it occupies. The value depends on the character alone.
pub uninterp spec fn char_width_of(c: char) -> Option<usize>;

/// Relies on `unicode_width::UnicodeWidthChar::width`: the displayed column
/// count of a character per the Unicode width tables. The result is a pure
/// function of the character. The crate's own table shows directly that
/// printable ASCII (U+0020 through U+007E) is one column wide, and its
/// documented rules give ambiguous-width characters, the horizontal
/// ellipsis U+2026 among them, one column outside an East Asian context,
/// which is the variant this function is.
#[verifier::external_body]
fn oracle_char_width(c: char) -> (r: Option<usize>)
    ensures
        r == char_width_of(c),
        (c as u32 >= 0x20 && c as u32 <= 0x7E) ==> r == Some(1usize),
        c as u32 == 0x2026 ==> r == Some(1usize),
{
    unicode_width::UnicodeWidthChar::width(c)
}

/// Display width of one glyph: the oracle's answer, with the documented
/// fallback of one column where the oracle reports none.
pub open spec fn glyph_width(c: char) -> int {
    match char_width_of(c) {
        Some(w) => w as int,
        None => 1,
    }
}

/// Executable counterpart of `glyph_width`.
pub fn display_width(c: char) -> (w: usize)
    ensures
        w as int == glyph_width(c),
        (c as u32 >= 0x20 && c as u32 <= 0x7E) ==> w == 1,
        c as u32 == 0x2026 ==> w == 1,
{
    match oracle_char_width(c) {
        Some(w) => w,
        None => 1,
    }
}

/// Total display width of a character sequence.
pub open spec fn seq_width(s: Seq<char>) -> int
    decreases s.len(),
{
    if s.len() == 0 {
        0
    } else {
        glyph_width(s[0]) + seq_width(s.skip(1))
    }
}

pub proof fn lemma_seq_width_nonneg(s: Seq<char>)
    ensures
        seq_width(s) >= 0,
    decreases s.len(),
{
    if s.len() > 0 {
        lemma_seq_width_nonneg(s.skip(1));
    }
}

/// Appending one character adds exactly its glyph width.
pub proof fn lemma_seq_width_push(s: Seq<char>, c: char)
    ensures
        seq_width(s.push(c)) == seq_width(s) + glyph_width(c),
    decreases s.len(),
{
    if s.len() == 0 {
        assert(s.push(c)[0] == c);
        assert(s.push(c).skip(1) =~= Seq::<char>::empty());
        assert(seq_width(Seq::<char>::empty()) == 0);
        assert(seq_width(s.push(c)) == glyph_width(c));
    } else {
        assert(s.push(c)[0] == s[0]);
        assert(s.push(c).skip(1) =~= s.skip(1).push(c));
        lemma_seq_width_push(s.skip(1), c);
    }
}

/// The width of a one-longer prefix grows by the width of the added glyph.
pub proof fn lemma_seq_width_take_succ(s: Seq<char>, i: int)
    requires
        0 <= i < s.len(),
    ensures
        seq_width(s.take(i + 1)) == seq_width(s.take(i)) + glyph_width(s[i]),
{
    assert(s.take(i + 1) =~= s.take(i).push(s[i]));
    lemma_seq_width_push(s.take(i), s[i]);
}

/// Width of a whole sequence, summed front to back.
pub fn chars_width(v: &Vec<char>) -> (w: u128)
    ensures
        w as int == seq_width(v@),
{
    let mut w: u128 = 0;
    let mut i: usize = 0;
    while i < v.len()
        invariant
            0 <= i <= v@.len(),
            w as int == seq_width(v@.take(i as int)),
            w as int <= i * 0xffff_ffff_ffff_ffffu128,
        decreases v@.len() - i,
    {
        let cw = display_width(v[i]);
        proof {
            lemma_seq_width_take_succ(v@, i as int);
            assert((i + 1) * 0xffff_ffff_ffff_ffffu128 == i * 0xffff_ffff_ffff_ffffu128
                + 0xffff_ffff_ffff_ffffu128) by (nonlinear_arith);
        }
        w = w + (cw as u128);
        i = i + 1;
    }
    proof {
        assert(v@.take(v@.len() as int) =~= v@);
    }
    w
}


} // verus!
