//! The line editor: a single-line text widget over glyphs of known
//! display width, with a logical cursor index and a cached cursor
//! column that always equals the origin column plus the width of the
//! glyphs before the cursor.

use vstd::prelude::*;
use crate::width::display_width;
use crate::width::glyph_width;

verus! {

/// One character of the buffer, held as its Unicode scalar value,
/// together with the display width it was given at insertion time.
#[derive(Clone, Copy, PartialEq, Eq, Structural)]
pub struct Glyph {
    pub code: u32,
    pub width: usize,
}

/// A discrete edit command, as the surrounding input loop decodes keys.
#[derive(Clone, Copy, PartialEq, Eq, Structural)]
pub enum EditCommand {
    InsertChar(char),
    Backspace,
    Delete,
    MoveHome,
    MoveEnd,
    MoveLeft,
    MoveRight,
    Confirm,
    Cancel,
}

/// Whether the session goes on after a command, or ended with the text
/// kept or thrown away.
#[derive(Clone, Copy, Debug, PartialEq, Eq, Structural)]
pub enum EditStatus {
    Editing,
    Confirmed,
    Cancelled,
}

/// Where a rename session places its cursor in the seeded name.
#[derive(Clone, Copy, Debug, PartialEq, Eq, Structural)]
pub enum RenameStart {
    Append,
    Prepend,
    Extension,
}

/// A Unicode scalar value: what a `char` may hold.
pub open spec fn is_char_code(code: u32) -> bool {
    code <= 0xD7FF || (0xE000 <= code && code <= 0x10FFFF)
}

/// The glyph the editor makes of one character.
pub open spec fn glyph_of(c: char) -> Glyph {
    Glyph { code: c as u32, width: glyph_width(c) as usize }
}

/// The mathematical state of the editor.
#[verifier::ext_equal]
pub struct EditModel {
    pub glyphs: Seq<Glyph>,
    pub cursor: int,
    pub col: int,
    pub origin: int,
}

/// Total display width of a glyph sequence, by the widths the glyphs
/// carry.
pub open spec fn glyphs_width(gs: Seq<Glyph>) -> int
    decreases gs.len(),
{
    if gs.len() == 0 {
        0
    } else {
        gs[0].width + glyphs_width(gs.skip(1))
    }
}

/// Well-formed editor state: the cursor lies inside the buffer, every
/// glyph holds a real character, and the cached column is the origin
/// plus the width of everything before the cursor.
pub open spec fn wf(m: EditModel) -> bool {
    &&& 0 <= m.cursor <= m.glyphs.len()
    &&& 0 <= m.origin
    &&& (forall|i: int| 0 <= i < m.glyphs.len() ==> is_char_code(#[trigger] m.glyphs[i].code))
    &&& m.col == m.origin + glyphs_width(m.glyphs.take(m.cursor))
}

/// What one command does to the editor state. `Confirm` and `Cancel`
/// leave the state as it stands; the session around the editor decides
/// what to yield.
pub open spec fn step_spec(m: EditModel, cmd: EditCommand) -> EditModel {
    match cmd {
        EditCommand::InsertChar(c) => EditModel {
            glyphs: m.glyphs.insert(m.cursor, glyph_of(c)),
            cursor: m.cursor + 1,
            col: m.col + glyph_width(c),
            origin: m.origin,
        },
        EditCommand::Backspace => {
            if m.cursor > 0 {
                EditModel {
                    glyphs: m.glyphs.remove(m.cursor - 1),
                    cursor: m.cursor - 1,
                    col: m.col - m.glyphs[m.cursor - 1].width,
                    origin: m.origin,
                }
            } else {
                m
            }
        },
        EditCommand::Delete => {
            if m.cursor < m.glyphs.len() {
                EditModel {
                    glyphs: m.glyphs.remove(m.cursor),
                    cursor: m.cursor,
                    col: m.col,
                    origin: m.origin,
                }
            } else {
                m
            }
        },
        EditCommand::MoveLeft => {
            if m.cursor > 0 {
                EditModel {
                    glyphs: m.glyphs,
                    cursor: m.cursor - 1,
                    col: m.col - m.glyphs[m.cursor - 1].width,
                    origin: m.origin,
                }
            } else {
                m
            }
        },
        EditCommand::MoveRight => {
            if m.cursor < m.glyphs.len() {
                EditModel {
                    glyphs: m.glyphs,
                    cursor: m.cursor + 1,
                    col: m.col + m.glyphs[m.cursor].width,
                    origin: m.origin,
                }
            } else {
                m
            }
        },
        EditCommand::MoveHome => EditModel {
            glyphs: m.glyphs,
            cursor: 0,
            col: m.origin,
            origin: m.origin,
        },
        EditCommand::MoveEnd => EditModel {
            glyphs: m.glyphs,
            cursor: m.glyphs.len() as int,
            col: m.origin + glyphs_width(m.glyphs),
            origin: m.origin,
        },
        EditCommand::Confirm => m,
        EditCommand::Cancel => m,
    }
}

/// Whether a command ends the session, and how.
pub open spec fn status_spec(cmd: EditCommand) -> EditStatus {
    match cmd {
        EditCommand::Confirm => EditStatus::Confirmed,
        EditCommand::Cancel => EditStatus::Cancelled,
        _ => EditStatus::Editing,
    }
}

pub proof fn lemma_glyphs_width_nonneg(gs: Seq<Glyph>)
    ensures
        glyphs_width(gs) >= 0,
    decreases gs.len(),
{
    if gs.len() > 0 {
        lemma_glyphs_width_nonneg(gs.skip(1));
    }
}

pub proof fn lemma_glyphs_width_bound(gs: Seq<Glyph>)
    ensures
        glyphs_width(gs) <= gs.len() * 0xffff_ffff_ffff_ffff,
    decreases gs.len(),
{
    if gs.len() > 0 {
        lemma_glyphs_width_bound(gs.skip(1));
        assert(gs.len() * 0xffff_ffff_ffff_ffff == (gs.len() - 1) * 0xffff_ffff_ffff_ffff
            + 0xffff_ffff_ffff_ffff) by (nonlinear_arith);
    }
}

pub proof fn lemma_glyphs_width_push(gs: Seq<Glyph>, g: Glyph)
    ensures
        glyphs_width(gs.push(g)) == glyphs_width(gs) + g.width,
    decreases gs.len(),
{
    if gs.len() == 0 {
        assert(gs.push(g)[0] == g);
        assert(gs.push(g).skip(1) =~= Seq::<Glyph>::empty());
        assert(glyphs_width(Seq::<Glyph>::empty()) == 0);
    } else {
        assert(gs.push(g)[0] == gs[0]);
        assert(gs.push(g).skip(1) =~= gs.skip(1).push(g));
        lemma_glyphs_width_push(gs.skip(1), g);
    }
}

pub proof fn lemma_glyphs_width_take_succ(gs: Seq<Glyph>, i: int)
    requires
        0 <= i < gs.len(),
    ensures
        glyphs_width(gs.take(i + 1)) == glyphs_width(gs.take(i)) + gs[i].width,
{
    assert(gs.take(i + 1) =~= gs.take(i).push(gs[i]));
    lemma_glyphs_width_push(gs.take(i), gs[i]);
}

/// Cursor column invariant, one step: every command carries a
/// well-formed state to a well-formed state, so the cached column always
/// equals the origin plus the width of the glyphs before the cursor.
pub proof fn lemma_step_preserves_wf(m: EditModel, cmd: EditCommand)
    requires
        wf(m),
    ensures
        wf(step_spec(m, cmd)),
{
    let n = step_spec(m, cmd);
    match cmd {
        EditCommand::InsertChar(c) => {
            let g = glyph_of(c);
            assert(n.glyphs.take(m.cursor + 1) =~= m.glyphs.take(m.cursor).push(g));
            lemma_glyphs_width_push(m.glyphs.take(m.cursor), g);
            vstd::utf8::char_is_scalar(c);
            assert(forall|i: int| 0 <= i < n.glyphs.len() ==> is_char_code(
                #[trigger] n.glyphs[i].code,
            ));
        },
        EditCommand::Backspace => {
            if m.cursor > 0 {
                assert(n.glyphs.take(m.cursor - 1) =~= m.glyphs.take(m.cursor - 1));
                lemma_glyphs_width_take_succ(m.glyphs, m.cursor - 1);
            }
        },
        EditCommand::Delete => {
            if m.cursor < m.glyphs.len() {
                assert(n.glyphs.take(m.cursor) =~= m.glyphs.take(m.cursor));
            }
        },
        EditCommand::MoveLeft => {
            if m.cursor > 0 {
                lemma_glyphs_width_take_succ(m.glyphs, m.cursor - 1);
            }
        },
        EditCommand::MoveRight => {
            if m.cursor < m.glyphs.len() {
                lemma_glyphs_width_take_succ(m.glyphs, m.cursor);
            }
        },
        EditCommand::MoveHome => {
            assert(m.glyphs.take(0) =~= Seq::<Glyph>::empty());
            assert(glyphs_width(Seq::<Glyph>::empty()) == 0);
        },
        EditCommand::MoveEnd => {
            assert(m.glyphs.take(m.glyphs.len() as int) =~= m.glyphs);
        },
        EditCommand::Confirm => {},
        EditCommand::Cancel => {},
    }
}

/// The effect of a whole command sequence, front to back.
pub open spec fn steps_spec(m: EditModel, cmds: Seq<EditCommand>) -> EditModel
    decreases cmds.len(),
{
    if cmds.len() == 0 {
        m
    } else {
        steps_spec(step_spec(m, cmds[0]), cmds.skip(1))
    }
}

/// Cursor column invariant: after any sequence of commands applied to a
/// well-formed state, the state is still well-formed.
pub proof fn lemma_sequence_preserves_wf(m: EditModel, cmds: Seq<EditCommand>)
    requires
        wf(m),
    ensures
        wf(steps_spec(m, cmds)),
    decreases cmds.len(),
{
    if cmds.len() > 0 {
        lemma_step_preserves_wf(m, cmds[0]);
        lemma_sequence_preserves_wf(step_spec(m, cmds[0]), cmds.skip(1));
    }
}

/// Edit round trip: inserting a character and at once deleting it with
/// backspace restores the prior buffer, cursor, and column exactly.
pub proof fn lemma_insert_backspace(m: EditModel, c: char)
    requires
        wf(m),
    ensures
        step_spec(step_spec(m, EditCommand::InsertChar(c)), EditCommand::Backspace) == m,
{
    let g = glyph_of(c);
    let m1 = step_spec(m, EditCommand::InsertChar(c));
    assert(m1.glyphs[m.cursor] == g);
    let m2 = step_spec(m1, EditCommand::Backspace);
    assert(m2.glyphs =~= m.glyphs);
    assert(m2 =~= m);
}

/// Relies on `char::from_u32`: every Unicode scalar value converts back
/// to the one character that holds it, per the function's documentation.
#[verifier::external_body]
fn char_from_code(code: u32) -> (r: char)
    requires
        is_char_code(code),
    ensures
        r as u32 == code,
{
    char::from_u32(code).unwrap()
}

/// Sum of the widths carried by the first `k` glyphs of a vector.
fn glyphs_prefix_width(gs: &Vec<Glyph>, k: usize) -> (w: u128)
    requires
        k as int <= gs@.len(),
    ensures
        w as int == glyphs_width(gs@.take(k as int)),
        w as int <= k * 0xffff_ffff_ffff_ffff,
{
    let mut w: u128 = 0;
    let mut i: usize = 0;
    while i < k
        invariant
            k as int <= gs@.len(),
            0 <= i <= k,
            w as int == glyphs_width(gs@.take(i as int)),
            w as int <= i * 0xffff_ffff_ffff_ffff,
        decreases k - i,
    {
        proof {
            lemma_glyphs_width_take_succ(gs@, i as int);
            assert((i + 1) * 0xffff_ffff_ffff_ffff == i * 0xffff_ffff_ffff_ffff
                + 0xffff_ffff_ffff_ffff) by (nonlinear_arith);
        }
        w = w + (gs[i].width as u128);
        i = i + 1;
    }
    w
}

/// The single-line editor: its buffer, cursor index, and cached cursor
/// column, which begins at a fixed origin column.
pub struct LineEditState {
    glyphs: Vec<Glyph>,
    cursor: usize,
    col: u128,
    origin: usize,
}

impl View for LineEditState {
    type V = EditModel;

    closed spec fn view(&self) -> EditModel {
        EditModel {
            glyphs: self.glyphs@,
            cursor: self.cursor as int,
            col: self.col as int,
            origin: self.origin as int,
        }
    }
}

impl LineEditState {
    /// A fresh, empty editor with its cursor at the origin column.
    pub fn empty(origin: usize) -> (s: Self)
        ensures
            wf(s@),
            s@.glyphs == Seq::<Glyph>::empty(),
            s@.cursor == 0,
            s@.col == origin as int,
            s@.origin == origin as int,
    {
        let s = LineEditState { glyphs: Vec::new(), cursor: 0, col: origin as u128, origin };
        proof {
            assert(s@.glyphs.take(0) =~= Seq::<Glyph>::empty());
            assert(glyphs_width(Seq::<Glyph>::empty()) == 0);
        }
        s
    }

    /// An editor seeded with existing text, each character given its
    /// oracle width, and the cursor on the chosen glyph boundary; the
    /// cursor column is the origin plus the widths before that boundary.
    pub fn seeded_at(text: &Vec<char>, origin: usize, cursor: usize) -> (s: Self)
        requires
            cursor as int <= text@.len(),
        ensures
            wf(s@),
            s@.glyphs.len() == text@.len(),
            forall|i: int| 0 <= i < text@.len() ==> #[trigger] s@.glyphs[i] == glyph_of(text@[i]),
            s@.origin == origin as int,
            s@.cursor == cursor as int,
    {
        let mut glyphs: Vec<Glyph> = Vec::new();
        let n = text.len();
        let mut i: usize = 0;
        while i < n
            invariant
                n as int == text@.len(),
                0 <= i <= n,
                glyphs@.len() == i as int,
                forall|j: int| 0 <= j < i as int ==> #[trigger] glyphs@[j] == glyph_of(text@[j]),
            decreases n - i,
        {
            let c = text[i];
            let w = display_width(c);
            glyphs.push(Glyph { code: c as u32, width: w });
            i = i + 1;
        }
        proof {
            assert forall|j: int| 0 <= j < glyphs@.len() implies is_char_code(
                #[trigger] glyphs@[j].code,
            ) by {
                let c = text@[j];
                assert(glyphs@[j] == glyph_of(c));
                vstd::utf8::char_is_scalar(c);
            }
        }
        let before = glyphs_prefix_width(&glyphs, cursor);
        proof {
            assert(cursor * 0xffff_ffff_ffff_ffff <= 0xffff_ffff_ffff_ffff
                * 0xffff_ffff_ffff_ffff) by (nonlinear_arith)
                requires
                    cursor <= 0xffff_ffff_ffff_ffff,
            ;
        }
        let col = (origin as u128) + before;
        LineEditState { glyphs, cursor, col, origin }
    }

    /// An editor seeded with existing text; the cursor rests after the
    /// last glyph when `at_end` and at the origin otherwise.
    pub fn seeded(text: &Vec<char>, origin: usize, at_end: bool) -> (s: Self)
        ensures
            wf(s@),
            s@.glyphs.len() == text@.len(),
            forall|i: int| 0 <= i < text@.len() ==> #[trigger] s@.glyphs[i] == glyph_of(text@[i]),
            s@.origin == origin as int,
            at_end ==> s@.cursor == text@.len(),
            !at_end ==> s@.cursor == 0,
    {
        let cursor = if at_end {
            text.len()
        } else {
            0
        };
        Self::seeded_at(text, origin, cursor)
    }

    pub fn cursor(&self) -> (c: usize)
        ensures
            c as int == self@.cursor,
    {
        self.cursor
    }

    pub fn cursor_col(&self) -> (c: u128)
        ensures
            c as int == self@.col,
    {
        self.col
    }

    pub fn len(&self) -> (n: usize)
        ensures
            n as int == self@.glyphs.len(),
    {
        self.glyphs.len()
    }

    /// The buffer's characters, in order.
    pub fn text(&self) -> (t: Vec<char>)
        requires
            wf(self@),
        ensures
            t@.len() == self@.glyphs.len(),
            forall|i: int| 0 <= i < t@.len() ==> (#[trigger] t@[i]) as u32
                == self@.glyphs[i].code,
    {
        let mut t: Vec<char> = Vec::new();
        let n = self.glyphs.len();
        let mut i: usize = 0;
        while i < n
            invariant
                wf(self@),
                n as int == self@.glyphs.len(),
                0 <= i <= n,
                t@.len() == i as int,
                forall|j: int| 0 <= j < i as int ==> (#[trigger] t@[j]) as u32
                    == self@.glyphs[j].code,
            decreases n - i,
        {
            let c = char_from_code(self.glyphs[i].code);
            t.push(c);
            i = i + 1;
        }
        t
    }

    /// Applies one command: the state steps as `step_spec` says, and the
    /// returned status tells the session whether to go on, yield the
    /// text, or yield nothing.
    pub fn apply(&mut self, cmd: EditCommand) -> (st: EditStatus)
        requires
            wf(old(self)@),
        ensures
            final(self)@ == step_spec(old(self)@, cmd),
            wf(final(self)@),
            st == status_spec(cmd),
    {
        proof {
            lemma_step_preserves_wf(old(self)@, cmd);
        }
        match cmd {
            EditCommand::InsertChar(c) => {
                let w = display_width(c);
                proof {
                    lemma_glyphs_width_nonneg(self.glyphs@.take(self.cursor as int));
                    lemma_glyphs_width_bound(self.glyphs@.take(self.cursor as int));
                    assert(self.glyphs@.take(self.cursor as int).len() * 0xffff_ffff_ffff_ffff
                        <= 0xffff_ffff_ffff_ffff * 0xffff_ffff_ffff_ffff) by (nonlinear_arith)
                        requires
                            self.glyphs@.take(self.cursor as int).len() <= 0xffff_ffff_ffff_ffff,
                    ;
                }
                self.glyphs.insert(self.cursor, Glyph { code: c as u32, width: w });
                let n = self.glyphs.len();
                proof {
                    assert(self.cursor < n);
                }
                self.cursor = self.cursor + 1;
                self.col = self.col + (w as u128);
                proof {
                    assert(self@ =~= step_spec(old(self)@, cmd));
                }
                EditStatus::Editing
            },
            EditCommand::Backspace => {
                if self.cursor > 0 {
                    let g = self.glyphs.remove(self.cursor - 1);
                    proof {
                        lemma_glyphs_width_take_succ(old(self)@.glyphs, old(self)@.cursor - 1);
                        lemma_glyphs_width_nonneg(old(self)@.glyphs.take(old(self)@.cursor - 1));
                    }
                    self.cursor = self.cursor - 1;
                    self.col = self.col - (g.width as u128);
                    proof {
                        assert(self@ =~= step_spec(old(self)@, cmd));
                    }
                }
                EditStatus::Editing
            },
            EditCommand::Delete => {
                if self.cursor < self.glyphs.len() {
                    let _ = self.glyphs.remove(self.cursor);
                    proof {
                        assert(self@ =~= step_spec(old(self)@, cmd));
                    }
                }
                EditStatus::Editing
            },
            EditCommand::MoveLeft => {
                if self.cursor > 0 {
                    let w = self.glyphs[self.cursor - 1].width;
                    proof {
                        lemma_glyphs_width_take_succ(old(self)@.glyphs, old(self)@.cursor - 1);
                        lemma_glyphs_width_nonneg(old(self)@.glyphs.take(old(self)@.cursor - 1));
                    }
                    self.cursor = self.cursor - 1;
                    self.col = self.col - (w as u128);
                }
                EditStatus::Editing
            },
            EditCommand::MoveRight => {
                if self.cursor < self.glyphs.len() {
                    let w = self.glyphs[self.cursor].width;
                    proof {
                        lemma_glyphs_width_nonneg(self.glyphs@.take(self.cursor as int));
                        lemma_glyphs_width_bound(self.glyphs@.take(self.cursor as int));
                        assert(self.glyphs@.take(self.cursor as int).len() * 0xffff_ffff_ffff_ffff
                            <= 0xffff_ffff_ffff_ffff * 0xffff_ffff_ffff_ffff) by (nonlinear_arith)
                            requires
                                self.glyphs@.take(self.cursor as int).len()
                                    <= 0xffff_ffff_ffff_ffff,
                        ;
                    }
                    self.cursor = self.cursor + 1;
                    self.col = self.col + (w as u128);
                }
                EditStatus::Editing
            },
            EditCommand::MoveHome => {
                self.cursor = 0;
                self.col = self.origin as u128;
                EditStatus::Editing
            },
            EditCommand::MoveEnd => {
                let n = self.glyphs.len();
                let total = glyphs_prefix_width(&self.glyphs, n);
                proof {
                    assert(self.glyphs@.take(n as int) =~= self.glyphs@);
                    assert(n * 0xffff_ffff_ffff_ffff <= 0xffff_ffff_ffff_ffff
                        * 0xffff_ffff_ffff_ffff) by (nonlinear_arith)
                        requires
                            n <= 0xffff_ffff_ffff_ffff,
                    ;
                }
                self.cursor = n;
                self.col = (self.origin as u128) + total;
                EditStatus::Editing
            },
            EditCommand::Confirm => EditStatus::Confirmed,
            EditCommand::Cancel => EditStatus::Cancelled,
        }
    }
}

} // verus!
