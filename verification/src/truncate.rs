//! The name truncator: fits a display name into a column budget, either
//! whole or as a head cut at a glyph boundary, followed by an ellipsis
//! and, when present, the file extension after a separator dot.

use vstd::prelude::*;
use crate::width::display_width;
use crate::width::glyph_width;
use crate::width::lemma_seq_width_nonneg;
use crate::width::lemma_seq_width_take_succ;
use crate::width::seq_width;

verus! {

/// The glyph that marks a truncated name.
pub const ELLIPSIS: char = '\u{2026}';

/// How a name is to be rendered: in full, or as a whole-glyph head
/// followed by the ellipsis and, when present, a dot and the extension.
#[derive(Clone, Debug, PartialEq, Eq)]
pub enum RenderPlan {
    Full(Vec<char>),
    Truncated(Vec<char>, Option<Vec<char>>),
}

/// The mathematical shape of a `RenderPlan`.
#[verifier::ext_equal]
pub enum PlanModel {
    Full(Seq<char>),
    Truncated(Seq<char>, Option<Seq<char>>),
}

impl View for RenderPlan {
    type V = PlanModel;

    open spec fn view(&self) -> PlanModel {
        match self {
            RenderPlan::Full(name) => PlanModel::Full(name@),
            RenderPlan::Truncated(head, ext) => PlanModel::Truncated(
                head@,
                match ext {
                    Some(e) => Some(e@),
                    None => None,
                },
            ),
        }
    }
}

/// Columns that the extension part of a truncated rendering occupies:
/// one separator column plus the extension's own width.
pub open spec fn ext_cols(ext: Option<Seq<char>>) -> int {
    match ext {
        Some(e) => 1 + seq_width(e),
        None => 0,
    }
}

/// Columns reserved before any head glyph may be shown: the ellipsis and
/// the extension part.
pub open spec fn reserved_cols(ext: Option<Seq<char>>) -> int {
    glyph_width(ELLIPSIS) + ext_cols(ext)
}

/// Number of leading glyphs whose total width stays within the budget:
/// the longest such prefix, since glyph widths are never negative.
pub open spec fn trim_count(s: Seq<char>, budget: int) -> nat
    decreases s.len(),
{
    if s.len() == 0 {
        0
    } else if glyph_width(s[0]) <= budget {
        (1 + trim_count(s.skip(1), budget - glyph_width(s[0]))) as nat
    } else {
        0
    }
}

/// Total display width of whichever rendering the plan chose, counting
/// one column for the separator dot of a truncated extension.
pub open spec fn plan_width(p: PlanModel) -> int {
    match p {
        PlanModel::Full(name) => seq_width(name),
        PlanModel::Truncated(head, ext) => seq_width(head) + glyph_width(ELLIPSIS) + ext_cols(ext),
    }
}

/// The chosen rendering: the full name when it fits beside the already
/// consumed offset, else the widest whole-glyph head that leaves room
/// for the ellipsis and the extension part.
pub open spec fn plan_spec(name: Seq<char>, budget: int, ext: Option<Seq<char>>, offset: int) -> PlanModel {
    if seq_width(name) + offset < budget {
        PlanModel::Full(name)
    } else {
        let tb = budget - offset - reserved_cols(ext);
        let k = trim_count(name, if tb >= 0 { tb } else { 0 });
        PlanModel::Truncated(name.take(k as int), ext)
    }
}

pub proof fn lemma_trim_count_le_len(s: Seq<char>, budget: int)
    ensures
        trim_count(s, budget) <= s.len(),
    decreases s.len(),
{
    if s.len() > 0 && glyph_width(s[0]) <= budget {
        lemma_trim_count_le_len(s.skip(1), budget - glyph_width(s[0]));
    }
}

/// The prefix that `trim_count` keeps never exceeds the budget it was
/// given (for any budget at least zero).
pub proof fn lemma_trim_count_fits(s: Seq<char>, budget: int)
    requires
        budget >= 0,
    ensures
        trim_count(s, budget) <= s.len(),
        seq_width(s.take(trim_count(s, budget) as int)) <= budget,
    decreases s.len(),
{
    lemma_trim_count_le_len(s, budget);
    if s.len() == 0 {
        assert(s.take(0) =~= s);
    } else if glyph_width(s[0]) <= budget {
        let rest = s.skip(1);
        let b2 = budget - glyph_width(s[0]);
        lemma_trim_count_fits(rest, b2);
        let k2 = trim_count(rest, b2) as int;
        assert(s.take(1 + k2)[0] == s[0]);
        assert(s.take(1 + k2).skip(1) =~= rest.take(k2));
        assert(seq_width(s.take(1 + k2)) == glyph_width(s[0]) + seq_width(rest.take(k2)));
    } else {
        assert(seq_width(s.take(0)) == 0);
    }
}

/// Any prefix length that fits the budget and cannot be extended is the
/// one `trim_count` names.
pub proof fn lemma_trim_count_unique(s: Seq<char>, budget: int, k: int)
    requires
        budget >= 0,
        0 <= k <= s.len(),
        seq_width(s.take(k)) <= budget,
        k < s.len() ==> seq_width(s.take(k + 1)) > budget,
    ensures
        k == trim_count(s, budget),
    decreases s.len(),
{
    if s.len() == 0 {
    } else {
        let rest = s.skip(1);
        let w0 = glyph_width(s[0]);
        if k == 0 {
            assert(s.take(1)[0] == s[0]);
            assert(s.take(1).skip(1) =~= Seq::<char>::empty());
            assert(seq_width(Seq::<char>::empty()) == 0);
            assert(seq_width(s.take(1)) == w0);
            assert(w0 > budget);
        } else {
            assert(s.take(k)[0] == s[0]);
            assert(s.take(k).skip(1) =~= rest.take(k - 1));
            assert(seq_width(s.take(k)) == w0 + seq_width(rest.take(k - 1)));
            lemma_seq_width_nonneg(rest.take(k - 1));
            assert(w0 <= budget);
            if k < s.len() {
                assert(s.take(k + 1)[0] == s[0]);
                assert(s.take(k + 1).skip(1) =~= rest.take(k));
                assert(seq_width(s.take(k + 1)) == w0 + seq_width(rest.take(k)));
            }
            lemma_trim_count_unique(rest, budget - w0, k - 1);
        }
    }
}

/// Widest whole-glyph prefix of `name` whose width stays within `budget`.
fn trim_prefix(name: &Vec<char>, budget: usize) -> (head: Vec<char>)
    ensures
        head@ == name@.take(trim_count(name@, budget as int) as int),
{
    let mut head: Vec<char> = Vec::new();
    let mut used: u128 = 0;
    let mut i: usize = 0;
    while i < name.len()
        invariant
            0 <= i <= name@.len(),
            head@ == name@.take(i as int),
            used as int == seq_width(name@.take(i as int)),
            used <= budget as u128,
        decreases name@.len() - i,
    {
        let cw = display_width(name[i]) as u128;
        proof {
            lemma_seq_width_take_succ(name@, i as int);
        }
        if used + cw > budget as u128 {
            proof {
                lemma_trim_count_unique(name@, budget as int, i as int);
            }
            return head;
        }
        head.push(name[i]);
        used = used + cw;
        i = i + 1;
        proof {
            assert(head@ =~= name@.take(i as int));
        }
    }
    proof {
        lemma_trim_count_unique(name@, budget as int, i as int);
    }
    head
}

/// Decides the rendering of `name` within `budget` columns, of which
/// `offset` are already consumed by decoration to the left: the full
/// name when its width beside the offset stays under the budget, else a
/// whole-glyph head cut so that head, ellipsis, separator and extension
/// together stay within the budget wherever the budget admits them at
/// all.
pub fn truncate_name(name: &Vec<char>, budget: usize, ext: Option<Vec<char>>, offset: usize) -> (p:
    RenderPlan)
    ensures
        ext is None ==> p@ == plan_spec(name@, budget as int, None, offset as int),
        ext matches Some(e) ==> p@ == plan_spec(name@, budget as int, Some(e@), offset as int),
{
    let name_w = crate::width::chars_width(name);
    if (budget as u128) > (offset as u128) && name_w < (budget as u128) - (offset as u128) {
        let mut full: Vec<char> = Vec::new();
        let mut i: usize = 0;
        while i < name.len()
            invariant
                0 <= i <= name@.len(),
                full@ == name@.take(i as int),
            decreases name@.len() - i,
        {
            full.push(name[i]);
            i = i + 1;
            proof {
                assert(full@ =~= name@.take(i as int));
            }
        }
        proof {
            assert(name@.take(name@.len() as int) =~= name@);
        }
        RenderPlan::Full(full)
    } else {
        let ellipsis_w = display_width(ELLIPSIS) as u128;
        // The trim budget, clamped at zero, by stepwise subtraction so
        // that no sum of widths is ever formed.
        let after_offset: u128 = if (budget as u128) >= (offset as u128) {
            (budget as u128) - (offset as u128)
        } else {
            0
        };
        let after_ellipsis: u128 = if after_offset >= ellipsis_w {
            after_offset - ellipsis_w
        } else {
            0
        };
        let tb: u128 = match &ext {
            Some(e) => {
                let ew = crate::width::chars_width(e);
                proof {
                    lemma_seq_width_nonneg(e@);
                }
                if after_ellipsis >= 1 && after_ellipsis - 1 >= ew {
                    after_ellipsis - 1 - ew
                } else {
                    0
                }
            },
            None => after_ellipsis,
        };
        let tb_usize: usize = tb as usize;
        let head = trim_prefix(name, tb_usize);
        RenderPlan::Truncated(head, ext)
    }
}

/// Truncation bound: wherever the budget admits the ellipsis, separator
/// and extension beside the offset at all, the chosen plan's total
/// display width stays within the budget.
pub proof fn lemma_truncation_bound(name: Seq<char>, budget: int, ext: Option<Seq<char>>, offset: int)
    requires
        0 <= offset,
        0 <= budget,
    ensures
        offset + reserved_cols(ext) <= budget ==> plan_width(
            plan_spec(name, budget, ext, offset),
        ) + offset <= budget,
{
    if offset + reserved_cols(ext) <= budget {
        if seq_width(name) + offset < budget {
        } else {
            let tb = budget - offset - reserved_cols(ext);
            lemma_trim_count_fits(name, tb);
        }
    }
}

/// Truncation fidelity: a name that fits beside the offset is rendered
/// in full, unchanged.
pub proof fn lemma_truncation_fidelity(name: Seq<char>, budget: int, ext: Option<Seq<char>>, offset: int)
    requires
        seq_width(name) + offset < budget,
    ensures
        plan_spec(name, budget, ext, offset) == PlanModel::Full(name),
{
}

/// No glyph splitting: the head of a truncated plan is a prefix of the
/// name made of whole glyphs only.
pub proof fn lemma_truncation_head_prefix(name: Seq<char>, budget: int, ext: Option<Seq<char>>, offset: int)
    ensures
        plan_spec(name, budget, ext, offset) matches PlanModel::Truncated(head, e) ==> e == ext
            && head == name.take(head.len() as int) && head.len() <= name.len(),
{
    if seq_width(name) + offset >= budget {
        let tb0 = budget - offset - reserved_cols(ext);
        let tb = if tb0 >= 0 { tb0 } else { 0 };
        lemma_trim_count_le_len(name, tb);
    }
}

} // verus!
