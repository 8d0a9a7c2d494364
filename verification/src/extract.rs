//! The computational side of worksheet extraction: decoding ARGB colour
//! texts and resolving which merge range covers a cell. Reading workbook
//! files themselves is the caller's concern; it hands the raw values here.

use vstd::prelude::*;

use crate::models::MergeInfo;
use crate::models::RgbColor;

verus! {

/// The value of a hexadecimal digit, or -1 for any other character.
pub open spec fn spec_hex_val(c: char) -> int {
    if '0' <= c && c <= '9' {
        c as int - '0' as int
    } else if 'a' <= c && c <= 'f' {
        c as int - 'a' as int + 10
    } else if 'A' <= c && c <= 'F' {
        c as int - 'A' as int + 10
    } else {
        -1
    }
}

/// The value of a hexadecimal digit, or `None` for any other character.
fn hex_val(c: char) -> (r: Option<u8>)
    ensures
        (r is Some) == (spec_hex_val(c) >= 0),
        r matches Some(v) ==> v == spec_hex_val(c),
{
    let u = c as u32;
    if 0x30 <= u && u <= 0x39 {
        Some((u - 0x30) as u8)
    } else if 0x61 <= u && u <= 0x66 {
        Some((u - 0x61 + 10) as u8)
    } else if 0x41 <= u && u <= 0x46 {
        Some((u - 0x41 + 10) as u8)
    } else {
        None
    }
}

/// An ARGB text decodes to a colour when it has at least eight characters
/// and the six after the alpha pair are hexadecimal digits.
pub open spec fn spec_argb_decodes(s: Seq<char>) -> bool {
    s.len() >= 8 && spec_hex_val(s[2]) >= 0 && spec_hex_val(s[3]) >= 0 && spec_hex_val(s[4]) >= 0
        && spec_hex_val(s[5]) >= 0 && spec_hex_val(s[6]) >= 0 && spec_hex_val(s[7]) >= 0
}

/// The colour an ARGB text decodes to: the third to eighth characters read as
/// three hexadecimal pairs, red, green, blue.
pub open spec fn spec_argb_color(s: Seq<char>) -> RgbColor {
    RgbColor {
        r: (spec_hex_val(s[2]) * 16 + spec_hex_val(s[3])) as u8,
        g: (spec_hex_val(s[4]) * 16 + spec_hex_val(s[5])) as u8,
        b: (spec_hex_val(s[6]) * 16 + spec_hex_val(s[7])) as u8,
    }
}

/// Decodes an `AARRGGBB` colour text: the red, green and blue pairs follow
/// the alpha pair, each two hexadecimal digits; any shorter text or stray
/// character yields `None`.
pub fn parse_argb_color(argb: &str) -> (r: Option<RgbColor>)
    ensures
        (r is Some) == spec_argb_decodes(argb@),
        r matches Some(c) ==> c == spec_argb_color(argb@),
{
    let n = argb.unicode_len();
    if n < 8 {
        return None;
    }
    let r_hi = hex_val(argb.get_char(2));
    let r_lo = hex_val(argb.get_char(3));
    let g_hi = hex_val(argb.get_char(4));
    let g_lo = hex_val(argb.get_char(5));
    let b_hi = hex_val(argb.get_char(6));
    let b_lo = hex_val(argb.get_char(7));
    match (r_hi, r_lo, g_hi, g_lo, b_hi, b_lo) {
        (Some(rh), Some(rl), Some(gh), Some(gl), Some(bh), Some(bl)) => Some(
            RgbColor { r: rh * 16 + rl, g: gh * 16 + gl, b: bh * 16 + bl },
        ),
        _ => None,
    }
}

/// The merge range covers the cell at the given column and row.
pub open spec fn spec_merge_covers(m: MergeInfo, col: usize, row: usize) -> bool {
    m.start_col <= col && col <= m.end_col && m.start_row <= row && row <= m.end_row
}

/// The position of the first merge range covering the cell, if any.
pub open spec fn spec_first_covering(merges: Seq<MergeInfo>, col: usize, row: usize) -> Option<
    int,
>
    decreases merges.len(),
{
    if merges.len() == 0 {
        None
    } else if spec_merge_covers(merges[0], col, row) {
        Some(0int)
    } else {
        match spec_first_covering(merges.subrange(1, merges.len() as int), col, row) {
            Some(j) => Some(j + 1),
            None => None,
        }
    }
}

proof fn lemma_first_covering_at(merges: Seq<MergeInfo>, col: usize, row: usize, i: int)
    requires
        0 <= i < merges.len(),
        forall|k: int| 0 <= k < i ==> !spec_merge_covers(#[trigger] merges[k], col, row),
        spec_merge_covers(merges[i], col, row),
    ensures
        spec_first_covering(merges, col, row) == Some(i),
    decreases i,
{
    if i > 0 {
        let rest = merges.subrange(1, merges.len() as int);
        assert(forall|k: int| 0 <= k < i - 1 ==> rest[k] == merges[k + 1]);
        lemma_first_covering_at(rest, col, row, i - 1);
    }
}

proof fn lemma_first_covering_none(merges: Seq<MergeInfo>, col: usize, row: usize)
    requires
        forall|k: int| 0 <= k < merges.len() ==> !spec_merge_covers(#[trigger] merges[k], col, row),
    ensures
        spec_first_covering(merges, col, row) is None,
    decreases merges.len(),
{
    if merges.len() > 0 {
        let rest = merges.subrange(1, merges.len() as int);
        assert(forall|k: int| 0 <= k < rest.len() ==> rest[k] == merges[k + 1]);
        lemma_first_covering_none(rest, col, row);
    }
}

/// The first merge range of the worksheet that covers the cell at the given
/// column and row, if any; cells outside every range are unmerged.
#[verifier::loop_isolation(false)]
pub fn find_merge_for_cell(merges: &Vec<MergeInfo>, col: usize, row: usize) -> (r: Option<
    &MergeInfo,
>)
    ensures
        (r is Some) == (spec_first_covering(merges@, col, row) is Some),
        r matches Some(m) ==> spec_first_covering(merges@, col, row) matches Some(j) && *m
            == merges@[j],
{
    let n = merges.len();
    let mut i: usize = 0;
    while i < n
        invariant
            i <= n,
            n == merges@.len(),
            forall|k: int| 0 <= k < i ==> !spec_merge_covers(#[trigger] merges@[k], col, row),
        decreases n - i,
    {
        let m = &merges[i];
        if m.start_col <= col && col <= m.end_col && m.start_row <= row && row <= m.end_row {
            proof {
                lemma_first_covering_at(merges@, col, row, i as int);
            }
            return Some(m);
        }
        i += 1;
    }
    proof {
        lemma_first_covering_none(merges@, col, row);
    }
    None
}

} // verus!
