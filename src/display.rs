//! Labels fitted to a column.
use vstd::prelude::*;

verus! {

/// `label` fitted to `width` characters: a longer label keeps its start and
/// its last two characters, joined by an ellipsis; where the column is too
/// narrow for that, only its start.
pub open spec fn fitted(label: Seq<char>, width: nat) -> Seq<char> {
    if label.len() <= width {
        label
    } else if width >= 3 {
        label.subrange(0, width - 3) + seq!['…'] + label.subrange(label.len() - 2, label.len() as int)
    } else {
        label.subrange(0, width as int)
    }
}

/// The label as shown in a column of `width` characters.
pub fn fit_label(label: &str, width: usize) -> (r: String)
    ensures
        r@ == fitted(label@, width as nat),
        r@.len() == if label@.len() <= width { label@.len() } else { width as nat },
{
    let n = label.unicode_len();
    if n <= width {
        return String::from_str(label);
    }
    if width < 3 {
        return String::from_str(label.substring_char(0, width));
    }
    let mut out = String::from_str(label.substring_char(0, width - 3));
    out.append("…");
    proof {
        reveal_strlit("…");
    }
    out.append(label.substring_char(n - 2, n));
    assert(out@ =~= fitted(label@, width as nat));
    out
}

} // verus!
