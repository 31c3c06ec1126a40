//! Human-readable names of Nostr event kinds.

use vstd::prelude::*;
use crate::text::{decimal, decimal_between, digits_value, is_digit, lemma_decimal_injective, lemma_decimal_len, lemma_decimal_reads_back};

verus! {

/// The name shown for event kind `kind`: the kinds of the viewer's table get
/// their own names, every other kind `n` is shown as `Kind n`.
pub open spec fn kind_label(kind: u32) -> Seq<char> {
    if kind == 0 {
        "Metadata"@
    } else if kind == 1 {
        "Text Note"@
    } else if kind == 3 {
        "Contact List"@
    } else if kind == 4 {
        "DM"@
    } else if kind == 5 {
        "Delete"@
    } else if kind == 6 {
        "Repost"@
    } else if kind == 7 {
        "Reaction"@
    } else if kind == 9735 {
        "Zap"@
    } else if kind == 30023 {
        "Long-form"@
    } else {
        "Kind "@ + decimal(kind as nat)
    }
}

/// Whether `kind` is one of the kinds with a name of its own.
pub open spec fn is_named_kind(kind: u32) -> bool {
    kind == 0 || kind == 1 || kind == 3 || kind == 4 || kind == 5 || kind == 6 || kind == 7
        || kind == 9735 || kind == 30023
}

/// Map a Nostr event kind number to a human-readable name.
pub fn kind_name(kind: u32) -> (r: String)
    ensures
        r@ == kind_label(kind),
{
    match kind {
        0 => String::from_str("Metadata"),
        1 => String::from_str("Text Note"),
        3 => String::from_str("Contact List"),
        4 => String::from_str("DM"),
        5 => String::from_str("Delete"),
        6 => String::from_str("Repost"),
        7 => String::from_str("Reaction"),
        9735 => String::from_str("Zap"),
        30023 => String::from_str("Long-form"),
        n => {
            proof {
                reveal_strlit("");
            }
            decimal_between("Kind ", n as u64, "")
        },
    }
}

/// Different kinds get different names.
pub proof fn lemma_kind_labels_distinct(a: u32, b: u32)
    requires
        a != b,
    ensures
        kind_label(a) != kind_label(b),
{
    reveal_strlit("Metadata");
    reveal_strlit("Text Note");
    reveal_strlit("Contact List");
    reveal_strlit("DM");
    reveal_strlit("Delete");
    reveal_strlit("Repost");
    reveal_strlit("Reaction");
    reveal_strlit("Zap");
    reveal_strlit("Long-form");
    reveal_strlit("Kind ");
    lemma_decimal_len(a as nat);
    lemma_decimal_len(b as nat);
    let la = kind_label(a);
    let lb = kind_label(b);
    if la == lb {
        if !is_named_kind(a) && !is_named_kind(b) {
            assert(la.skip(5) =~= decimal(a as nat));
            assert(lb.skip(5) =~= decimal(b as nat));
            lemma_decimal_injective(a as nat, b as nat);
        } else {
            assert(la[0] == lb[0]);
            assert(la.len() == lb.len());
            assert(la[2] == lb[2]);
        }
    }
}

/// Every kind outside the named table is shown as `Kind ` followed by
/// digits only, and those digits read back as that same kind.
pub proof fn lemma_unnamed_kind_spells_its_number(kind: u32)
    requires
        !is_named_kind(kind),
    ensures
        kind_label(kind).len() > 5,
        kind_label(kind).take(5) == seq!['K', 'i', 'n', 'd', ' '],
        forall|i: int| 5 <= i < kind_label(kind).len() ==> is_digit(#[trigger] kind_label(kind)[i]),
        digits_value(kind_label(kind).skip(5)) == kind as int,
{
    reveal_strlit("Kind ");
    lemma_decimal_len(kind as nat);
    lemma_decimal_reads_back(kind as nat);
    let l = kind_label(kind);
    assert(l.take(5) =~= seq!['K', 'i', 'n', 'd', ' ']);
    assert(l.skip(5) =~= decimal(kind as nat));
    assert forall|i: int| 5 <= i < l.len() implies is_digit(#[trigger] l[i]) by {
        assert(l[i] == decimal(kind as nat)[i - 5]);
    }
}

} // verus!
