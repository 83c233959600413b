//! Grain types whose husking behaviour the dynamics model distinguishes.

use vstd::prelude::*;
use crate::text::str_equals;

verus! {

/// The grain kinds with a husking model of their own; every other name
/// falls under `Other`.
#[derive(Clone, Copy, Debug, PartialEq, Eq, Structural)]
pub enum GrainKind {
    Rice,
    Millet,
    Wheat,
    Other,
}

/// The kind that a grain name selects: the names are matched exactly
/// (case-sensitive, no trimming).
pub open spec fn grain_kind_of(name: Seq<char>) -> GrainKind {
    if name == "rice"@ {
        GrainKind::Rice
    } else if name == "millet"@ {
        GrainKind::Millet
    } else if name == "wheat"@ {
        GrainKind::Wheat
    } else {
        GrainKind::Other
    }
}

/// Classifies a grain name.
pub fn classify_grain(grain_type: &str) -> (kind: GrainKind)
    ensures
        kind == grain_kind_of(grain_type@),
        (kind == GrainKind::Rice) == (grain_type@ == "rice"@),
        (kind == GrainKind::Millet) == (grain_type@ == "millet"@),
        (kind == GrainKind::Wheat) == (grain_type@ == "wheat"@),
        (kind == GrainKind::Other) == (grain_type@ != "rice"@ && grain_type@ != "millet"@
            && grain_type@ != "wheat"@),
{
    proof {
        lemma_grain_kind_names(grain_type@);
    }
    if str_equals(grain_type, "rice") {
        GrainKind::Rice
    } else if str_equals(grain_type, "millet") {
        GrainKind::Millet
    } else if str_equals(grain_type, "wheat") {
        GrainKind::Wheat
    } else {
        GrainKind::Other
    }
}

/// A name selects the rice model exactly when it is `rice`, the millet
/// model exactly when it is `millet`, the wheat model exactly when it is
/// `wheat`; every other name (other grains, other spellings, names with
/// surrounding blanks) selects the fixed rate of `Other`.
pub proof fn lemma_grain_kind_names(name: Seq<char>)
    ensures
        (grain_kind_of(name) == GrainKind::Rice) == (name == "rice"@),
        (grain_kind_of(name) == GrainKind::Millet) == (name == "millet"@),
        (grain_kind_of(name) == GrainKind::Wheat) == (name == "wheat"@),
        (grain_kind_of(name) == GrainKind::Other) == (name != "rice"@ && name != "millet"@
            && name != "wheat"@),
{
    reveal_strlit("rice");
    reveal_strlit("millet");
    reveal_strlit("wheat");
    assert("rice"@.len() == 4 && "millet"@.len() == 6 && "wheat"@.len() == 5);
}

} // verus!
