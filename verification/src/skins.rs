//! Operator outfits.

use vstd::prelude::*;

verus! {


/// An equippable outfit of an operator.
#[derive(Debug)]
pub struct OperatorSkin {
    /// The internal ID of this skin.
    pub id: String,
    pub name: Option<String>,
    /// The ID of the operator this skin belongs to.
    pub model_id: String,
    /// The name of the operator this skin belongs to.
    pub model_name: String,
    /// Whether this skin is paid for.
    pub is_paid: bool,
    pub illustration_id: String,
    pub illustration_live_id: Option<String>,
    pub avatar_id: String,
    pub portrait_id: String,
    pub illustrator: String,
    pub group: String,
    pub dialog: Option<String>,
    pub usage: Option<String>,
    pub description: Option<String>,
    pub obtain: Option<String>,
}

/// One operator's outfits, grouped for assembly: the outfit records keyed
/// by skin ID, and the default outfit of each promotion tier.
#[derive(Debug)]
pub struct OperatorSkinGroup {
    /// The outfits of this operator, keyed by skin ID.
    pub skins: crate::dict::Dict<OperatorSkin>,
    /// The default outfit unlocked at each promotion tier.
    pub default_skins: (Option<String>, Option<String>, Option<String>),
}

} // verus!
