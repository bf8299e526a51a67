//! Asset references. Assets live on disk; the project holds their paths.

use vstd::prelude::*;

verus! {

#[derive(Clone, Copy, Debug, PartialEq, Eq, Structural, Hash)]
pub struct AssetId(pub u32);

#[derive(Clone, Copy, Debug, PartialEq, Eq, Structural, Hash)]
pub enum AssetKind {
    Video,
    Image,
    Audio,
}

#[derive(Clone, Debug, PartialEq, Eq)]
pub struct Asset {
    pub id: AssetId,
    pub path: String,
    pub kind: AssetKind,
}

/// What an asset holds.
#[verifier::ext_equal]
pub struct AssetModel {
    pub id: AssetId,
    pub path: Seq<char>,
    pub kind: AssetKind,
}

impl View for Asset {
    type V = AssetModel;

    open spec fn view(&self) -> AssetModel {
        AssetModel { id: self.id, path: self.path@, kind: self.kind }
    }
}

impl Asset {
    /// A copy of this asset.
    pub fn duplicate(&self) -> (r: Self)
        ensures
            r@ == self@,
    {
        Asset { id: self.id, path: self.path.clone(), kind: self.kind }
    }
}

} // verus!
