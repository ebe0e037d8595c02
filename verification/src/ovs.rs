//! Open vSwitch bridge records.

use vstd::prelude::*;

verus! {

/// An open-vswitch bridge. With `vlan` set it is a "fake bridge": a
/// VLAN-tagged part of the bridge that `vlan.parent` names.
#[derive(Clone, Debug, PartialEq, Eq, Default)]
pub struct OvsBridge {
    pub vlan: Option<OvsBridgeVlan>,
}

#[derive(Clone, Debug, PartialEq, Eq, Default)]
pub struct OvsBridgeVlan {
    pub parent: String,
    pub tag: u16,
}

} // verus!
