//! VLAN records.

use vstd::prelude::*;
use crate::model::{ConnectionConfig, ConnectionConfigView, VlanConfig, VlanConfigView, VlanProtocol};

verus! {

/// The tagging protocol of a VLAN.
#[allow(non_camel_case_types)]
#[derive(Clone, Copy, Debug, PartialEq, Eq, Structural, Default)]
pub enum WickedVlanProtocol {
    #[default]
    Ieee802_1Q,
    Ieee802Ad,
}

#[derive(Clone, Debug, PartialEq, Eq)]
pub struct Vlan {
    /// The interface that carries the VLAN.
    pub device: String,
    pub address: Option<String>,
    pub protocol: WickedVlanProtocol,
    pub tag: u16,
}

impl WickedVlanProtocol {
    pub open spec fn spec_name(&self) -> Seq<char> {
        match self {
            WickedVlanProtocol::Ieee802_1Q => "ieee802-1Q"@,
            WickedVlanProtocol::Ieee802Ad => "ieee802-ad"@,
        }
    }

    /// The keyword of the protocol in the legacy format.
    pub fn to_string(&self) -> (r: String)
        ensures
            r@ == self.spec_name(),
    {
        match self {
            WickedVlanProtocol::Ieee802_1Q => "ieee802-1Q".to_owned(),
            WickedVlanProtocol::Ieee802Ad => "ieee802-ad".to_owned(),
        }
    }

    pub open spec fn spec_protocol(&self) -> VlanProtocol {
        match self {
            WickedVlanProtocol::Ieee802_1Q => VlanProtocol::IEEE802_1Q,
            WickedVlanProtocol::Ieee802Ad => VlanProtocol::IEEE802_1ad,
        }
    }

    /// The protocol in the target model: 802.1Q, or 802.1ad.
    pub fn to_protocol(&self) -> (r: VlanProtocol)
        ensures
            r == self.spec_protocol(),
    {
        match self {
            WickedVlanProtocol::Ieee802_1Q => VlanProtocol::IEEE802_1Q,
            WickedVlanProtocol::Ieee802Ad => VlanProtocol::IEEE802_1ad,
        }
    }
}

impl Vlan {
    pub open spec fn spec_config(&self) -> ConnectionConfigView {
        ConnectionConfigView::Vlan(
            VlanConfigView {
                parent: self.device@,
                id: self.tag as u32,
                protocol: self.protocol.spec_protocol(),
            },
        )
    }

    /// The VLAN configuration: parent device, tag and protocol.
    pub fn to_config(&self) -> (r: ConnectionConfig)
        ensures
            r.deep_view() == self.spec_config(),
    {
        ConnectionConfig::Vlan(
            VlanConfig {
                parent: self.device.clone(),
                id: self.tag as u32,
                protocol: self.protocol.to_protocol(),
            },
        )
    }
}

} // verus!
