//! TUN and TAP device records.

use vstd::prelude::*;
use crate::model::{ConnectionConfig, ConnectionConfigView, TunConfig, TunConfigView, TunMode};
use crate::text::{decimal, u32_to_string};

verus! {

#[derive(Clone, Debug, PartialEq, Eq, Default)]
pub struct Tun {
    pub owner: Option<u32>,
    pub group: Option<u32>,
}

#[derive(Clone, Debug, PartialEq, Eq, Default)]
pub struct Tap {
    pub owner: Option<u32>,
    pub group: Option<u32>,
}

/// A numeric id in decimal, if there is one.
pub open spec fn spec_id_text(id: Option<u32>) -> Option<Seq<char>> {
    match id {
        Some(v) => Some(decimal(v as nat)),
        None => None,
    }
}

fn id_text(id: Option<u32>) -> (r: Option<String>)
    ensures
        r.deep_view() == spec_id_text(id),
{
    match id {
        Some(v) => Some(u32_to_string(v)),
        None => None,
    }
}

impl Tun {
    pub open spec fn spec_config(&self) -> ConnectionConfigView {
        ConnectionConfigView::Tun(
            TunConfigView {
                mode: TunMode::Tun,
                group: spec_id_text(self.group),
                owner: spec_id_text(self.owner),
            },
        )
    }

    /// The configuration of a TUN device with this owner and group.
    pub fn to_config(&self) -> (r: ConnectionConfig)
        ensures
            r.deep_view() == self.spec_config(),
    {
        ConnectionConfig::Tun(
            TunConfig { mode: TunMode::Tun, group: id_text(self.group), owner: id_text(self.owner) },
        )
    }
}

impl Tap {
    pub open spec fn spec_config(&self) -> ConnectionConfigView {
        ConnectionConfigView::Tun(
            TunConfigView {
                mode: TunMode::Tap,
                group: spec_id_text(self.group),
                owner: spec_id_text(self.owner),
            },
        )
    }

    /// The configuration of a TAP device with this owner and group.
    pub fn to_config(&self) -> (r: ConnectionConfig)
        ensures
            r.deep_view() == self.spec_config(),
    {
        ConnectionConfig::Tun(
            TunConfig { mode: TunMode::Tap, group: id_text(self.group), owner: id_text(self.owner) },
        )
    }
}

} // verus!
