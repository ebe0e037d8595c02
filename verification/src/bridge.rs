//! Bridge records.

use vstd::prelude::*;
use crate::model::{BridgeConfig, ConnectionConfig, ConnectionConfigView};

verus! {

/// A bridge. The timers are in whole seconds.
#[derive(Clone, Debug, PartialEq, Eq, Default)]
pub struct Bridge {
    /// Spanning tree; off unless the record turns it on.
    pub stp: bool,
    pub priority: Option<u16>,
    pub forward_delay: Option<u32>,
    pub hello_time: Option<u32>,
    pub max_age: Option<u32>,
    pub aging_time: Option<u32>,
    pub address: Option<String>,
}

/// A 16-bit priority, widened.
pub open spec fn spec_widen(v: Option<u16>) -> Option<u32> {
    match v {
        Some(p) => Some(p as u32),
        None => None,
    }
}

impl Bridge {
    pub open spec fn spec_bridge_config(&self) -> BridgeConfig {
        BridgeConfig {
            stp: Some(self.stp),
            priority: spec_widen(self.priority),
            forward_delay: self.forward_delay,
            hello_time: self.hello_time,
            max_age: self.max_age,
            ageing_time: self.aging_time,
        }
    }

    pub open spec fn spec_config(&self) -> ConnectionConfigView {
        ConnectionConfigView::Bridge(self.spec_bridge_config())
    }

    /// The bridge configuration: spanning tree as set, the other fields
    /// carried over where the record has them.
    pub fn to_config(&self) -> (r: ConnectionConfig)
        ensures
            r.deep_view() == self.spec_config(),
    {
        let priority: Option<u32> = match self.priority {
            Some(p) => Some(p as u32),
            None => None,
        };
        ConnectionConfig::Bridge(
            BridgeConfig {
                stp: Some(self.stp),
                priority,
                forward_delay: self.forward_delay,
                hello_time: self.hello_time,
                max_age: self.max_age,
                ageing_time: self.aging_time,
            },
        )
    }
}

} // verus!
