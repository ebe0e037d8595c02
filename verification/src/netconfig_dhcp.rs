//! The DHCP client settings of the legacy netconfig files.

use vstd::prelude::*;
use crate::text::str_eq;

verus! {

/// What the DHCP client sends as host name.
#[derive(Clone, Debug, PartialEq, Eq, Default)]
pub enum HostnameOption {
    /// Nothing is set.
    #[default]
    Empty,
    /// The host name of the system.
    Auto,
    /// This very name.
    Value(String),
}

#[derive(Clone, Debug, PartialEq, Eq, Default)]
pub struct NetconfigDhcp {
    pub dhclient_hostname_option: HostnameOption,
    pub dhclient6_hostname_option: HostnameOption,
}

impl HostnameOption {
    /// What a configured value stands for: nothing, the keyword `AUTO`, or
    /// a name.
    pub open spec fn spec_from(s: String) -> HostnameOption {
        if s@ == ""@ {
            HostnameOption::Empty
        } else if s@ == "AUTO"@ {
            HostnameOption::Auto
        } else {
            HostnameOption::Value(s)
        }
    }

    /// Reads a configured value.
    pub fn from(s: String) -> (r: HostnameOption)
        ensures
            r == Self::spec_from(s),
    {
        if str_eq(s.as_str(), "") {
            HostnameOption::Empty
        } else if str_eq(s.as_str(), "AUTO") {
            HostnameOption::Auto
        } else {
            HostnameOption::Value(s)
        }
    }

    pub open spec fn spec_is_auto(&self) -> bool {
        self is Auto
    }

    /// Whether the host name of the system is sent.
    #[verifier::when_used_as_spec(spec_is_auto)]
    pub fn is_auto(&self) -> (r: bool)
        ensures
            r == (self is Auto),
    {
        match self {
            HostnameOption::Auto => true,
            _ => false,
        }
    }
}

/// The option that a variable stands for; an unset variable leaves the
/// option empty.
pub open spec fn spec_hostname_option(value: Option<String>) -> HostnameOption {
    match value {
        Some(s) => HostnameOption::spec_from(s),
        None => HostnameOption::Empty,
    }
}

/// The DHCP client settings that the values of `DHCLIENT_HOSTNAME_OPTION`
/// and `DHCLIENT6_HOSTNAME_OPTION` stand for.
pub fn handle_netconfig_dhcp_values(
    dhclient_hostname_option: Option<String>,
    dhclient6_hostname_option: Option<String>,
) -> (r: NetconfigDhcp)
    ensures
        r.dhclient_hostname_option == spec_hostname_option(dhclient_hostname_option),
        r.dhclient6_hostname_option == spec_hostname_option(dhclient6_hostname_option),
{
    let v4 = match dhclient_hostname_option {
        Some(s) => HostnameOption::from(s),
        None => HostnameOption::Empty,
    };
    let v6 = match dhclient6_hostname_option {
        Some(s) => HostnameOption::from(s),
        None => HostnameOption::Empty,
    };
    NetconfigDhcp { dhclient_hostname_option: v4, dhclient6_hostname_option: v6 }
}

} // verus!
