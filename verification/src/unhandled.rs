//! Fields of an interface record that the target model has no place for.
//!
//! They are not dropped in silence: each one that differs from its default
//! is reported.

use vstd::prelude::*;
use crate::interface::{Interface, Ipv4Dhcp, Ipv6Auto, Ipv6Dhcp};
use crate::report::{Severity, UnhandledField, Warning, WarningView};
use crate::text::str_eq;

verus! {

/// `field` if `differs`, nothing if not.
pub open spec fn flagged(differs: bool, field: UnhandledField) -> Seq<UnhandledField> {
    if differs {
        seq![field]
    } else {
        Seq::empty()
    }
}

fn push_flagged(fields: &mut Vec<UnhandledField>, differs: bool, field: UnhandledField)
    ensures
        final(fields)@ == old(fields)@ + flagged(differs, field),
{
    if differs {
        fields.push(field);
        assert(fields@ =~= old(fields)@ + seq![field]);
    } else {
        assert(fields@ =~= old(fields)@ + Seq::empty());
    }
}

impl Ipv4Dhcp {
    /// The fields without counterpart that differ from their defaults.
    pub open spec fn spec_unhandled_fields(&self) -> Seq<UnhandledField> {
        flagged(self.flags@ != "group"@, UnhandledField::Ipv4DhcpFlags) + flagged(
            self.update@ != "default-route,dns,nis,ntp,nds,mtu,tz,boot"@,
            UnhandledField::Ipv4DhcpUpdate,
        ) + flagged(self.defer_timeout != 15, UnhandledField::Ipv4DhcpDeferTimeout) + flagged(
            !self.recover_lease,
            UnhandledField::Ipv4DhcpRecoverLease,
        )
    }

    /// The fields without counterpart that differ from their defaults.
    pub fn unhandled_fields(&self) -> (r: Vec<UnhandledField>)
        ensures
            r@ == self.spec_unhandled_fields(),
    {
        let mut fields: Vec<UnhandledField> = Vec::new();
        let flags = !str_eq(self.flags.as_str(), "group");
        push_flagged(&mut fields, flags, UnhandledField::Ipv4DhcpFlags);
        assert(fields@ =~= flagged(flags, UnhandledField::Ipv4DhcpFlags));
        push_flagged(
            &mut fields,
            !str_eq(self.update.as_str(), "default-route,dns,nis,ntp,nds,mtu,tz,boot"),
            UnhandledField::Ipv4DhcpUpdate,
        );
        push_flagged(&mut fields, self.defer_timeout != 15, UnhandledField::Ipv4DhcpDeferTimeout);
        push_flagged(&mut fields, !self.recover_lease, UnhandledField::Ipv4DhcpRecoverLease);
        fields
    }
}

impl Ipv6Dhcp {
    /// The fields without counterpart that differ from their defaults.
    pub open spec fn spec_unhandled_fields(&self) -> Seq<UnhandledField> {
        flagged(self.flags@ != "group"@, UnhandledField::Ipv6DhcpFlags) + flagged(
            self.update@ != "dns,nis,ntp,tz,boot"@,
            UnhandledField::Ipv6DhcpUpdate,
        ) + flagged(!self.rapid_commit, UnhandledField::Ipv6DhcpRapidCommit) + flagged(
            self.defer_timeout != 15,
            UnhandledField::Ipv6DhcpDeferTimeout,
        ) + flagged(!self.recover_lease, UnhandledField::Ipv6DhcpRecoverLease) + flagged(
            self.refresh_lease,
            UnhandledField::Ipv6DhcpRefreshLease,
        )
    }

    /// The fields without counterpart that differ from their defaults.
    pub fn unhandled_fields(&self) -> (r: Vec<UnhandledField>)
        ensures
            r@ == self.spec_unhandled_fields(),
    {
        let mut fields: Vec<UnhandledField> = Vec::new();
        let flags = !str_eq(self.flags.as_str(), "group");
        push_flagged(&mut fields, flags, UnhandledField::Ipv6DhcpFlags);
        assert(fields@ =~= flagged(flags, UnhandledField::Ipv6DhcpFlags));
        push_flagged(
            &mut fields,
            !str_eq(self.update.as_str(), "dns,nis,ntp,tz,boot"),
            UnhandledField::Ipv6DhcpUpdate,
        );
        push_flagged(&mut fields, !self.rapid_commit, UnhandledField::Ipv6DhcpRapidCommit);
        push_flagged(&mut fields, self.defer_timeout != 15, UnhandledField::Ipv6DhcpDeferTimeout);
        push_flagged(&mut fields, !self.recover_lease, UnhandledField::Ipv6DhcpRecoverLease);
        push_flagged(&mut fields, self.refresh_lease, UnhandledField::Ipv6DhcpRefreshLease);
        fields
    }
}

impl Ipv6Auto {
    /// The fields without counterpart that differ from their defaults.
    pub open spec fn spec_unhandled_fields(&self) -> Seq<UnhandledField> {
        flagged(self.update@ != "dns"@, UnhandledField::Ipv6AutoUpdate)
    }

    /// The fields without counterpart that differ from their defaults.
    pub fn unhandled_fields(&self) -> (r: Vec<UnhandledField>)
        ensures
            r@ == self.spec_unhandled_fields(),
    {
        let mut fields: Vec<UnhandledField> = Vec::new();
        let update = !str_eq(self.update.as_str(), "dns");
        push_flagged(&mut fields, update, UnhandledField::Ipv6AutoUpdate);
        assert(fields@ =~= flagged(update, UnhandledField::Ipv6AutoUpdate));
        fields
    }
}

/// The warnings that report `fields` of the interface `name`.
pub open spec fn field_warnings(name: Seq<char>, fields: Seq<UnhandledField>) -> Seq<WarningView> {
    Seq::new(
        fields.len(),
        |i: int| WarningView::UnhandledField { interface: name, field: fields[i] },
    )
}

impl Interface {
    /// The fields without counterpart that differ from their defaults, in
    /// the order of the record: IPv4, IPv6, DHCPv4, DHCPv6, IPv6
    /// autoconfiguration.
    pub open spec fn spec_unhandled_fields(&self) -> Seq<UnhandledField> {
        flagged(!self.ipv4.arp_verify, UnhandledField::Ipv4ArpVerify) + flagged(
            self.ipv6.accept_redirects,
            UnhandledField::Ipv6AcceptRedirects,
        ) + (match self.ipv4_dhcp {
            Some(d) => d.spec_unhandled_fields(),
            None => Seq::empty(),
        }) + (match self.ipv6_dhcp {
            Some(d) => d.spec_unhandled_fields(),
            None => Seq::empty(),
        }) + (match self.ipv6_auto {
            Some(a) => a.spec_unhandled_fields(),
            None => Seq::empty(),
        })
    }

    /// The fields without counterpart that differ from their defaults.
    pub fn unhandled_fields(&self) -> (r: Vec<UnhandledField>)
        ensures
            r@ == self.spec_unhandled_fields(),
    {
        let mut fields: Vec<UnhandledField> = Vec::new();
        push_flagged(&mut fields, !self.ipv4.arp_verify, UnhandledField::Ipv4ArpVerify);
        assert(fields@ =~= flagged(!self.ipv4.arp_verify, UnhandledField::Ipv4ArpVerify));
        push_flagged(&mut fields, self.ipv6.accept_redirects, UnhandledField::Ipv6AcceptRedirects);
        let ghost g = fields@;
        match &self.ipv4_dhcp {
            Some(d) => {
                let mut part = d.unhandled_fields();
                fields.append(&mut part);
            },
            None => {
                assert(fields@ =~= g + Seq::empty());
            },
        }
        let ghost g = fields@;
        match &self.ipv6_dhcp {
            Some(d) => {
                let mut part = d.unhandled_fields();
                fields.append(&mut part);
            },
            None => {
                assert(fields@ =~= g + Seq::empty());
            },
        }
        let ghost g = fields@;
        match &self.ipv6_auto {
            Some(a) => {
                let mut part = a.unhandled_fields();
                fields.append(&mut part);
            },
            None => {
                assert(fields@ =~= g + Seq::empty());
            },
        }
        fields
    }

    /// The warnings that report the unhandled fields of the interface.
    pub open spec fn spec_unhandled_warnings(&self) -> Seq<WarningView> {
        field_warnings(self.name@, self.spec_unhandled_fields())
    }

    /// One warning for each unhandled field of the interface.
    pub fn unhandled_warnings(&self) -> (r: Vec<Warning>)
        ensures
            r.deep_view() == self.spec_unhandled_warnings(),
    {
        let fields = self.unhandled_fields();
        let mut out: Vec<Warning> = Vec::new();
        let mut i: usize = 0;
        assert(out.deep_view() =~= field_warnings(self.name@, fields@.take(0)));
        while i < fields.len()
            invariant
                i <= fields.len(),
                out.deep_view() == field_warnings(self.name@, fields@.take(i as int)),
            decreases fields.len() - i,
        {
            let ghost before = out.deep_view();
            assert(before.len() == out@.len());
            out.push(Warning::UnhandledField { interface: self.name.clone(), field: fields[i] });
            assert(out.deep_view() =~= before.push(
                WarningView::UnhandledField { interface: self.name@, field: fields[i as int] },
            ));
            i = i + 1;
            assert(out.deep_view() =~= field_warnings(self.name@, fields@.take(i as int)));
        }
        assert(fields@.take(fields.len() as int) =~= fields@);
        out
    }
}

/// Whether one of `fields` weighs as a warning.
pub open spec fn any_field_warns(fields: Seq<UnhandledField>) -> bool {
    exists|i: int| 0 <= i < fields.len() && (#[trigger] fields[i]).spec_severity() == Severity::Warning
}

fn field_warns(fields: &Vec<UnhandledField>) -> (r: bool)
    ensures
        r == any_field_warns(fields@),
{
    let mut i: usize = 0;
    while i < fields.len()
        invariant
            i <= fields.len(),
            forall|k: int| 0 <= k < i ==> (#[trigger] fields@[k]).spec_severity() != Severity::Warning,
        decreases fields.len() - i,
    {
        match fields[i].severity() {
            Severity::Warning => {
                return true;
            },
            Severity::Notice => {},
        }
        i = i + 1;
    }
    false
}

/// Whether a field of the interface that has no counterpart differs from
/// its default in a way that weighs as a warning. A changed DHCP `update`
/// list does not.
pub fn has_unhandled_field(interface: &Interface) -> (r: bool)
    ensures
        r == any_field_warns(interface.spec_unhandled_fields()),
{
    let fields = interface.unhandled_fields();
    field_warns(&fields)
}

} // verus!
