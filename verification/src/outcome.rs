//! Which failures a translation, a resolution and a network state can end
//! in. The failure to draw uuids that differ comes from the draw alone: no
//! rule of the translation or of resolution gives it.

use vstd::prelude::*;
use crate::interface::{spec_addresses_onto, spec_routes_onto, Address, Interface, Route};
use crate::ip::IpInet;
use crate::migrate::{
    spec_add_connections_onto, spec_collect_onto, spec_networkstate, spec_pass, spec_resolve,
    spec_steps_onto, PendingLinkView, Step,
};
use crate::model::{ConnectionView, IpConfigView, IpRoute};
use crate::netconfig_dhcp::NetconfigDhcp;
use crate::report::{FailureView, WarningView};
use crate::settings::MigrationSettings;
use crate::topology::distinct_uuids;
use crate::wireless::Network;

verus! {

/// Whether `r` is the failure to draw uuids that differ.
pub open spec fn is_duplicate<T>(r: Result<T, FailureView>) -> bool {
    r is Err && r->Err_0 == FailureView::DuplicateUuid
}

/// Static addresses never fail for want of a uuid.
pub proof fn lemma_addresses_failure(
    name: Seq<char>,
    done: (Seq<IpInet>, Seq<WarningView>),
    rest: Seq<Address>,
    check_broadcast: bool,
)
    ensures
        !is_duplicate(spec_addresses_onto(name, done, rest, check_broadcast)),
    decreases rest.len(),
{
    if rest.len() > 0 {
        match crate::interface::spec_address(name, rest[0], check_broadcast) {
            Err(e) => {},
            Ok((inet, warnings)) => {
                lemma_addresses_failure(
                    name,
                    (done.0.push(inet), done.1 + warnings),
                    rest.drop_first(),
                    check_broadcast,
                );
            },
        }
    }
}

/// Routes never fail for want of a uuid.
pub proof fn lemma_routes_failure(name: Seq<char>, done: (Seq<IpRoute>, Seq<WarningView>), rest: Seq<Route>)
    ensures
        !is_duplicate(spec_routes_onto(name, done, rest)),
    decreases rest.len(),
{
    if rest.len() > 0 {
        match rest[0].spec_ip_route() {
            Ok(route) => {
                lemma_routes_failure(name, (done.0.push(route), done.1), rest.drop_first());
            },
            Err(e) => {
                if e.spec_failure() is None {
                    lemma_routes_failure(
                        name,
                        (done.0, done.1.push(WarningView::MultipathRoute { interface: name })),
                        rest.drop_first(),
                    );
                }
            },
        }
    }
}

/// The IP settings never fail for want of a uuid.
pub proof fn lemma_ip_config_failure(ifc: Interface, netconfig_dhcp: Option<NetconfigDhcp>)
    ensures
        !is_duplicate(ifc.spec_ip_config(netconfig_dhcp)),
{
    let none4 = (Seq::<IpInet>::empty(), Seq::<WarningView>::empty());
    let none = (Seq::<IpRoute>::empty(), Seq::<WarningView>::empty());
    lemma_addresses_failure(ifc.name@, none4, ifc.spec_addresses4(), true);
    lemma_routes_failure(ifc.name@, none, ifc.spec_routes4());
    lemma_addresses_failure(ifc.name@, none4, ifc.spec_addresses6(), false);
    lemma_routes_failure(ifc.name@, none, ifc.spec_routes6());
}

/// The networks of a wireless interface never fail for want of a uuid.
pub proof fn lemma_networks_failure(
    ifc: Interface,
    settings: MigrationSettings,
    ip: IpConfigView,
    controller: Option<u128>,
    uuids: Seq<u128>,
    networks: Seq<Network>,
    index: nat,
    done: (Seq<ConnectionView>, Seq<WarningView>),
)
    ensures
        !is_duplicate(
            ifc.spec_networks_onto(settings, ip, controller, uuids, networks, index, done),
        ),
    decreases networks.len() - index,
{
    if index < networks.len() {
        match ifc.spec_network_connection(
            settings,
            ip,
            controller,
            uuids[index as int],
            networks[index as int],
            index,
            networks.len(),
        ) {
            Err(e) => {
                lemma_network_failure(networks[index as int], settings.continue_migration);
            },
            Ok((c, warnings)) => {
                lemma_networks_failure(
                    ifc,
                    settings,
                    ip,
                    controller,
                    uuids,
                    networks,
                    index + 1,
                    (done.0.push(c), done.1 + warnings),
                );
            },
        }
    }
}

/// A wireless network never fails for want of a uuid.
pub proof fn lemma_network_failure(network: Network, continue_migration: bool)
    ensures
        !is_duplicate(network.spec_config(continue_migration)),
        network.wpa_eap is Some ==> !is_duplicate(network.wpa_eap.unwrap().spec_ieee_8021x_config()),
{
}

/// The translation of an interface never fails for want of a uuid by
/// itself: that failure comes from the draw alone.
pub proof fn lemma_translation_failure(
    ifc: Interface,
    settings: MigrationSettings,
    netconfig_dhcp: Option<NetconfigDhcp>,
    port_uuid: u128,
    uuids: Seq<u128>,
)
    ensures
        !is_duplicate(ifc.spec_connections(settings, netconfig_dhcp, port_uuid, uuids)),
{
    lemma_ip_config_failure(ifc, netconfig_dhcp);
    match ifc.spec_ip_config(netconfig_dhcp) {
        Err(e) => {},
        Ok((ip, ip_warnings)) => {
            let lead = if ifc.spec_has_ovs_link() {
                seq![ifc.spec_ovs_port(port_uuid, None, None)]
            } else {
                Seq::empty()
            };
            let controller = if ifc.spec_has_ovs_link() {
                Some(port_uuid)
            } else {
                None
            };
            let warnings = ip_warnings + ifc.spec_unhandled_warnings();
            match ifc.spec_technology() {
                crate::connection::Technology::Wireless(w) => match w.networks {
                    Some(networks) => {
                        lemma_networks_failure(
                            ifc,
                            settings,
                            ip,
                            controller,
                            uuids,
                            networks@,
                            0,
                            (lead, warnings),
                        );
                    },
                    None => {},
                },
                _ => {},
            }
        },
    }
}

/// The steps of a pass never fail for want of a uuid.
pub proof fn lemma_steps_failure(
    conns: Seq<ConnectionView>,
    continue_migration: bool,
    done: Seq<Step>,
    rest: Seq<PendingLinkView>,
)
    ensures
        !is_duplicate(spec_steps_onto(conns, continue_migration, done, rest)),
    decreases rest.len(),
{
    if rest.len() > 0 {
        match crate::migrate::spec_checked_step(conns, rest[0], continue_migration) {
            Err(e) => {},
            Ok(step) => {
                lemma_steps_failure(conns, continue_migration, done.push(step), rest.drop_first());
            },
        }
    }
}

/// Resolution never fails for want of a uuid.
pub proof fn lemma_resolve_failure(
    conns: Seq<ConnectionView>,
    pending: Seq<PendingLinkView>,
    warnings: Seq<WarningView>,
    continue_migration: bool,
)
    ensures
        !is_duplicate(spec_resolve(conns, pending, warnings, continue_migration)),
    decreases pending.len(),
{
    lemma_steps_failure(conns, continue_migration, Seq::empty(), pending);
    match spec_pass(conns, pending, continue_migration) {
        Err(e) => {},
        Ok((c, p, w)) => {
            if p.len() != 0 && p.len() < pending.len() {
                lemma_resolve_failure(c, p, warnings + w, continue_migration);
            }
        },
    }
}

/// Putting a network state together fails for want of a uuid exactly
/// where two of the connections that were gathered have the same uuid.
pub proof fn lemma_duplicate_is_collision(
    interfaces: Seq<Interface>,
    results: Seq<(Seq<ConnectionView>, Seq<WarningView>)>,
    input_warnings: Seq<WarningView>,
    settings: MigrationSettings,
    present: Seq<Seq<char>>,
)
    ensures
        is_duplicate(spec_networkstate(interfaces, results, input_warnings, settings, present))
            == !distinct_uuids(
            spec_collect_onto((Seq::empty(), Seq::empty(), input_warnings), interfaces, results, 0).0,
        ),
{
    let gathered = spec_collect_onto(
        (Seq::empty(), Seq::empty(), input_warnings),
        interfaces,
        results,
        0,
    );
    lemma_resolve_failure(gathered.0, gathered.1, gathered.2, settings.continue_migration);
}

/// Whether no interface draws a uuid that ends up in a connection: the
/// technology of each gives no connection, as that of a wireless interface
/// without networks, and none is a port of an open-vswitch bridge.
pub open spec fn draws_nothing(interfaces: Seq<Interface>) -> bool {
    forall|i: int|
        0 <= i < interfaces.len() ==> (#[trigger] interfaces[i]).spec_technology_count() == 0
            && !interfaces[i].spec_has_ovs_link()
}

/// An interface whose technology gives no connection and which is no port
/// of an open-vswitch bridge is translated to no connection at all.
pub proof fn lemma_no_draw_no_connection(
    ifc: Interface,
    settings: MigrationSettings,
    netconfig_dhcp: Option<NetconfigDhcp>,
    port_uuid: u128,
    uuids: Seq<u128>,
)
    requires
        ifc.spec_technology_count() == 0,
        !ifc.spec_has_ovs_link(),
    ensures
        match ifc.spec_connections(settings, netconfig_dhcp, port_uuid, uuids) {
            Ok((conns, warnings)) => conns.len() == 0,
            Err(e) => true,
        },
{
}

/// Results without a connection leave the connections and the pending
/// links as they were gathered before.
pub proof fn lemma_collect_nothing(
    state: (Seq<ConnectionView>, Seq<PendingLinkView>, Seq<WarningView>),
    interfaces: Seq<Interface>,
    results: Seq<(Seq<ConnectionView>, Seq<WarningView>)>,
    index: nat,
)
    requires
        results.len() == interfaces.len(),
        forall|k: int| index <= k < results.len() ==> (#[trigger] results[k]).0.len() == 0,
    ensures
        spec_collect_onto(state, interfaces, results, index).0 == state.0,
        spec_collect_onto(state, interfaces, results, index).1 == state.1,
    decreases interfaces.len() - index,
{
    if index < interfaces.len() {
        let added = spec_add_connections_onto(
            (state.0, state.1),
            interfaces[index as int],
            results[index as int].0,
            0,
        );
        assert(added == (state.0, state.1));
        lemma_collect_nothing(
            (added.0, added.1, state.2 + results[index as int].1),
            interfaces,
            results,
            index + 1,
        );
    }
}

/// Where no interface draws a uuid that ends up in a connection, the
/// network state of their translations does not fail for want of a uuid.
pub proof fn lemma_nothing_drawn(
    interfaces: Seq<Interface>,
    results: Seq<(Seq<ConnectionView>, Seq<WarningView>)>,
    input_warnings: Seq<WarningView>,
    settings: MigrationSettings,
    netconfig_dhcp: Option<NetconfigDhcp>,
    present: Seq<Seq<char>>,
)
    requires
        draws_nothing(interfaces),
        crate::migrate::are_translations(interfaces, results, settings, netconfig_dhcp),
    ensures
        !is_duplicate(spec_networkstate(interfaces, results, input_warnings, settings, present)),
        interfaces.len() == 0 ==> spec_networkstate(
            interfaces,
            results,
            input_warnings,
            settings,
            present,
        ) == Ok::<_, FailureView>((Seq::<ConnectionView>::empty(), input_warnings)),
{
    assert forall|k: int| 0 <= k < results.len() implies (#[trigger] results[k]).0.len() == 0 by {
        assert(crate::migrate::is_translation(interfaces[k], results[k], settings, netconfig_dhcp));
        let (port_uuid, uuids) = choose|port_uuid: u128, uuids: Seq<u128>|
            uuids.len() == interfaces[k].spec_technology_count() && Ok::<
                (Seq<ConnectionView>, Seq<WarningView>),
                FailureView,
            >(results[k]) == #[trigger] interfaces[k].spec_connections(
                settings,
                netconfig_dhcp,
                port_uuid,
                uuids,
            );
        lemma_no_draw_no_connection(interfaces[k], settings, netconfig_dhcp, port_uuid, uuids);
    }
    let start = (Seq::<ConnectionView>::empty(), Seq::<PendingLinkView>::empty(), input_warnings);
    lemma_collect_nothing(start, interfaces, results, 0);
    lemma_duplicate_is_collision(interfaces, results, input_warnings, settings, present);
    if interfaces.len() == 0 {
        crate::migrate::lemma_resolution_idempotent(
            Seq::empty(),
            Seq::empty(),
            input_warnings,
            settings.continue_migration,
        );
        let corrected = crate::migrate::spec_activation(Seq::empty(), settings, present);
        assert(corrected =~= Seq::empty());
    }
}

} // verus!
