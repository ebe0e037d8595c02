//! What is gathered from a batch of translated interfaces, connection by
//! connection and link by link, and what follows for a fake open-vswitch
//! bridge with its ports.

use vstd::prelude::*;
use crate::connection::Technology;
use crate::interface::Interface;
use crate::migrate::{
    find_interface, find_uuid, spec_add_connections_onto, spec_collect_onto, spec_insert_pending,
    spec_link_for, PendingLinkView,
};
use crate::model::{ConnectionView, IpConfigView};
use crate::netconfig_dhcp::NetconfigDhcp;
use crate::report::{FailureView, WarningView};
use crate::settings::MigrationSettings;
use crate::topology::{
    distinct_uuids, has_uuid, lemma_insert_pending_contains, lemma_insert_pending_keeps,
    lemma_push_duplicate, lemma_push_refers_back_has,
};
use crate::wireless::Network;

verus! {

/// The connections of the results from `index` on, one result behind the
/// other.
pub open spec fn spec_flat(results: Seq<(Seq<ConnectionView>, Seq<WarningView>)>, index: nat) -> Seq<
    ConnectionView,
>
    decreases results.len() - index,
{
    if index >= results.len() {
        Seq::empty()
    } else {
        results[index as int].0 + spec_flat(results, index + 1)
    }
}

/// The connections of an interface are gathered in their order, behind
/// those that were gathered before.
pub proof fn lemma_add_connections_conns(
    state: (Seq<ConnectionView>, Seq<PendingLinkView>),
    ifc: Interface,
    conns: Seq<ConnectionView>,
    index: nat,
)
    requires
        index <= conns.len(),
    ensures
        spec_add_connections_onto(state, ifc, conns, index).0 == state.0 + conns.skip(index as int),
    decreases conns.len() - index,
{
    if index < conns.len() {
        let c = conns[index as int];
        let next = (
            state.0.push(c),
            match spec_link_for(ifc, c) {
                Some(link) => spec_insert_pending(state.1, link),
                None => state.1,
            },
        );
        lemma_add_connections_conns(next, ifc, conns, index + 1);
        assert(state.0.push(c) + conns.skip(index as int + 1) =~= state.0 + conns.skip(index as int));
    } else {
        assert(state.0 + conns.skip(index as int) =~= state.0);
    }
}

/// The connections of a batch are gathered result by result, behind those
/// that were gathered before.
pub proof fn lemma_collect_conns(
    state: (Seq<ConnectionView>, Seq<PendingLinkView>, Seq<WarningView>),
    interfaces: Seq<Interface>,
    results: Seq<(Seq<ConnectionView>, Seq<WarningView>)>,
    index: nat,
)
    requires
        results.len() == interfaces.len(),
    ensures
        spec_collect_onto(state, interfaces, results, index).0 == state.0 + spec_flat(results, index),
    decreases interfaces.len() - index,
{
    if index < interfaces.len() {
        let conns = results[index as int].0;
        let added = spec_add_connections_onto((state.0, state.1), interfaces[index as int], conns, 0);
        lemma_add_connections_conns((state.0, state.1), interfaces[index as int], conns, 0);
        assert(conns.skip(0) =~= conns);
        lemma_collect_conns(
            (added.0, added.1, state.2 + results[index as int].1),
            interfaces,
            results,
            index + 1,
        );
        assert((state.0 + conns) + spec_flat(results, index + 1) =~= state.0 + spec_flat(
            results,
            index,
        ));
    } else {
        assert(state.0 + spec_flat(results, index) =~= state.0);
    }
}

/// Whether `c` is a connection of one of the results from `index` on.
pub open spec fn is_from(
    results: Seq<(Seq<ConnectionView>, Seq<WarningView>)>,
    index: nat,
    c: ConnectionView,
) -> bool {
    exists|k: int, j: int|
        index <= k < results.len() && 0 <= j < results[k].0.len() && (#[trigger] results[k].0[j]) == c
}

/// The connections of the results, one result behind the other, are the
/// connections of the results and no others.
pub proof fn lemma_flat(results: Seq<(Seq<ConnectionView>, Seq<WarningView>)>, index: nat)
    ensures
        forall|x: int|
            0 <= x < spec_flat(results, index).len() ==> is_from(
                results,
                index,
                #[trigger] spec_flat(results, index)[x],
            ),
        forall|k: int, j: int|
            index <= k < results.len() && 0 <= j < results[k].0.len() ==> spec_flat(
                results,
                index,
            ).contains(#[trigger] results[k].0[j]),
    decreases results.len() - index,
{
    if index < results.len() {
        lemma_flat(results, index + 1);
        let head = results[index as int].0;
        let tail = spec_flat(results, index + 1);
        let out = spec_flat(results, index);
        assert forall|x: int| 0 <= x < out.len() implies is_from(results, index, #[trigger] out[x]) by {
            if x < head.len() {
                assert(results[index as int].0[x] == out[x]);
            } else {
                assert(out[x] == tail[x - head.len()]);
                assert(is_from(results, index + 1, tail[x - head.len()]));
                let (k, j) = choose|k: int, j: int|
                    index + 1 <= k < results.len() && 0 <= j < results[k].0.len() && (
                    #[trigger] results[k].0[j]) == tail[x - head.len()];
                assert(results[k].0[j] == out[x]);
            }
        }
        assert forall|k: int, j: int|
            index <= k < results.len() && 0 <= j < results[k].0.len() implies out.contains(
            #[trigger] results[k].0[j],
        ) by {
            if k == index {
                assert(out[j] == results[k].0[j]);
            } else {
                assert(tail.contains(results[k].0[j]));
                let x = choose|x: int| 0 <= x < tail.len() && tail[x] == results[k].0[j];
                assert(out[head.len() + x] == results[k].0[j]);
            }
        }
    }
}

/// Among connections with uuids that all differ, a connection is found
/// by its uuid.
pub proof fn lemma_found_by_uuid(conns: Seq<ConnectionView>, c: ConnectionView)
    requires
        distinct_uuids(conns),
        conns.contains(c),
    ensures
        find_uuid(conns, c.uuid) == Some(c),
    decreases conns.len(),
{
    let i = choose|i: int| 0 <= i < conns.len() && conns[i] == c;
    if conns[0].uuid == c.uuid {
        assert(i == 0);
    } else {
        let rest = conns.drop_first();
        assert(rest[i - 1] == c);
        assert forall|a: int, b: int| 0 <= a < b < rest.len() implies (#[trigger] rest[a]).uuid != (
        #[trigger] rest[b]).uuid by {
            assert(rest[a] == conns[a + 1] && rest[b] == conns[b + 1]);
        }
        lemma_found_by_uuid(rest, c);
    }
}

/// A connection is found by its interface where every connection with
/// that interface is the same as it.
pub proof fn lemma_found_by_interface(conns: Seq<ConnectionView>, c: ConnectionView, name: Seq<char>)
    requires
        conns.contains(c),
        c.interface == Some(name),
        forall|i: int| 0 <= i < conns.len() && (#[trigger] conns[i]).interface == Some(name) ==> conns[i] == c,
    ensures
        find_interface(conns, name) == Some(c),
    decreases conns.len(),
{
    let i = choose|i: int| 0 <= i < conns.len() && conns[i] == c;
    if conns[0].interface == Some(name) {
    } else {
        let rest = conns.drop_first();
        assert(rest[i - 1] == c);
        assert forall|a: int| 0 <= a < rest.len() && (#[trigger] rest[a]).interface == Some(name) implies rest[a]
            == c by {
            assert(rest[a] == conns[a + 1]);
        }
        lemma_found_by_interface(rest, c, name);
    }
}

/// Putting a link in leaves the links that were there and the new one,
/// and no others.
pub proof fn lemma_insert_pending_members(pending: Seq<PendingLinkView>, link: PendingLinkView)
    ensures
        forall|i: int|
            0 <= i < spec_insert_pending(pending, link).len() ==> pending.contains(
                #[trigger] spec_insert_pending(pending, link)[i],
            ) || spec_insert_pending(pending, link)[i] == link,
    decreases pending.len(),
{
    let out = spec_insert_pending(pending, link);
    if pending.len() == 0 {
    } else if pending[0].port_uuid == link.port_uuid {
        assert forall|i: int| 0 <= i < out.len() implies pending.contains(#[trigger] out[i]) || out[i]
            == link by {
            if i > 0 {
                assert(out[i] == pending[i]);
            }
        }
    } else {
        let rest = pending.drop_first();
        let tail = spec_insert_pending(rest, link);
        lemma_insert_pending_members(rest, link);
        assert forall|i: int| 0 <= i < out.len() implies pending.contains(#[trigger] out[i]) || out[i]
            == link by {
            if i == 0 {
                assert(out[0] == pending[0]);
            } else {
                assert(out[i] == tail[i - 1]);
                if rest.contains(tail[i - 1]) {
                    let x = choose|x: int| 0 <= x < rest.len() && rest[x] == tail[i - 1];
                    assert(pending[x + 1] == out[i]);
                }
            }
        }
    }
}

/// Whether `link` is the link of one of the connections `conns` of the
/// interface `ifc`, from `index` on.
pub open spec fn link_of(ifc: Interface, conns: Seq<ConnectionView>, index: nat, link: PendingLinkView) -> bool {
    exists|j: int| index <= j < conns.len() && #[trigger] spec_link_for(ifc, conns[j]) == Some(link)
}

/// Whether `link` is the link of a connection of one of the results from
/// `index` on.
pub open spec fn link_from(
    interfaces: Seq<Interface>,
    results: Seq<(Seq<ConnectionView>, Seq<WarningView>)>,
    index: nat,
    link: PendingLinkView,
) -> bool {
    exists|k: int| index <= k < results.len() && #[trigger] link_of(interfaces[k], results[k].0, 0, link)
}

/// The links that are pending after the connections of an interface were
/// gathered were pending before or are links of these connections.
pub proof fn lemma_add_connections_links(
    state: (Seq<ConnectionView>, Seq<PendingLinkView>),
    ifc: Interface,
    conns: Seq<ConnectionView>,
    index: nat,
)
    ensures
        forall|i: int|
            0 <= i < spec_add_connections_onto(state, ifc, conns, index).1.len() ==> state.1.contains(
                #[trigger] spec_add_connections_onto(state, ifc, conns, index).1[i],
            ) || link_of(ifc, conns, index, spec_add_connections_onto(state, ifc, conns, index).1[i]),
    decreases conns.len() - index,
{
    let out = spec_add_connections_onto(state, ifc, conns, index).1;
    if index < conns.len() {
        let c = conns[index as int];
        let next = (
            state.0.push(c),
            match spec_link_for(ifc, c) {
                Some(link) => spec_insert_pending(state.1, link),
                None => state.1,
            },
        );
        lemma_add_connections_links(next, ifc, conns, index + 1);
        assert forall|i: int| 0 <= i < out.len() implies state.1.contains(#[trigger] out[i]) || link_of(
            ifc,
            conns,
            index,
            out[i],
        ) by {
            let later = spec_add_connections_onto(next, ifc, conns, index + 1).1;
            assert(later[i] == out[i]);
            if next.1.contains(out[i]) {
                match spec_link_for(ifc, c) {
                    Some(link) => {
                        lemma_insert_pending_members(state.1, link);
                        let x = choose|x: int| 0 <= x < next.1.len() && next.1[x] == out[i];
                        if out[i] == link {
                            assert(spec_link_for(ifc, conns[index as int]) == Some(out[i]));
                        }
                    },
                    None => {},
                }
            } else {
                assert(link_of(ifc, conns, index + 1, out[i]));
                let j = choose|j: int|
                    index + 1 <= j < conns.len() && #[trigger] spec_link_for(ifc, conns[j]) == Some(
                        out[i],
                    );
                assert(spec_link_for(ifc, conns[j]) == Some(out[i]));
            }
        }
    } else {
        assert forall|i: int| 0 <= i < out.len() implies state.1.contains(#[trigger] out[i]) by {
            assert(state.1[i] == out[i]);
        }
    }
}

/// The links that are pending after a batch was gathered were pending
/// before or are links of connections of the batch.
pub proof fn lemma_collect_links(
    state: (Seq<ConnectionView>, Seq<PendingLinkView>, Seq<WarningView>),
    interfaces: Seq<Interface>,
    results: Seq<(Seq<ConnectionView>, Seq<WarningView>)>,
    index: nat,
)
    requires
        results.len() == interfaces.len(),
    ensures
        forall|i: int|
            0 <= i < spec_collect_onto(state, interfaces, results, index).1.len() ==> state.1.contains(
                #[trigger] spec_collect_onto(state, interfaces, results, index).1[i],
            ) || link_from(
                interfaces,
                results,
                index,
                spec_collect_onto(state, interfaces, results, index).1[i],
            ),
    decreases interfaces.len() - index,
{
    let out = spec_collect_onto(state, interfaces, results, index).1;
    if index < interfaces.len() {
        let ifc = interfaces[index as int];
        let conns = results[index as int].0;
        let added = spec_add_connections_onto((state.0, state.1), ifc, conns, 0);
        let next = (added.0, added.1, state.2 + results[index as int].1);
        lemma_add_connections_links((state.0, state.1), ifc, conns, 0);
        lemma_collect_links(next, interfaces, results, index + 1);
        assert forall|i: int| 0 <= i < out.len() implies state.1.contains(#[trigger] out[i]) || link_from(
            interfaces,
            results,
            index,
            out[i],
        ) by {
            let later = spec_collect_onto(next, interfaces, results, index + 1).1;
            assert(later[i] == out[i]);
            if added.1.contains(out[i]) {
                let x = choose|x: int| 0 <= x < added.1.len() && added.1[x] == out[i];
                if !state.1.contains(out[i]) {
                    assert(link_of(interfaces[index as int], results[index as int].0, 0, out[i]));
                }
            } else {
                assert(link_from(interfaces, results, index + 1, out[i]));
                let k = choose|k: int|
                    index + 1 <= k < results.len() && #[trigger] link_of(
                        interfaces[k],
                        results[k].0,
                        0,
                        out[i],
                    );
                assert(link_of(interfaces[k], results[k].0, 0, out[i]));
            }
        }
    } else {
        assert forall|i: int| 0 <= i < out.len() implies state.1.contains(#[trigger] out[i]) by {
            assert(state.1[i] == out[i]);
        }
    }
}

/// What holds of a link through the gathering: its connection is among
/// the connections, and the link is pending unless two connections have
/// the same uuid.
pub open spec fn link_held(state: (Seq<ConnectionView>, Seq<PendingLinkView>), link: PendingLinkView) -> bool {
    &&& has_uuid(state.0, link.port_uuid)
    &&& state.1.contains(link) || !distinct_uuids(state.0)
}

/// Gathering more connections of an interface keeps hold of a link.
pub proof fn lemma_add_connections_hold(
    state: (Seq<ConnectionView>, Seq<PendingLinkView>),
    ifc: Interface,
    conns: Seq<ConnectionView>,
    index: nat,
    link: PendingLinkView,
)
    requires
        link_held(state, link),
    ensures
        link_held(spec_add_connections_onto(state, ifc, conns, index), link),
    decreases conns.len() - index,
{
    if index < conns.len() {
        let c = conns[index as int];
        let next = (
            state.0.push(c),
            match spec_link_for(ifc, c) {
                Some(other) => spec_insert_pending(state.1, other),
                None => state.1,
            },
        );
        lemma_push_refers_back_has(state.0, c, link.port_uuid);
        if !distinct_uuids(state.0) {
            lemma_push_duplicate(state.0, c);
        } else {
            match spec_link_for(ifc, c) {
                Some(other) => {
                    if other.port_uuid == link.port_uuid {
                        lemma_push_duplicate(state.0, c);
                    } else {
                        lemma_insert_pending_keeps(state.1, other, link);
                    }
                },
                None => {},
            }
        }
        lemma_add_connections_hold(next, ifc, conns, index + 1, link);
    }
}

/// Gathering the connections of an interface takes up the link of each
/// that has one, and keeps hold of it.
pub proof fn lemma_add_connections_take_up(
    state: (Seq<ConnectionView>, Seq<PendingLinkView>),
    ifc: Interface,
    conns: Seq<ConnectionView>,
    index: nat,
    j: int,
)
    requires
        index <= j < conns.len(),
        spec_link_for(ifc, conns[j]) is Some,
    ensures
        link_held(spec_add_connections_onto(state, ifc, conns, index), spec_link_for(ifc, conns[j]).unwrap()),
    decreases conns.len() - index,
{
    let link = spec_link_for(ifc, conns[j]).unwrap();
    let c = conns[index as int];
    let next = (
        state.0.push(c),
        match spec_link_for(ifc, c) {
            Some(other) => spec_insert_pending(state.1, other),
            None => state.1,
        },
    );
    if index == j {
        lemma_insert_pending_contains(state.1, link);
        assert(next.0[state.0.len() as int].uuid == link.port_uuid);
        lemma_add_connections_hold(next, ifc, conns, index + 1, link);
    } else {
        lemma_add_connections_take_up(next, ifc, conns, index + 1, j);
    }
}

/// Gathering more interfaces keeps hold of a link.
pub proof fn lemma_collect_hold(
    state: (Seq<ConnectionView>, Seq<PendingLinkView>, Seq<WarningView>),
    interfaces: Seq<Interface>,
    results: Seq<(Seq<ConnectionView>, Seq<WarningView>)>,
    index: nat,
    link: PendingLinkView,
)
    requires
        results.len() == interfaces.len(),
        link_held((state.0, state.1), link),
    ensures
        link_held(
            (
                spec_collect_onto(state, interfaces, results, index).0,
                spec_collect_onto(state, interfaces, results, index).1,
            ),
            link,
        ),
    decreases interfaces.len() - index,
{
    if index < interfaces.len() {
        let ifc = interfaces[index as int];
        let conns = results[index as int].0;
        let added = spec_add_connections_onto((state.0, state.1), ifc, conns, 0);
        lemma_add_connections_hold((state.0, state.1), ifc, conns, 0, link);
        lemma_collect_hold(
            (added.0, added.1, state.2 + results[index as int].1),
            interfaces,
            results,
            index + 1,
            link,
        );
    }
}

/// Gathering a batch takes up the link of each connection that has one,
/// and keeps hold of it to the end.
pub proof fn lemma_collect_take_up(
    state: (Seq<ConnectionView>, Seq<PendingLinkView>, Seq<WarningView>),
    interfaces: Seq<Interface>,
    results: Seq<(Seq<ConnectionView>, Seq<WarningView>)>,
    index: nat,
    k: int,
    j: int,
)
    requires
        results.len() == interfaces.len(),
        index <= k < interfaces.len(),
        0 <= j < results[k].0.len(),
        spec_link_for(interfaces[k], results[k].0[j]) is Some,
    ensures
        link_held(
            (
                spec_collect_onto(state, interfaces, results, index).0,
                spec_collect_onto(state, interfaces, results, index).1,
            ),
            spec_link_for(interfaces[k], results[k].0[j]).unwrap(),
        ),
    decreases interfaces.len() - index,
{
    let ifc = interfaces[index as int];
    let conns = results[index as int].0;
    let added = spec_add_connections_onto((state.0, state.1), ifc, conns, 0);
    let next = (added.0, added.1, state.2 + results[index as int].1);
    if index == k {
        lemma_add_connections_take_up((state.0, state.1), ifc, conns, 0, j);
        lemma_collect_hold(next, interfaces, results, index + 1, spec_link_for(ifc, conns[j]).unwrap());
    } else {
        lemma_collect_take_up(next, interfaces, results, index + 1, k, j);
    }
}

/// The connections of the networks of a wireless interface have the
/// controller that they were given.
pub proof fn lemma_networks_controllers(
    ifc: Interface,
    settings: MigrationSettings,
    ip: IpConfigView,
    controller: Option<u128>,
    uuids: Seq<u128>,
    networks: Seq<Network>,
    index: nat,
    done: (Seq<ConnectionView>, Seq<WarningView>),
    from: int,
)
    requires
        0 <= from <= done.0.len(),
        forall|i: int| from <= i < done.0.len() ==> (#[trigger] done.0[i]).controller == controller,
        ifc.spec_networks_onto(settings, ip, controller, uuids, networks, index, done) is Ok,
    ensures
        ({
            let out = ifc.spec_networks_onto(settings, ip, controller, uuids, networks, index, done)->Ok_0.0;
            &&& out.len() >= done.0.len()
            &&& forall|i: int| 0 <= i < from ==> #[trigger] out[i] == done.0[i]
            &&& forall|i: int| from <= i < out.len() ==> (#[trigger] out[i]).controller == controller
        }),
    decreases networks.len() - index,
{
    if index < networks.len() {
        let one = ifc.spec_network_connection(
            settings,
            ip,
            controller,
            uuids[index as int],
            networks[index as int],
            index,
            networks.len(),
        )->Ok_0;
        let next = (done.0.push(one.0), done.1 + one.1);
        assert(one.0.controller == controller);
        assert forall|i: int| from <= i < next.0.len() implies (#[trigger] next.0[i]).controller
            == controller by {
            if i < done.0.len() {
                assert(next.0[i] == done.0[i]);
            }
        }
        lemma_networks_controllers(ifc, settings, ip, controller, uuids, networks, index + 1, next, from);
        let out = ifc.spec_networks_onto(settings, ip, controller, uuids, networks, index, done)->Ok_0.0;
        assert forall|i: int| 0 <= i < from implies #[trigger] out[i] == done.0[i] by {
            assert(next.0[i] == done.0[i]);
        }
    }
}

/// A port of an open-vswitch bridge that is no such bridge itself is
/// translated to its port connection, which has no controller and no tag,
/// and behind it to connections that the port connection controls.
pub proof fn lemma_port_translation(
    ifc: Interface,
    settings: MigrationSettings,
    netconfig_dhcp: Option<NetconfigDhcp>,
    port_uuid: u128,
    uuids: Seq<u128>,
)
    requires
        ifc.spec_has_ovs_link(),
        !(ifc.spec_technology() is OvsBridge),
        ifc.spec_connections(settings, netconfig_dhcp, port_uuid, uuids) is Ok,
    ensures
        ({
            let out = ifc.spec_connections(settings, netconfig_dhcp, port_uuid, uuids)->Ok_0.0;
            &&& out.len() >= 1
            &&& out[0] == ifc.spec_ovs_port(port_uuid, None, None)
            &&& forall|j: int| 1 <= j < out.len() ==> (#[trigger] out[j]).controller == Some(port_uuid)
        }),
{
    let read = ifc.spec_ip_config(netconfig_dhcp)->Ok_0;
    let lead = seq![ifc.spec_ovs_port(port_uuid, None, None)];
    let warnings = read.1 + ifc.spec_unhandled_warnings();
    let controller = Some(port_uuid);
    let out = ifc.spec_connections(settings, netconfig_dhcp, port_uuid, uuids)->Ok_0.0;
    match ifc.spec_technology() {
        Technology::Wireless(w) => match w.networks {
            Some(networks) => {
                lemma_networks_controllers(
                    ifc,
                    settings,
                    read.0,
                    controller,
                    uuids,
                    networks@,
                    0,
                    (lead, warnings),
                    1,
                );
            },
            None => {},
        },
        _ => {},
    }
}

/// A real open-vswitch bridge is translated to its bridge connection, the
/// port below it and the interface below the port.
pub proof fn lemma_real_bridge_translation(
    ifc: Interface,
    settings: MigrationSettings,
    netconfig_dhcp: Option<NetconfigDhcp>,
    port_uuid: u128,
    uuids: Seq<u128>,
)
    requires
        !ifc.spec_has_ovs_link(),
        ifc.spec_technology() is OvsBridge,
        ifc.spec_technology()->OvsBridge_0.vlan is None,
        ifc.spec_connections(settings, netconfig_dhcp, port_uuid, uuids) is Ok,
    ensures
        ({
            let out = ifc.spec_connections(settings, netconfig_dhcp, port_uuid, uuids)->Ok_0.0;
            &&& out.len() == 3
            &&& out[0] == ifc.spec_ovs_bridge(uuids[0])
            &&& out[1] == ifc.spec_ovs_port(uuids[1], None, Some(uuids[0]))
            &&& out[2].uuid == uuids[2]
            &&& out[2].interface == Some(ifc.name@)
            &&& out[2].controller == Some(uuids[1])
        }),
{
}

/// A fake open-vswitch bridge is translated to its port, which carries
/// the tag and has no controller, and the interface below the port.
pub proof fn lemma_fake_bridge_translation(
    ifc: Interface,
    settings: MigrationSettings,
    netconfig_dhcp: Option<NetconfigDhcp>,
    port_uuid: u128,
    uuids: Seq<u128>,
)
    requires
        !ifc.spec_has_ovs_link(),
        ifc.spec_technology() is OvsBridge,
        ifc.spec_technology()->OvsBridge_0.vlan is Some,
        ifc.spec_connections(settings, netconfig_dhcp, port_uuid, uuids) is Ok,
    ensures
        ({
            let out = ifc.spec_connections(settings, netconfig_dhcp, port_uuid, uuids)->Ok_0.0;
            &&& out.len() == 2
            &&& out[0] == ifc.spec_ovs_port(
                uuids[0],
                Some(ifc.spec_technology()->OvsBridge_0.vlan.unwrap().tag),
                None,
            )
            &&& out[1].uuid == uuids[1]
            &&& out[1].interface == Some(ifc.name@)
            &&& out[1].controller == Some(uuids[0])
        }),
{
}

/// A real open-vswitch bridge: a bridge without VLAN settings that is no
/// port itself.
pub open spec fn is_real_bridge(ifc: Interface) -> bool {
    &&& ifc.spec_technology() is OvsBridge
    &&& ifc.spec_technology()->OvsBridge_0.vlan is None
    &&& !ifc.spec_has_ovs_link()
    &&& ifc.link.master is None
}

/// A fake open-vswitch bridge on the bridge `parent` with the tag `tag`.
pub open spec fn is_fake_bridge(ifc: Interface, parent: Seq<char>, tag: u16) -> bool {
    &&& ifc.spec_technology() is OvsBridge
    &&& match ifc.spec_technology()->OvsBridge_0.vlan {
        Some(vlan) => vlan.parent@ == parent && vlan.tag == tag,
        None => false,
    }
    &&& !ifc.spec_has_ovs_link()
    &&& ifc.link.master is None
}

/// A port of the open-vswitch bridge `bridge` that is no such bridge
/// itself.
pub open spec fn is_port_of(ifc: Interface, bridge: Seq<char>) -> bool {
    &&& ifc.spec_has_ovs_link()
    &&& match ifc.link.master {
        Some(master) => master@ == bridge,
        None => false,
    }
    &&& !(ifc.spec_technology() is OvsBridge)
}

/// Whether the interface gives one of its connections the interface
/// `name`: as its own name or as the name of its open-vswitch port or
/// bridge.
pub open spec fn gives_interface(ifc: Interface, name: Seq<char>) -> bool {
    ifc.name@ == name || ifc.spec_ovs_port_name() == name || ifc.spec_ovs_bridge_name() == name
}

/// A batch of a real open-vswitch bridge at `b`, a fake bridge on it with
/// the tag `tag` at `f`, and ports of the fake bridge. No other interface
/// gives a connection the name of one of the two bridges.
pub open spec fn fake_bridge_interfaces(interfaces: Seq<Interface>, b: int, f: int, tag: u16) -> bool {
    &&& 0 <= b < interfaces.len()
    &&& 0 <= f < interfaces.len()
    &&& b != f
    &&& is_real_bridge(interfaces[b])
    &&& is_fake_bridge(interfaces[f], interfaces[b].name@, tag)
    &&& forall|k: int|
        0 <= k < interfaces.len() && k != b && k != f ==> is_port_of(
            #[trigger] interfaces[k],
            interfaces[f].name@,
        )
    &&& forall|k: int|
        0 <= k < interfaces.len() && k != b ==> !gives_interface(
            #[trigger] interfaces[k],
            interfaces[b].name@,
        )
    &&& forall|k: int|
        0 <= k < interfaces.len() && k != f ==> !gives_interface(
            #[trigger] interfaces[k],
            interfaces[f].name@,
        )
}

/// What the translations of such a batch look like.
pub open spec fn fake_bridge_results(
    interfaces: Seq<Interface>,
    results: Seq<(Seq<ConnectionView>, Seq<WarningView>)>,
    b: int,
    f: int,
    tag: u16,
) -> bool {
    let plain = results[b].0;
    let fake = results[f].0;
    &&& results.len() == interfaces.len()
    &&& plain.len() == 3
    &&& plain[0] == interfaces[b].spec_ovs_bridge(plain[0].uuid)
    &&& plain[1] == interfaces[b].spec_ovs_port(plain[1].uuid, None, Some(plain[0].uuid))
    &&& plain[2].interface == Some(interfaces[b].name@)
    &&& plain[2].controller == Some(plain[1].uuid)
    &&& fake.len() == 2
    &&& fake[0] == interfaces[f].spec_ovs_port(fake[0].uuid, Some(tag), None)
    &&& fake[1].interface == Some(interfaces[f].name@)
    &&& fake[1].controller == Some(fake[0].uuid)
    &&& forall|k: int|
        0 <= k < results.len() && k != b && k != f ==> (#[trigger] results[k]).0.len() >= 1
            && results[k].0[0] == interfaces[k].spec_ovs_port(results[k].0[0].uuid, None, None)
    &&& forall|k: int, j: int|
        0 <= k < results.len() && k != b && k != f && 1 <= j < results[k].0.len() ==> (
        #[trigger] results[k].0[j]).controller is Some
    &&& forall|k: int, j: int|
        0 <= k < results.len() && 0 <= j < results[k].0.len() ==> crate::topology::own_interface(
            interfaces[k],
            #[trigger] results[k].0[j],
        )
}

/// The translations of a batch of a real bridge, a fake bridge and its
/// ports look as `fake_bridge_results` says.
pub proof fn lemma_fake_bridge_results(
    interfaces: Seq<Interface>,
    results: Seq<(Seq<ConnectionView>, Seq<WarningView>)>,
    settings: MigrationSettings,
    netconfig_dhcp: Option<NetconfigDhcp>,
    b: int,
    f: int,
    tag: u16,
)
    requires
        fake_bridge_interfaces(interfaces, b, f, tag),
        crate::migrate::are_translations(interfaces, results, settings, netconfig_dhcp),
    ensures
        fake_bridge_results(interfaces, results, b, f, tag),
{
    assert forall|k: int| 0 <= k < results.len() implies {
        &&& forall|j: int|
            0 <= j < results[k].0.len() ==> crate::topology::own_interface(
                interfaces[k],
                #[trigger] results[k].0[j],
            )
        &&& k == b ==> {
            let plain = results[b].0;
            &&& plain.len() == 3
            &&& plain[0] == interfaces[b].spec_ovs_bridge(plain[0].uuid)
            &&& plain[1] == interfaces[b].spec_ovs_port(plain[1].uuid, None, Some(plain[0].uuid))
            &&& plain[2].interface == Some(interfaces[b].name@)
            &&& plain[2].controller == Some(plain[1].uuid)
        }
        &&& k == f ==> {
            let fake = results[f].0;
            &&& fake.len() == 2
            &&& fake[0] == interfaces[f].spec_ovs_port(fake[0].uuid, Some(tag), None)
            &&& fake[1].interface == Some(interfaces[f].name@)
            &&& fake[1].controller == Some(fake[0].uuid)
        }
        &&& k != b && k != f ==> {
            &&& (#[trigger] results[k]).0.len() >= 1
            &&& results[k].0[0] == interfaces[k].spec_ovs_port(results[k].0[0].uuid, None, None)
            &&& forall|j: int|
                1 <= j < results[k].0.len() ==> (#[trigger] results[k].0[j]).controller is Some
        }
    } by {
        let ifc = interfaces[k];
        assert(crate::migrate::is_translation(ifc, results[k], settings, netconfig_dhcp));
        let (port_uuid, uuids) = choose|port_uuid: u128, uuids: Seq<u128>|
            uuids.len() == ifc.spec_technology_count() && Ok::<
                (Seq<ConnectionView>, Seq<WarningView>),
                FailureView,
            >(results[k]) == #[trigger] ifc.spec_connections(
                settings,
                netconfig_dhcp,
                port_uuid,
                uuids,
            );
        crate::topology::lemma_translation_shape(ifc, settings, netconfig_dhcp, port_uuid, uuids);
        if k == b {
            lemma_real_bridge_translation(ifc, settings, netconfig_dhcp, port_uuid, uuids);
        } else if k == f {
            lemma_fake_bridge_translation(ifc, settings, netconfig_dhcp, port_uuid, uuids);
        } else {
            lemma_port_translation(ifc, settings, netconfig_dhcp, port_uuid, uuids);
        }
    }
}

/// Among connections with uuids that all differ, two with the same uuid
/// are one and the same.
pub proof fn lemma_same_uuid_same(conns: Seq<ConnectionView>, x: ConnectionView, y: ConnectionView)
    requires
        distinct_uuids(conns),
        conns.contains(x),
        conns.contains(y),
        x.uuid == y.uuid,
    ensures
        x == y,
{
    let i = choose|i: int| 0 <= i < conns.len() && conns[i] == x;
    let j = choose|j: int| 0 <= j < conns.len() && conns[j] == y;
    if i < j {
        assert(conns[i].uuid != conns[j].uuid);
    } else if j < i {
        assert(conns[j].uuid != conns[i].uuid);
    }
}

/// What is gathered from a batch of a real bridge, a fake bridge and its
/// ports is a fake bridge on a real one as resolution finds it, where the
/// uuids of the connections all differ.
pub proof fn lemma_fake_bridge_gathered(
    interfaces: Seq<Interface>,
    results: Seq<(Seq<ConnectionView>, Seq<WarningView>)>,
    input_warnings: Seq<WarningView>,
    b: int,
    f: int,
    tag: u16,
)
    requires
        fake_bridge_interfaces(interfaces, b, f, tag),
        fake_bridge_results(interfaces, results, b, f, tag),
        distinct_uuids(
            spec_collect_onto((Seq::empty(), Seq::empty(), input_warnings), interfaces, results, 0).0,
        ),
    ensures
        crate::passes::fake_bridge_batch(
            spec_collect_onto((Seq::empty(), Seq::empty(), input_warnings), interfaces, results, 0).0,
            spec_collect_onto((Seq::empty(), Seq::empty(), input_warnings), interfaces, results, 0).1,
            interfaces[b].name@,
            interfaces[f].name@,
            results[b].0[0].uuid,
            results[b].0[1].uuid,
            results[f].0[0].uuid,
            tag,
        ),
{
    let start = (Seq::<ConnectionView>::empty(), Seq::<PendingLinkView>::empty(), input_warnings);
    let g = spec_collect_onto(start, interfaces, results, 0);
    let conns = g.0;
    let pending = g.1;
    let rb = results[b].0;
    let rf = results[f].0;
    let bname = interfaces[b].name@;
    let fname = interfaces[f].name@;
    lemma_collect_conns(start, interfaces, results, 0);
    assert(conns =~= spec_flat(results, 0));
    lemma_flat(results, 0);
    crate::topology::lemma_collect_distinct(start, interfaces, results, 0);
    lemma_collect_links(start, interfaces, results, 0);
    assert(conns.contains(results[b].0[0]));
    assert(conns.contains(results[b].0[1]));
    assert(conns.contains(results[b].0[2]));
    assert(conns.contains(results[f].0[0]));
    assert(conns.contains(results[f].0[1]));
    lemma_found_by_uuid(conns, rb[0]);
    lemma_found_by_uuid(conns, rb[1]);
    lemma_found_by_uuid(conns, rf[0]);
    if rb[0].uuid == rf[0].uuid {
        lemma_same_uuid_same(conns, rb[0], rf[0]);
    }
    if rf[1].uuid == rf[0].uuid {
        lemma_same_uuid_same(conns, rf[1], rf[0]);
    }
    reveal_strlit("-port");
    reveal_strlit("-bridge");
    assert(interfaces[b].spec_ovs_port_name().len() == bname.len() + 5);
    assert(interfaces[b].spec_ovs_bridge_name().len() == bname.len() + 7);
    assert(interfaces[f].spec_ovs_port_name().len() == fname.len() + 5);
    assert forall|i: int| 0 <= i < conns.len() && (#[trigger] conns[i]).interface == Some(bname) implies conns[i]
        == rb[2] by {
        assert(is_from(results, 0, conns[i]));
        let (k, j) = choose|k: int, j: int|
            0 <= k < results.len() && 0 <= j < results[k].0.len() && (#[trigger] results[k].0[j])
                == conns[i];
        assert(crate::topology::own_interface(interfaces[k], results[k].0[j]));
        if k != b {
            assert(!gives_interface(interfaces[k], bname));
        }
    }
    lemma_found_by_interface(conns, rb[2], bname);
    assert forall|i: int| 0 <= i < conns.len() && (#[trigger] conns[i]).interface == Some(fname) implies conns[i]
        == rf[1] by {
        assert(is_from(results, 0, conns[i]));
        let (k, j) = choose|k: int, j: int|
            0 <= k < results.len() && 0 <= j < results[k].0.len() && (#[trigger] results[k].0[j])
                == conns[i];
        assert(crate::topology::own_interface(interfaces[k], results[k].0[j]));
        if k != f {
            assert(!gives_interface(interfaces[k], fname));
        }
    }
    lemma_found_by_interface(conns, rf[1], fname);
    lemma_collect_take_up(start, interfaces, results, 0, f, 0);
    let fake_link = spec_link_for(interfaces[f], rf[0]).unwrap();
    assert(pending.contains(fake_link));
    let at = choose|at: int| 0 <= at < pending.len() && pending[at] == fake_link;
    assert(pending[at].port_uuid == rf[0].uuid);
    assert forall|i: int| 0 <= i < pending.len() implies if (#[trigger] pending[i]).port_uuid
        == rf[0].uuid {
        crate::passes::is_ovs_link(pending[i], bname)
    } else {
        &&& crate::passes::is_ovs_link(pending[i], fname)
        &&& pending[i].port_uuid != rb[0].uuid
        &&& find_uuid(conns, pending[i].port_uuid) is Some
    } by {
        assert(link_from(interfaces, results, 0, pending[i]));
        let k = choose|k: int|
            0 <= k < results.len() && #[trigger] link_of(interfaces[k], results[k].0, 0, pending[i]);
        let j = choose|j: int|
            0 <= j < results[k].0.len() && #[trigger] spec_link_for(interfaces[k], results[k].0[j])
                == Some(pending[i]);
        let c = results[k].0[j];
        assert(conns.contains(results[k].0[j]));
        if k != b && k != f {
            assert(is_port_of(interfaces[k], fname));
            assert(j == 0);
            if c.uuid == rf[0].uuid {
                lemma_same_uuid_same(conns, c, rf[0]);
            }
            if c.uuid == rb[0].uuid {
                lemma_same_uuid_same(conns, c, rb[0]);
            }
            lemma_found_by_uuid(conns, c);
        }
    }
}

/// A batch of a real open-vswitch bridge, a fake bridge on it and the
/// ports of the fake bridge is resolved in at most two passes, without a
/// warning, where the uuids of its connections all differ: the port of the
/// fake bridge and the port connection of every port end up controlled by
/// the connection of the real bridge, with the tag of the fake bridge.
/// What is put together is a network state, unless two connections have
/// the same id.
pub proof fn lemma_fake_bridge_batch(
    interfaces: Seq<Interface>,
    results: Seq<(Seq<ConnectionView>, Seq<WarningView>)>,
    input_warnings: Seq<WarningView>,
    settings: MigrationSettings,
    netconfig_dhcp: Option<NetconfigDhcp>,
    present: Seq<Seq<char>>,
    b: int,
    f: int,
    tag: u16,
)
    requires
        fake_bridge_interfaces(interfaces, b, f, tag),
        crate::migrate::are_translations(interfaces, results, settings, netconfig_dhcp),
        distinct_uuids(
            spec_collect_onto((Seq::empty(), Seq::empty(), input_warnings), interfaces, results, 0).0,
        ),
    ensures
        ({
            let g = spec_collect_onto(
                (Seq::empty(), Seq::empty(), input_warnings),
                interfaces,
                results,
                0,
            );
            let resolved = crate::migrate::spec_resolve(g.0, g.1, g.2, settings.continue_migration);
            let outcome = crate::migrate::spec_networkstate(
                interfaces,
                results,
                input_warnings,
                settings,
                present,
            );
            &&& crate::passes::spec_passes(g.0, g.1, settings.continue_migration) <= 2
            &&& resolved is Ok
            &&& resolved->Ok_0.1 == g.2
            &&& forall|k: int|
                0 <= k < interfaces.len() && k != b ==> crate::passes::on_bridge(
                    resolved->Ok_0.0,
                    (#[trigger] results[k]).0[0].uuid,
                    results[b].0[0].uuid,
                    tag,
                )
            &&& outcome is Ok || outcome == Err::<(Seq<ConnectionView>, Seq<WarningView>), FailureView>(
                FailureView::ConnectionExists,
            )
        }),
{
    let start = (Seq::<ConnectionView>::empty(), Seq::<PendingLinkView>::empty(), input_warnings);
    let g = spec_collect_onto(start, interfaces, results, 0);
    lemma_fake_bridge_results(interfaces, results, settings, netconfig_dhcp, b, f, tag);
    lemma_fake_bridge_gathered(interfaces, results, input_warnings, b, f, tag);
    crate::passes::lemma_fake_bridge_two_passes(
        g.0,
        g.1,
        g.2,
        interfaces[b].name@,
        interfaces[f].name@,
        results[b].0[0].uuid,
        results[b].0[1].uuid,
        results[f].0[0].uuid,
        tag,
        settings.continue_migration,
    );
    let resolved = crate::migrate::spec_resolve(g.0, g.1, g.2, settings.continue_migration);
    assert forall|k: int| 0 <= k < interfaces.len() && k != b implies crate::passes::on_bridge(
        resolved->Ok_0.0,
        (#[trigger] results[k]).0[0].uuid,
        results[b].0[0].uuid,
        tag,
    ) by {
        if k != f {
            assert(is_port_of(interfaces[k], interfaces[f].name@));
        }
        assert(spec_link_for(interfaces[k], results[k].0[0]) is Some);
        lemma_collect_take_up(start, interfaces, results, 0, k, 0);
        let link = spec_link_for(interfaces[k], results[k].0[0]).unwrap();
        assert(g.1.contains(link));
        let at = choose|at: int| 0 <= at < g.1.len() && g.1[at] == link;
        assert(g.1[at].port_uuid == results[k].0[0].uuid);
    }
}

/// Translating a batch of a real open-vswitch bridge, a fake bridge on it
/// and the ports of the fake bridge, and putting it together, does not
/// fail in resolution: what comes of it is a network state, the failure
/// of a translation, or the failure that two connections have the same
/// uuid or the same id.
pub proof fn lemma_fake_bridge_outcome(
    input: crate::reader::InterfacesResult,
    settings: MigrationSettings,
    present: Seq<Seq<char>>,
    outcome: Result<(Seq<ConnectionView>, Seq<WarningView>), FailureView>,
    b: int,
    f: int,
    tag: u16,
)
    requires
        crate::migrate::is_networkstate(input, settings, present, outcome),
        fake_bridge_interfaces(input.interfaces@, b, f, tag),
    ensures
        outcome is Ok || outcome == Err::<(Seq<ConnectionView>, Seq<WarningView>), FailureView>(
            FailureView::DuplicateUuid,
        ) || outcome == Err::<(Seq<ConnectionView>, Seq<WarningView>), FailureView>(
            FailureView::ConnectionExists,
        ) || exists|e: FailureView|
            outcome == Err::<(Seq<ConnectionView>, Seq<WarningView>), FailureView>(e)
                && #[trigger] crate::migrate::translation_fails(
                input.interfaces@,
                input.interfaces@.len() as int,
                settings,
                input.netconfig_dhcp,
                e,
            ),
{
    let interfaces = input.interfaces@;
    if exists|results: Seq<(Seq<ConnectionView>, Seq<WarningView>)>|
        crate::migrate::are_translations(interfaces, results, settings, input.netconfig_dhcp)
            && outcome == #[trigger] crate::migrate::spec_networkstate(
            interfaces,
            results,
            input.warnings.deep_view(),
            settings,
            present,
        ) {
        let results = choose|results: Seq<(Seq<ConnectionView>, Seq<WarningView>)>|
            crate::migrate::are_translations(interfaces, results, settings, input.netconfig_dhcp)
                && outcome == #[trigger] crate::migrate::spec_networkstate(
                interfaces,
                results,
                input.warnings.deep_view(),
                settings,
                present,
            );
        let g = spec_collect_onto(
            (Seq::empty(), Seq::empty(), input.warnings.deep_view()),
            interfaces,
            results,
            0,
        );
        if distinct_uuids(g.0) {
            lemma_fake_bridge_batch(
                interfaces,
                results,
                input.warnings.deep_view(),
                settings,
                input.netconfig_dhcp,
                present,
                b,
                f,
                tag,
            );
        }
    }
}

} // verus!
