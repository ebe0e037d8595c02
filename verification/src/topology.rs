//! What holds of the controller links of a set of connections: a
//! connection never controls itself, and its controller is one of the set.
//! Resolution keeps this, and the translation of interfaces establishes it
//! where all uuids differ.

use vstd::prelude::*;
use crate::migrate::{
    find_interface, find_uuid, lemma_apply_onto, lemma_steps_onto, spec_apply_onto,
    spec_checked_step, spec_link_first, spec_linked, spec_pass, spec_resolve, spec_step,
    spec_steps, ParentMatch, PendingLinkView, Step,
};
use crate::connection::Technology;
use crate::interface::Interface;
use crate::interface::LinkPortType;
use crate::migrate::{
    is_networkstate, is_translation, lemma_missing_parent, spec_activation, spec_add_connections_onto, spec_collect_onto,
    spec_insert_pending, spec_link_for, spec_networkstate,
};
use crate::model::{Connection, ConnectionView, IpConfigView};
use crate::netconfig_dhcp::NetconfigDhcp;
use crate::report::{FailureView, WarningView};
use crate::settings::MigrationSettings;
use crate::reader::InterfacesResult;
use crate::wireless::Network;

verus! {

/// Whether one of the connections has the uuid `uuid`.
pub open spec fn has_uuid(conns: Seq<ConnectionView>, uuid: u128) -> bool {
    exists|i: int| 0 <= i < conns.len() && (#[trigger] conns[i]).uuid == uuid
}

/// No connection controls itself, and every controller is the uuid of one
/// of the connections.
pub open spec fn controllers_ok(conns: Seq<ConnectionView>) -> bool {
    forall|i: int|
        0 <= i < conns.len() && (#[trigger] conns[i]).controller is Some ==> conns[i].controller.unwrap()
            != conns[i].uuid && has_uuid(conns, conns[i].controller.unwrap())
}

/// No two connections have the same uuid.
pub open spec fn distinct_uuids(conns: Seq<ConnectionView>) -> bool {
    forall|i: int, j: int|
        0 <= i < j < conns.len() ==> (#[trigger] conns[i]).uuid != (#[trigger] conns[j]).uuid
}

/// Every controller is the uuid of a connection further to the front.
pub open spec fn refers_back(conns: Seq<ConnectionView>) -> bool {
    forall|j: int|
        0 <= j < conns.len() && (#[trigger] conns[j]).controller is Some ==> has_uuid(
            conns.take(j),
            conns[j].controller.unwrap(),
        )
}

/// The two lists have the same uuids in the same places.
pub open spec fn same_uuids(a: Seq<ConnectionView>, b: Seq<ConnectionView>) -> bool {
    a.len() == b.len() && forall|i: int| 0 <= i < a.len() ==> (#[trigger] a[i]).uuid == b[i].uuid
}

/// Lists with the same uuids have the same uuids among them.
pub proof fn lemma_same_uuids_has(a: Seq<ConnectionView>, b: Seq<ConnectionView>, uuid: u128)
    requires
        same_uuids(a, b),
    ensures
        has_uuid(a, uuid) == has_uuid(b, uuid),
{
    if has_uuid(a, uuid) {
        let i = choose|i: int| 0 <= i < a.len() && (#[trigger] a[i]).uuid == uuid;
        assert(b[i].uuid == uuid);
    }
    if has_uuid(b, uuid) {
        let i = choose|i: int| 0 <= i < b.len() && (#[trigger] b[i]).uuid == uuid;
        assert(a[i].uuid == uuid);
    }
}

/// What is found by interface is one of the connections.
pub proof fn lemma_find_interface(conns: Seq<ConnectionView>, name: Seq<char>)
    ensures
        find_interface(conns, name) is Some ==> has_uuid(conns, find_interface(conns, name).unwrap().uuid),
    decreases conns.len(),
{
    if conns.len() > 0 {
        if conns[0].interface == Some(name) {
            assert(conns[0].uuid == find_interface(conns, name).unwrap().uuid);
        } else {
            let rest = conns.drop_first();
            lemma_find_interface(rest, name);
            if find_interface(rest, name) is Some {
                let u = find_interface(rest, name).unwrap().uuid;
                let i = choose|i: int| 0 <= i < rest.len() && (#[trigger] rest[i]).uuid == u;
                assert(conns[i + 1].uuid == u);
            }
        }
    }
}

/// A connection is found by its uuid exactly when one has the uuid, and
/// what is found has it.
pub proof fn lemma_find_uuid(conns: Seq<ConnectionView>, uuid: u128)
    ensures
        find_uuid(conns, uuid) is Some == has_uuid(conns, uuid),
        find_uuid(conns, uuid) is Some ==> find_uuid(conns, uuid).unwrap().uuid == uuid,
    decreases conns.len(),
{
    if conns.len() > 0 {
        if conns[0].uuid == uuid {
        } else {
            let rest = conns.drop_first();
            lemma_find_uuid(rest, uuid);
            if has_uuid(rest, uuid) {
                let i = choose|i: int| 0 <= i < rest.len() && (#[trigger] rest[i]).uuid == uuid;
                assert(conns[i + 1].uuid == uuid);
            }
            if has_uuid(conns, uuid) {
                let i = choose|i: int| 0 <= i < conns.len() && (#[trigger] conns[i]).uuid == uuid;
                assert(rest[i - 1].uuid == uuid);
            }
        }
    }
}

/// A link is only ever resolved to a connection of the set, and never to
/// the connection that it belongs to.
pub proof fn lemma_step_target(conns: Seq<ConnectionView>, link: PendingLinkView)
    ensures
        spec_step(conns, link) is Link ==> has_uuid(conns, spec_step(conns, link)->Link_0.uuid)
            && spec_step(conns, link)->Link_0.uuid != link.port_uuid,
{
    lemma_find_interface(conns, link.master);
    if find_interface(conns, link.master) is Some {
        let parent = find_interface(conns, link.master).unwrap();
        if parent.controller is Some {
            lemma_find_uuid(conns, parent.controller.unwrap());
            let port = find_uuid(conns, parent.controller.unwrap());
            if port is Some && port.unwrap().controller is Some {
                lemma_find_uuid(conns, port.unwrap().controller.unwrap());
            }
        }
    }
}

/// Linking a connection leaves all uuids in their places, and changes at
/// most connections of the uuid given, into their linked form.
pub proof fn lemma_link_first(conns: Seq<ConnectionView>, uuid: u128, m: ParentMatch)
    ensures
        same_uuids(conns, spec_link_first(conns, uuid, m)),
        forall|i: int|
            0 <= i < conns.len() ==> #[trigger] spec_link_first(conns, uuid, m)[i] == conns[i] || (
            conns[i].uuid == uuid && spec_link_first(conns, uuid, m)[i] == spec_linked(conns[i], m)),
    decreases conns.len(),
{
    if conns.len() > 0 {
        let out = spec_link_first(conns, uuid, m);
        if conns[0].uuid == uuid {
            assert forall|i: int| 0 <= i < conns.len() implies #[trigger] out[i] == conns[i] || (
            conns[i].uuid == uuid && out[i] == spec_linked(conns[i], m)) by {
                if i > 0 {
                    assert(out[i] == conns.drop_first()[i - 1]);
                }
            }
        } else {
            let rest = conns.drop_first();
            lemma_link_first(rest, uuid, m);
            let tail = spec_link_first(rest, uuid, m);
            assert forall|i: int| 0 <= i < conns.len() implies #[trigger] out[i] == conns[i] || (
            conns[i].uuid == uuid && out[i] == spec_linked(conns[i], m)) by {
                if i > 0 {
                    assert(out[i] == tail[i - 1]);
                    assert(rest[i - 1] == conns[i]);
                }
            }
            assert forall|i: int| 0 <= i < conns.len() implies (#[trigger] conns[i]).uuid
                == out[i].uuid by {
                if i > 0 {
                    assert(out[i] == tail[i - 1]);
                    assert(rest[i - 1] == conns[i]);
                }
            }
        }
    }
}

/// Linking a connection to another one of the set keeps the controller
/// links in order.
pub proof fn lemma_link_first_ok(conns: Seq<ConnectionView>, uuid: u128, m: ParentMatch)
    requires
        controllers_ok(conns),
        has_uuid(conns, m.uuid),
        m.uuid != uuid,
    ensures
        controllers_ok(spec_link_first(conns, uuid, m)),
        same_uuids(conns, spec_link_first(conns, uuid, m)),
{
    let out = spec_link_first(conns, uuid, m);
    lemma_link_first(conns, uuid, m);
    assert forall|i: int| 0 <= i < out.len() && (#[trigger] out[i]).controller is Some implies out[i].controller.unwrap()
        != out[i].uuid && has_uuid(out, out[i].controller.unwrap()) by {
        assert(conns[i].uuid == out[i].uuid);
        lemma_same_uuids_has(conns, out, out[i].controller.unwrap());
        if out[i] == conns[i] {
        } else {
            assert(out[i].controller == Some(m.uuid));
        }
    }
}

/// Applying the steps of a pass keeps the controller links in order, where
/// every resolved link leads to a connection of the set other than its
/// own.
pub proof fn lemma_apply_onto_ok(
    state: (Seq<ConnectionView>, Seq<PendingLinkView>, Seq<WarningView>),
    links: Seq<PendingLinkView>,
    steps: Seq<Step>,
    index: nat,
)
    requires
        steps.len() == links.len(),
        controllers_ok(state.0),
        forall|k: int|
            index <= k < links.len() && (#[trigger] steps[k]) is Link ==> has_uuid(
                state.0,
                steps[k]->Link_0.uuid,
            ) && steps[k]->Link_0.uuid != links[k].port_uuid,
    ensures
        controllers_ok(spec_apply_onto(state, links, steps, index).0),
        same_uuids(state.0, spec_apply_onto(state, links, steps, index).0),
    decreases links.len() - index,
{
    if index < links.len() {
        let link = links[index as int];
        let next = match steps[index as int] {
            Step::MissingParent => (
                state.0,
                state.1.push(link),
                state.2.push(WarningView::MissingParent { parent: link.master, port: link.port_id }),
            ),
            Step::Drop => state,
            Step::Keep => (state.0, state.1.push(link), state.2),
            Step::Link(m) => (spec_link_first(state.0, link.port_uuid, m), state.1, state.2),
        };
        match steps[index as int] {
            Step::Link(m) => {
                lemma_link_first_ok(state.0, link.port_uuid, m);
            },
            _ => {},
        }
        assert forall|k: int| index + 1 <= k < links.len() && (#[trigger] steps[k]) is Link implies has_uuid(
            next.0,
            steps[k]->Link_0.uuid,
        ) && steps[k]->Link_0.uuid != links[k].port_uuid by {
            lemma_same_uuids_has(state.0, next.0, steps[k]->Link_0.uuid);
        }
        lemma_apply_onto_ok(next, links, steps, index + 1);
    }
}

/// A pass keeps the controller links in order and the uuids in their
/// places.
pub proof fn lemma_pass_ok(
    conns: Seq<ConnectionView>,
    pending: Seq<PendingLinkView>,
    continue_migration: bool,
)
    requires
        controllers_ok(conns),
        spec_pass(conns, pending, continue_migration) is Ok,
    ensures
        controllers_ok(spec_pass(conns, pending, continue_migration)->Ok_0.0),
        same_uuids(conns, spec_pass(conns, pending, continue_migration)->Ok_0.0),
{
    let steps = spec_steps(conns, continue_migration, pending)->Ok_0;
    lemma_steps_onto(conns, continue_migration, Seq::empty(), pending);
    assert forall|k: int| 0 <= k < pending.len() && (#[trigger] steps[k]) is Link implies has_uuid(
        conns,
        steps[k]->Link_0.uuid,
    ) && steps[k]->Link_0.uuid != pending[k].port_uuid by {
        assert(spec_checked_step(conns, pending[k], continue_migration) == Ok::<Step, FailureView>(
            steps[k],
        ));
        lemma_step_target(conns, pending[k]);
    }
    lemma_apply_onto_ok((conns, Seq::empty(), Seq::empty()), pending, steps, 0);
}

/// Resolution keeps the controller links in order and the uuids in their
/// places: where no connection controls itself and every controller is one
/// of the connections before, so it is afterwards.
pub proof fn lemma_resolve_ok(
    conns: Seq<ConnectionView>,
    pending: Seq<PendingLinkView>,
    warnings: Seq<WarningView>,
    continue_migration: bool,
)
    requires
        controllers_ok(conns),
        spec_resolve(conns, pending, warnings, continue_migration) is Ok,
    ensures
        controllers_ok(spec_resolve(conns, pending, warnings, continue_migration)->Ok_0.0),
        same_uuids(conns, spec_resolve(conns, pending, warnings, continue_migration)->Ok_0.0),
    decreases pending.len(),
{
    lemma_pass_ok(conns, pending, continue_migration);
    let pass = spec_pass(conns, pending, continue_migration)->Ok_0;
    if pass.1.len() != 0 && pass.1.len() < pending.len() {
        lemma_resolve_ok(pass.0, pass.1, warnings + pass.2, continue_migration);
    }
}

/// Where all uuids differ and every controller is a connection further to
/// the front, no connection controls itself and every controller is one
/// of the connections.
pub proof fn lemma_refers_back_ok(conns: Seq<ConnectionView>)
    requires
        distinct_uuids(conns),
        refers_back(conns),
    ensures
        controllers_ok(conns),
{
    assert forall|j: int| 0 <= j < conns.len() && (#[trigger] conns[j]).controller is Some implies conns[j].controller.unwrap()
        != conns[j].uuid && has_uuid(conns, conns[j].controller.unwrap()) by {
        let u = conns[j].controller.unwrap();
        let front = conns.take(j);
        let i = choose|i: int| 0 <= i < front.len() && (#[trigger] front[i]).uuid == u;
        assert(front[i] == conns[i]);
    }
}


/// A connection whose controller is among the connections can be put
/// behind them.
pub proof fn lemma_push_refers_back(conns: Seq<ConnectionView>, c: ConnectionView)
    requires
        refers_back(conns),
        c.controller is Some ==> has_uuid(conns, c.controller.unwrap()),
    ensures
        refers_back(conns.push(c)),
        forall|u: u128| has_uuid(conns, u) ==> has_uuid(conns.push(c), u),
        has_uuid(conns.push(c), c.uuid),
{
    let out = conns.push(c);
    assert forall|j: int| 0 <= j < out.len() && (#[trigger] out[j]).controller is Some implies has_uuid(
        out.take(j),
        out[j].controller.unwrap(),
    ) by {
        if j < conns.len() {
            assert(out.take(j) =~= conns.take(j));
            assert(out[j] == conns[j]);
        } else {
            assert(out.take(j) =~= conns);
        }
    }
    assert forall|u: u128| has_uuid(conns, u) implies has_uuid(out, u) by {
        let i = choose|i: int| 0 <= i < conns.len() && (#[trigger] conns[i]).uuid == u;
        assert(out[i].uuid == u);
    }
    assert(out[conns.len() as int].uuid == c.uuid);
}

/// Two lists in which every controller is further to the front make one
/// such list.
pub proof fn lemma_concat_refers_back(a: Seq<ConnectionView>, b: Seq<ConnectionView>)
    requires
        refers_back(a),
        refers_back(b),
    ensures
        refers_back(a + b),
{
    let out = a + b;
    assert forall|j: int| 0 <= j < out.len() && (#[trigger] out[j]).controller is Some implies has_uuid(
        out.take(j),
        out[j].controller.unwrap(),
    ) by {
        let u = out[j].controller.unwrap();
        if j < a.len() {
            assert(out[j] == a[j]);
            let front = a.take(j);
            let i = choose|i: int| 0 <= i < front.len() && (#[trigger] front[i]).uuid == u;
            assert(out.take(j)[i] == front[i]);
        } else {
            assert(out[j] == b[j - a.len()]);
            let front = b.take(j - a.len());
            let i = choose|i: int| 0 <= i < front.len() && (#[trigger] front[i]).uuid == u;
            assert(out.take(j)[a.len() + i] == front[i]);
        }
    }
}

/// The connections of the networks of a wireless interface keep every
/// controller further to the front.
pub proof fn lemma_networks_refer_back(
    ifc: Interface,
    settings: MigrationSettings,
    ip: IpConfigView,
    controller: Option<u128>,
    uuids: Seq<u128>,
    networks: Seq<Network>,
    index: nat,
    done: (Seq<ConnectionView>, Seq<WarningView>),
)
    requires
        refers_back(done.0),
        controller is Some ==> has_uuid(done.0, controller.unwrap()),
        ifc.spec_networks_onto(settings, ip, controller, uuids, networks, index, done) is Ok,
    ensures
        refers_back(
            ifc.spec_networks_onto(settings, ip, controller, uuids, networks, index, done)->Ok_0.0,
        ),
    decreases networks.len() - index,
{
    if index < networks.len() {
        let one = ifc.spec_network_connection(
            settings,
            ip,
            controller,
            uuids[index as int],
            networks[index as int],
            index,
            networks.len(),
        )->Ok_0;
        assert(one.0.controller == controller);
        lemma_push_refers_back(done.0, one.0);
        lemma_networks_refer_back(
            ifc,
            settings,
            ip,
            controller,
            uuids,
            networks,
            index + 1,
            (done.0.push(one.0), done.1 + one.1),
        );
    }
}

/// The connections of the technology of an interface keep every
/// controller further to the front.
pub proof fn lemma_technology_refers_back(
    ifc: Interface,
    settings: MigrationSettings,
    ip: IpConfigView,
    lead: Seq<ConnectionView>,
    warnings: Seq<WarningView>,
    controller: Option<u128>,
    uuids: Seq<u128>,
)
    requires
        refers_back(lead),
        controller is Some ==> has_uuid(lead, controller.unwrap()),
        ifc.spec_technology_connections(settings, ip, lead, warnings, controller, uuids) is Ok,
    ensures
        refers_back(
            ifc.spec_technology_connections(settings, ip, lead, warnings, controller, uuids)->Ok_0.0,
        ),
{
    let base = ifc.spec_base(settings, ip, uuids[0], controller);
    let out = ifc.spec_technology_connections(settings, ip, lead, warnings, controller, uuids)->Ok_0.0;
    match ifc.spec_technology() {
        Technology::Wireless(w) => {
            match w.networks {
                Some(networks) => {
                    lemma_networks_refer_back(
                        ifc,
                        settings,
                        ip,
                        controller,
                        uuids,
                        networks@,
                        0,
                        (lead, warnings),
                    );
                },
                None => {},
            }
        },
        Technology::OvsBridge(o) => {
            match o.vlan {
                Some(vlan) => {
                    let port = ifc.spec_ovs_port(uuids[0], Some(vlan.tag), None);
                    lemma_push_refers_back(lead, port);
                    lemma_push_refers_back(lead.push(port), out[lead.len() as int + 1]);
                    assert(out =~= lead.push(port).push(out[lead.len() as int + 1]));
                },
                None => {
                    let bridge = ifc.spec_ovs_bridge(uuids[0]);
                    let port = ifc.spec_ovs_port(uuids[1], None, Some(uuids[0]));
                    lemma_push_refers_back(lead, bridge);
                    lemma_push_refers_back(lead.push(bridge), port);
                    lemma_push_refers_back(lead.push(bridge).push(port), out[lead.len() as int + 2]);
                    assert(out =~= lead.push(bridge).push(port).push(out[lead.len() as int + 2]));
                },
            }
        },
        _ => {
            assert(out[lead.len() as int].controller == controller);
            lemma_push_refers_back(lead, out[lead.len() as int]);
            assert(out =~= lead.push(out[lead.len() as int]));
        },
    }
}

/// In the connections that an interface is translated to, every
/// controller is a connection further to the front: the port before the
/// interface that it controls, the bridge before its port.
pub proof fn lemma_translation_refers_back(
    ifc: Interface,
    settings: MigrationSettings,
    netconfig_dhcp: Option<NetconfigDhcp>,
    port_uuid: u128,
    uuids: Seq<u128>,
)
    requires
        ifc.spec_connections(settings, netconfig_dhcp, port_uuid, uuids) is Ok,
    ensures
        refers_back(ifc.spec_connections(settings, netconfig_dhcp, port_uuid, uuids)->Ok_0.0),
{
    let ip = ifc.spec_ip_config(netconfig_dhcp)->Ok_0;
    let lead = if ifc.spec_has_ovs_link() {
        seq![ifc.spec_ovs_port(port_uuid, None, None)]
    } else {
        Seq::empty()
    };
    let controller = if ifc.spec_has_ovs_link() {
        Some(port_uuid)
    } else {
        None
    };
    if ifc.spec_has_ovs_link() {
        assert(lead[0].uuid == port_uuid);
        assert forall|j: int| 0 <= j < lead.len() && (#[trigger] lead[j]).controller is Some implies has_uuid(
            lead.take(j),
            lead[j].controller.unwrap(),
        ) by {}
    }
    lemma_technology_refers_back(
        ifc,
        settings,
        ip.0,
        lead,
        ip.1 + ifc.spec_unhandled_warnings(),
        controller,
        uuids,
    );
}

/// Gathering the connections of an interface puts them behind those that
/// are there, in their order.
pub proof fn lemma_add_connections(
    state: (Seq<ConnectionView>, Seq<PendingLinkView>),
    ifc: Interface,
    conns: Seq<ConnectionView>,
    index: nat,
)
    requires
        index <= conns.len(),
    ensures
        spec_add_connections_onto(state, ifc, conns, index).0 == state.0 + conns.skip(index as int),
    decreases conns.len() - index,
{
    if index < conns.len() {
        let c = conns[index as int];
        let next = (
            state.0.push(c),
            match spec_link_for(ifc, c) {
                Some(link) => spec_insert_pending(state.1, link),
                None => state.1,
            },
        );
        lemma_add_connections(next, ifc, conns, index + 1);
        assert(state.0.push(c) + conns.skip(index as int + 1) =~= state.0 + conns.skip(index as int));
    } else {
        assert(state.0 + conns.skip(index as int) =~= state.0);
    }
}

/// Gathering connections in each of which every controller is further to
/// the front gives connections of which this holds, too.
pub proof fn lemma_collect_refers_back(
    state: (Seq<ConnectionView>, Seq<PendingLinkView>, Seq<WarningView>),
    interfaces: Seq<Interface>,
    results: Seq<(Seq<ConnectionView>, Seq<WarningView>)>,
    index: nat,
)
    requires
        results.len() == interfaces.len(),
        refers_back(state.0),
        forall|k: int| index <= k < results.len() ==> refers_back((#[trigger] results[k]).0),
    ensures
        refers_back(spec_collect_onto(state, interfaces, results, index).0),
    decreases interfaces.len() - index,
{
    if index < interfaces.len() {
        let added = spec_add_connections_onto(
            (state.0, state.1),
            interfaces[index as int],
            results[index as int].0,
            0,
        );
        lemma_add_connections((state.0, state.1), interfaces[index as int], results[index as int].0, 0);
        assert(results[index as int].0.skip(0) =~= results[index as int].0);
        lemma_concat_refers_back(state.0, results[index as int].0);
        lemma_collect_refers_back(
            (added.0, added.1, state.2 + results[index as int].1),
            interfaces,
            results,
            index + 1,
        );
    }
}


/// Correcting the activation touches neither uuids nor controllers.
pub proof fn lemma_activation_ok(
    conns: Seq<ConnectionView>,
    settings: MigrationSettings,
    present: Seq<Seq<char>>,
)
    ensures
        same_uuids(conns, spec_activation(conns, settings, present)),
        controllers_ok(conns) ==> controllers_ok(spec_activation(conns, settings, present)),
        distinct_uuids(conns) ==> distinct_uuids(spec_activation(conns, settings, present)),
{
    let out = spec_activation(conns, settings, present);
    if controllers_ok(conns) {
        assert forall|i: int| 0 <= i < out.len() && (#[trigger] out[i]).controller is Some implies out[i].controller.unwrap()
            != out[i].uuid && has_uuid(out, out[i].controller.unwrap()) by {
            assert(conns[i].controller == out[i].controller);
            lemma_same_uuids_has(conns, out, out[i].controller.unwrap());
        }
    }
    if distinct_uuids(conns) {
        assert forall|i: int, j: int| 0 <= i < j < out.len() implies (#[trigger] out[i]).uuid != (
        #[trigger] out[j]).uuid by {
            assert(conns[i].uuid == out[i].uuid);
            assert(conns[j].uuid == out[j].uuid);
        }
    }
}

/// Lists with the same uuids have distinct uuids together.
pub proof fn lemma_same_uuids_distinct(a: Seq<ConnectionView>, b: Seq<ConnectionView>)
    requires
        same_uuids(a, b),
        distinct_uuids(a),
    ensures
        distinct_uuids(b),
{
    assert forall|i: int, j: int| 0 <= i < j < b.len() implies (#[trigger] b[i]).uuid != (
    #[trigger] b[j]).uuid by {
        assert(a[i].uuid == b[i].uuid);
        assert(a[j].uuid == b[j].uuid);
    }
}

/// Whether no two connections have the same uuid.
pub fn uuids_distinct(conns: &Vec<Connection>) -> (r: bool)
    ensures
        r == distinct_uuids(conns.deep_view()),
{
    let ghost views = conns.deep_view();
    assert(views.len() == conns@.len());
    let mut j: usize = 0;
    while j < conns.len()
        invariant
            j <= conns.len(),
            views == conns.deep_view(),
            views.len() == conns@.len(),
            forall|a: int, b: int| 0 <= a < b < j ==> (#[trigger] views[a]).uuid != (#[trigger] views[b]).uuid,
        decreases conns.len() - j,
    {
        let mut i: usize = 0;
        while i < j
            invariant
                i <= j,
                j < conns.len(),
                views == conns.deep_view(),
                views.len() == conns@.len(),
                forall|a: int| 0 <= a < i ==> (#[trigger] views[a]).uuid != views[j as int].uuid,
            decreases j - i,
        {
            assert(views[i as int] == conns[i as int].deep_view());
            assert(views[j as int] == conns[j as int].deep_view());
            if conns[i].uuid == conns[j].uuid {
                return false;
            }
            i = i + 1;
        }
        j = j + 1;
    }
    true
}


/// Linking is idempotent: to link a connection to the same controller once
/// more changes nothing.
pub proof fn lemma_link_first_idempotent(conns: Seq<ConnectionView>, uuid: u128, m: ParentMatch)
    ensures
        spec_link_first(spec_link_first(conns, uuid, m), uuid, m) == spec_link_first(conns, uuid, m),
    decreases conns.len(),
{
    if conns.len() > 0 {
        let once = spec_link_first(conns, uuid, m);
        let rest = conns.drop_first();
        if conns[0].uuid == uuid {
            assert(once[0] == spec_linked(conns[0], m));
            assert(once.drop_first() =~= rest);
            assert(spec_linked(once[0], m) == once[0]);
            assert(spec_link_first(once, uuid, m) =~= once);
        } else {
            lemma_link_first_idempotent(rest, uuid, m);
            assert(once[0] == conns[0]);
            assert(once.drop_first() =~= spec_link_first(rest, uuid, m));
            assert(spec_link_first(once, uuid, m) =~= once);
        }
    }
}

/// Linking leaves every connection where it is found by its interface:
/// what is found afterwards is what was found before, or its linked form.
pub proof fn lemma_link_first_find_interface(
    conns: Seq<ConnectionView>,
    uuid: u128,
    m: ParentMatch,
    name: Seq<char>,
)
    ensures
        find_interface(spec_link_first(conns, uuid, m), name) is Some == find_interface(
            conns,
            name,
        ) is Some,
        find_interface(conns, name) is Some ==> find_interface(
            spec_link_first(conns, uuid, m),
            name,
        ).unwrap().uuid == find_interface(conns, name).unwrap().uuid,
    decreases conns.len(),
{
    if conns.len() > 0 {
        let once = spec_link_first(conns, uuid, m);
        let rest = conns.drop_first();
        if conns[0].uuid == uuid {
            assert(once[0] == spec_linked(conns[0], m));
            assert(once.drop_first() =~= rest);
        } else {
            lemma_link_first_find_interface(rest, uuid, m, name);
            assert(once[0] == conns[0]);
            assert(once.drop_first() =~= spec_link_first(rest, uuid, m));
        }
    }
}

/// The resolution of a port of a bridge or a bond is idempotent: on the
/// connections that it gave, the link resolves to the same controller, and
/// to link the connection to it once more changes nothing.
pub proof fn lemma_direct_link_idempotent(conns: Seq<ConnectionView>, link: PendingLinkView)
    requires
        link.port is Some,
        link.port.unwrap().port_type != LinkPortType::OvsBridge,
        spec_step(conns, link) is Link,
    ensures
        ({
            let m = spec_step(conns, link)->Link_0;
            let once = spec_link_first(conns, link.port_uuid, m);
            spec_step(once, link) == Step::Link(m) && spec_link_first(once, link.port_uuid, m) == once
        }),
{
    let m = spec_step(conns, link)->Link_0;
    lemma_link_first_find_interface(conns, link.port_uuid, m, link.master);
    lemma_link_first_idempotent(conns, link.port_uuid, m);
}


/// Every address and every route destination of the connections has a
/// prefix length that fits its family.
pub open spec fn addresses_ok(conns: Seq<ConnectionView>) -> bool {
    forall|i: int| 0 <= i < conns.len() ==> (#[trigger] conns[i]).ip_config.wf()
}

/// Two lists of connections with well-formed addresses make one.
pub proof fn lemma_concat_addresses_ok(a: Seq<ConnectionView>, b: Seq<ConnectionView>)
    requires
        addresses_ok(a),
        addresses_ok(b),
    ensures
        addresses_ok(a + b),
{
    assert forall|i: int| 0 <= i < (a + b).len() implies (#[trigger] (a + b)[i]).ip_config.wf() by {
        if i < a.len() {
            assert((a + b)[i] == a[i]);
        } else {
            assert((a + b)[i] == b[i - a.len()]);
        }
    }
}

/// The connections of the networks of a wireless interface have the IP
/// settings of the interface.
pub proof fn lemma_networks_addresses_ok(
    ifc: Interface,
    settings: MigrationSettings,
    ip: IpConfigView,
    controller: Option<u128>,
    uuids: Seq<u128>,
    networks: Seq<Network>,
    index: nat,
    done: (Seq<ConnectionView>, Seq<WarningView>),
)
    requires
        ip.wf(),
        addresses_ok(done.0),
        ifc.spec_networks_onto(settings, ip, controller, uuids, networks, index, done) is Ok,
    ensures
        addresses_ok(
            ifc.spec_networks_onto(settings, ip, controller, uuids, networks, index, done)->Ok_0.0,
        ),
    decreases networks.len() - index,
{
    if index < networks.len() {
        let one = ifc.spec_network_connection(
            settings,
            ip,
            controller,
            uuids[index as int],
            networks[index as int],
            index,
            networks.len(),
        )->Ok_0;
        assert(one.0.ip_config == ip);
        assert(done.0.push(one.0) =~= done.0 + seq![one.0]);
        lemma_concat_addresses_ok(done.0, seq![one.0]);
        lemma_networks_addresses_ok(
            ifc,
            settings,
            ip,
            controller,
            uuids,
            networks,
            index + 1,
            (done.0.push(one.0), done.1 + one.1),
        );
    }
}

/// The connections of the technology of an interface have well-formed
/// addresses where the IP settings of the interface and the connections in
/// front have.
pub proof fn lemma_technology_addresses_ok(
    ifc: Interface,
    settings: MigrationSettings,
    ip: IpConfigView,
    lead: Seq<ConnectionView>,
    warnings: Seq<WarningView>,
    controller: Option<u128>,
    uuids: Seq<u128>,
)
    requires
        ip.wf(),
        addresses_ok(lead),
        ifc.spec_technology_connections(settings, ip, lead, warnings, controller, uuids) is Ok,
    ensures
        addresses_ok(
            ifc.spec_technology_connections(settings, ip, lead, warnings, controller, uuids)->Ok_0.0,
        ),
{
    let out = ifc.spec_technology_connections(settings, ip, lead, warnings, controller, uuids)->Ok_0.0;
    assert(IpConfigView::blank().wf());
    match ifc.spec_technology() {
        Technology::Wireless(w) => {
            match w.networks {
                Some(networks) => {
                    lemma_networks_addresses_ok(
                        ifc,
                        settings,
                        ip,
                        controller,
                        uuids,
                        networks@,
                        0,
                        (lead, warnings),
                    );
                },
                None => {},
            }
        },
        _ => {
            assert forall|i: int| 0 <= i < out.len() implies (#[trigger] out[i]).ip_config.wf() by {
                if i < lead.len() {
                    assert(out[i] == lead[i]);
                } else {
                    assert(out[i].ip_config == ip || out[i].ip_config == IpConfigView::blank());
                }
            }
        },
    }
}

/// In the connections that an interface is translated to, all addresses
/// are well formed where those of its IP settings are.
pub proof fn lemma_translation_addresses_ok(
    ifc: Interface,
    settings: MigrationSettings,
    netconfig_dhcp: Option<NetconfigDhcp>,
    port_uuid: u128,
    uuids: Seq<u128>,
)
    requires
        ifc.spec_connections(settings, netconfig_dhcp, port_uuid, uuids) is Ok,
        ifc.spec_ip_config(netconfig_dhcp)->Ok_0.0.wf(),
    ensures
        addresses_ok(ifc.spec_connections(settings, netconfig_dhcp, port_uuid, uuids)->Ok_0.0),
{
    let read = ifc.spec_ip_config(netconfig_dhcp)->Ok_0;
    let lead = if ifc.spec_has_ovs_link() {
        seq![ifc.spec_ovs_port(port_uuid, None, None)]
    } else {
        Seq::empty()
    };
    assert(IpConfigView::blank().wf());
    assert(addresses_ok(lead));
    lemma_technology_addresses_ok(
        ifc,
        settings,
        read.0,
        lead,
        read.1 + ifc.spec_unhandled_warnings(),
        if ifc.spec_has_ovs_link() {
            Some(port_uuid)
        } else {
            None
        },
        uuids,
    );
}

/// Linking touches no address.
pub proof fn lemma_link_first_addresses_ok(conns: Seq<ConnectionView>, uuid: u128, m: ParentMatch)
    requires
        addresses_ok(conns),
    ensures
        addresses_ok(spec_link_first(conns, uuid, m)),
{
    let out = spec_link_first(conns, uuid, m);
    lemma_link_first(conns, uuid, m);
    assert forall|i: int| 0 <= i < out.len() implies (#[trigger] out[i]).ip_config.wf() by {
        assert(conns[i].ip_config.wf());
    }
}

/// Applying the steps of a pass touches no address.
pub proof fn lemma_apply_onto_addresses_ok(
    state: (Seq<ConnectionView>, Seq<PendingLinkView>, Seq<WarningView>),
    links: Seq<PendingLinkView>,
    steps: Seq<Step>,
    index: nat,
)
    requires
        addresses_ok(state.0),
    ensures
        addresses_ok(spec_apply_onto(state, links, steps, index).0),
    decreases links.len() - index,
{
    if index < links.len() {
        let link = links[index as int];
        let next = match steps[index as int] {
            Step::MissingParent => (
                state.0,
                state.1.push(link),
                state.2.push(WarningView::MissingParent { parent: link.master, port: link.port_id }),
            ),
            Step::Drop => state,
            Step::Keep => (state.0, state.1.push(link), state.2),
            Step::Link(m) => (spec_link_first(state.0, link.port_uuid, m), state.1, state.2),
        };
        match steps[index as int] {
            Step::Link(m) => {
                lemma_link_first_addresses_ok(state.0, link.port_uuid, m);
            },
            _ => {},
        }
        lemma_apply_onto_addresses_ok(next, links, steps, index + 1);
    }
}

/// Resolution touches no address.
pub proof fn lemma_resolve_addresses_ok(
    conns: Seq<ConnectionView>,
    pending: Seq<PendingLinkView>,
    warnings: Seq<WarningView>,
    continue_migration: bool,
)
    requires
        addresses_ok(conns),
        spec_resolve(conns, pending, warnings, continue_migration) is Ok,
    ensures
        addresses_ok(spec_resolve(conns, pending, warnings, continue_migration)->Ok_0.0),
    decreases pending.len(),
{
    let steps = spec_steps(conns, continue_migration, pending)->Ok_0;
    lemma_apply_onto_addresses_ok((conns, Seq::empty(), Seq::empty()), pending, steps, 0);
    let pass = spec_pass(conns, pending, continue_migration)->Ok_0;
    if pass.1.len() != 0 && pass.1.len() < pending.len() {
        lemma_resolve_addresses_ok(pass.0, pass.1, warnings + pass.2, continue_migration);
    }
}

/// Gathering connections with well-formed addresses gives connections
/// with well-formed addresses.
pub proof fn lemma_collect_addresses_ok(
    state: (Seq<ConnectionView>, Seq<PendingLinkView>, Seq<WarningView>),
    interfaces: Seq<Interface>,
    results: Seq<(Seq<ConnectionView>, Seq<WarningView>)>,
    index: nat,
)
    requires
        results.len() == interfaces.len(),
        addresses_ok(state.0),
        forall|k: int| index <= k < results.len() ==> addresses_ok((#[trigger] results[k]).0),
    ensures
        addresses_ok(spec_collect_onto(state, interfaces, results, index).0),
    decreases interfaces.len() - index,
{
    if index < interfaces.len() {
        let added = spec_add_connections_onto(
            (state.0, state.1),
            interfaces[index as int],
            results[index as int].0,
            0,
        );
        lemma_add_connections((state.0, state.1), interfaces[index as int], results[index as int].0, 0);
        assert(results[index as int].0.skip(0) =~= results[index as int].0);
        lemma_concat_addresses_ok(state.0, results[index as int].0);
        lemma_collect_addresses_ok(
            (added.0, added.1, state.2 + results[index as int].1),
            interfaces,
            results,
            index + 1,
        );
    }
}

/// Correcting the activation touches no address.
pub proof fn lemma_activation_addresses_ok(
    conns: Seq<ConnectionView>,
    settings: MigrationSettings,
    present: Seq<Seq<char>>,
)
    requires
        addresses_ok(conns),
    ensures
        addresses_ok(spec_activation(conns, settings, present)),
{
    let out = spec_activation(conns, settings, present);
    assert forall|i: int| 0 <= i < out.len() implies (#[trigger] out[i]).ip_config.wf() by {
        assert(conns[i].ip_config.wf());
    }
}


/// Whether the link of the connection `uuid` to `m` is in effect already:
/// the first connection of that uuid, if there is one, is its own linked
/// form.
pub open spec fn is_linked(conns: Seq<ConnectionView>, uuid: u128, m: ParentMatch) -> bool {
    match find_uuid(conns, uuid) {
        Some(c) => spec_linked(c, m) == c,
        None => true,
    }
}

/// Whether every pending link is resolved in the connections as they are:
/// it names only a parent, or it resolves to a controller that its
/// connection has already.
pub open spec fn fully_resolved(
    conns: Seq<ConnectionView>,
    pending: Seq<PendingLinkView>,
    continue_migration: bool,
) -> bool {
    forall|k: int|
        0 <= k < pending.len() ==> match spec_checked_step(
            conns,
            #[trigger] pending[k],
            continue_migration,
        ) {
            Ok(Step::Drop) => true,
            Ok(Step::Link(m)) => is_linked(conns, pending[k].port_uuid, m),
            _ => false,
        }
}

/// To link a connection whose link is in effect already changes nothing.
pub proof fn lemma_link_first_linked(conns: Seq<ConnectionView>, uuid: u128, m: ParentMatch)
    requires
        is_linked(conns, uuid, m),
    ensures
        spec_link_first(conns, uuid, m) == conns,
    decreases conns.len(),
{
    if conns.len() > 0 {
        let rest = conns.drop_first();
        if conns[0].uuid == uuid {
            assert(seq![conns[0]] + rest =~= conns);
        } else {
            lemma_link_first_linked(rest, uuid, m);
            assert(seq![conns[0]] + rest =~= conns);
        }
    }
}

/// Applying steps that only drop links or link what is linked already
/// leaves everything as it is.
pub proof fn lemma_apply_onto_resolved(
    state: (Seq<ConnectionView>, Seq<PendingLinkView>, Seq<WarningView>),
    links: Seq<PendingLinkView>,
    steps: Seq<Step>,
    index: nat,
)
    requires
        steps.len() == links.len(),
        forall|k: int|
            index <= k < links.len() ==> match #[trigger] steps[k] {
                Step::Drop => true,
                Step::Link(m) => is_linked(state.0, links[k].port_uuid, m),
                _ => false,
            },
    ensures
        spec_apply_onto(state, links, steps, index) == state,
    decreases links.len() - index,
{
    if index < links.len() {
        match steps[index as int] {
            Step::Link(m) => {
                lemma_link_first_linked(state.0, links[index as int].port_uuid, m);
            },
            _ => {},
        }
        lemma_apply_onto_resolved(state, links, steps, index + 1);
    }
}

/// Resolution is idempotent: on connections in which every pending link is
/// resolved already, a pass changes nothing, leaves nothing pending and
/// warns of nothing, and resolution to the end gives the connections back
/// as they are, whatever the links.
pub proof fn lemma_resolved_is_fixed(
    conns: Seq<ConnectionView>,
    pending: Seq<PendingLinkView>,
    warnings: Seq<WarningView>,
    continue_migration: bool,
)
    requires
        fully_resolved(conns, pending, continue_migration),
    ensures
        spec_pass(conns, pending, continue_migration) == Ok::<
            (Seq<ConnectionView>, Seq<PendingLinkView>, Seq<WarningView>),
            FailureView,
        >((conns, Seq::empty(), Seq::empty())),
        spec_resolve(conns, pending, warnings, continue_migration) == Ok::<
            (Seq<ConnectionView>, Seq<WarningView>),
            FailureView,
        >((conns, warnings)),
{
    lemma_steps_all(conns, continue_migration, Seq::empty(), pending);
    let steps = spec_steps(conns, continue_migration, pending)->Ok_0;
    lemma_steps_onto(conns, continue_migration, Seq::empty(), pending);
    assert forall|k: int| 0 <= k < pending.len() implies match #[trigger] steps[k] {
        Step::Drop => true,
        Step::Link(m) => is_linked(conns, pending[k].port_uuid, m),
        _ => false,
    } by {
        assert(spec_checked_step(conns, pending[k], continue_migration) == Ok::<Step, FailureView>(
            steps[k],
        ));
    }
    lemma_apply_onto_resolved((conns, Seq::empty(), Seq::empty()), pending, steps, 0);
    assert(warnings + Seq::<WarningView>::empty() =~= warnings);
}

/// Where every link gives a step, the pass has its steps.
pub proof fn lemma_steps_all(
    conns: Seq<ConnectionView>,
    continue_migration: bool,
    done: Seq<Step>,
    rest: Seq<PendingLinkView>,
)
    requires
        forall|k: int|
            0 <= k < rest.len() ==> spec_checked_step(conns, #[trigger] rest[k], continue_migration) is Ok,
    ensures
        crate::migrate::spec_steps_onto(conns, continue_migration, done, rest) is Ok,
    decreases rest.len(),
{
    if rest.len() > 0 {
        let step = spec_checked_step(conns, rest[0], continue_migration)->Ok_0;
        let tail = rest.drop_first();
        assert forall|k: int| 0 <= k < tail.len() implies spec_checked_step(
            conns,
            #[trigger] tail[k],
            continue_migration,
        ) is Ok by {
            assert(tail[k] == rest[k + 1]);
        }
        lemma_steps_all(conns, continue_migration, done.push(step), tail);
    }
}


/// What is found by uuid after linking: the linked form of what was found
/// before, where the uuid is the one that was linked, and else what was
/// found before.
pub proof fn lemma_link_first_find_uuid(
    conns: Seq<ConnectionView>,
    uuid: u128,
    m: ParentMatch,
    other: u128,
)
    ensures
        find_uuid(spec_link_first(conns, uuid, m), other) == if other == uuid {
            match find_uuid(conns, uuid) {
                Some(c) => Some(spec_linked(c, m)),
                None => None,
            }
        } else {
            find_uuid(conns, other)
        },
    decreases conns.len(),
{
    if conns.len() > 0 {
        let once = spec_link_first(conns, uuid, m);
        let rest = conns.drop_first();
        if conns[0].uuid == uuid {
            assert(once[0] == spec_linked(conns[0], m));
            assert(once.drop_first() =~= rest);
        } else {
            lemma_link_first_find_uuid(rest, uuid, m, other);
            assert(once[0] == conns[0]);
            assert(once.drop_first() =~= spec_link_first(rest, uuid, m));
        }
    }
}

/// No two pending links belong to the same connection.
pub open spec fn distinct_ports(pending: Seq<PendingLinkView>) -> bool {
    forall|i: int, j: int|
        0 <= i < j < pending.len() ==> (#[trigger] pending[i]).port_uuid != (
        #[trigger] pending[j]).port_uuid
}

/// After the steps of a pass are applied, every link that was resolved is
/// in effect, where no two links belong to the same connection; and every
/// connection is found by its interface as before.
pub proof fn lemma_apply_onto_links(
    state: (Seq<ConnectionView>, Seq<PendingLinkView>, Seq<WarningView>),
    links: Seq<PendingLinkView>,
    steps: Seq<Step>,
    index: nat,
    name: Seq<char>,
)
    requires
        steps.len() == links.len(),
        distinct_ports(links),
        forall|k: int|
            0 <= k < index && k < links.len() && (#[trigger] steps[k]) is Link ==> is_linked(
                state.0,
                links[k].port_uuid,
                steps[k]->Link_0,
            ),
    ensures
        forall|k: int|
            0 <= k < links.len() && (#[trigger] steps[k]) is Link ==> is_linked(
                spec_apply_onto(state, links, steps, index).0,
                links[k].port_uuid,
                steps[k]->Link_0,
            ),
        find_interface(spec_apply_onto(state, links, steps, index).0, name) is Some
            == find_interface(state.0, name) is Some,
        find_interface(state.0, name) is Some ==> find_interface(
            spec_apply_onto(state, links, steps, index).0,
            name,
        ).unwrap().uuid == find_interface(state.0, name).unwrap().uuid,
        same_uuids(state.0, spec_apply_onto(state, links, steps, index).0),
    decreases links.len() - index,
{
    if index < links.len() {
        let link = links[index as int];
        let next = match steps[index as int] {
            Step::MissingParent => (
                state.0,
                state.1.push(link),
                state.2.push(WarningView::MissingParent { parent: link.master, port: link.port_id }),
            ),
            Step::Drop => state,
            Step::Keep => (state.0, state.1.push(link), state.2),
            Step::Link(m) => (spec_link_first(state.0, link.port_uuid, m), state.1, state.2),
        };
        match steps[index as int] {
            Step::Link(m) => {
                lemma_link_first(state.0, link.port_uuid, m);
                lemma_link_first_find_interface(state.0, link.port_uuid, m, name);
                assert forall|k: int|
                    0 <= k < index + 1 && k < links.len() && (#[trigger] steps[k]) is Link implies is_linked(
                    next.0,
                    links[k].port_uuid,
                    steps[k]->Link_0,
                ) by {
                    lemma_link_first_find_uuid(state.0, link.port_uuid, m, links[k].port_uuid);
                    if k == index {
                        match find_uuid(state.0, link.port_uuid) {
                            Some(c) => {
                                assert(spec_linked(spec_linked(c, m), m) == spec_linked(c, m));
                            },
                            None => {},
                        }
                    }
                }
            },
            _ => {},
        }
        lemma_apply_onto_links(next, links, steps, index + 1, name);
    }
}

/// The resolution of ports of bridges and bonds is idempotent as a whole.
///
/// Where no two links belong to the same connection, none goes through a
/// fake bridge and a pass resolves them all, its result is fully resolved:
/// to resolve the same links once more on it changes nothing.
pub proof fn lemma_direct_resolution_idempotent(
    conns: Seq<ConnectionView>,
    pending: Seq<PendingLinkView>,
    warnings: Seq<WarningView>,
    continue_migration: bool,
)
    requires
        distinct_ports(pending),
        forall|k: int|
            0 <= k < pending.len() ==> (#[trigger] pending[k]).port is Some
                && pending[k].port.unwrap().port_type != LinkPortType::OvsBridge,
        spec_pass(conns, pending, continue_migration) is Ok,
        spec_pass(conns, pending, continue_migration)->Ok_0.1.len() == 0,
    ensures
        fully_resolved(
            spec_pass(conns, pending, continue_migration)->Ok_0.0,
            pending,
            continue_migration,
        ),
        spec_resolve(
            spec_pass(conns, pending, continue_migration)->Ok_0.0,
            pending,
            warnings,
            continue_migration,
        ) == Ok::<(Seq<ConnectionView>, Seq<WarningView>), FailureView>(
            (spec_pass(conns, pending, continue_migration)->Ok_0.0, warnings),
        ),
{
    let steps = spec_steps(conns, continue_migration, pending)->Ok_0;
    let start = (conns, Seq::<PendingLinkView>::empty(), Seq::<WarningView>::empty());
    let out = spec_pass(conns, pending, continue_migration)->Ok_0;
    lemma_steps_onto(conns, continue_migration, Seq::empty(), pending);
    lemma_apply_onto(start, pending, steps, 0);
    assert forall|k: int| 0 <= k < pending.len() implies match spec_checked_step(
        out.0,
        #[trigger] pending[k],
        continue_migration,
    ) {
        Ok(Step::Drop) => true,
        Ok(Step::Link(m)) => is_linked(out.0, pending[k].port_uuid, m),
        _ => false,
    } by {
        let link = pending[k];
        assert(spec_checked_step(conns, link, continue_migration) == Ok::<Step, FailureView>(
            steps[k],
        ));
        if steps[k] == Step::MissingParent {
            assert(out.1.contains(link));
        }
        if steps[k] == Step::Keep {
            lemma_apply_onto_keeps(start, pending, steps, 0, k);
        }
        assert(steps[k] is Link);
        lemma_apply_onto_links(start, pending, steps, 0, link.master);
        lemma_same_uuids_has(conns, out.0, link.port_uuid);
        lemma_find_uuid(conns, link.port_uuid);
        lemma_find_uuid(out.0, link.port_uuid);
    }
    lemma_resolved_is_fixed(out.0, pending, warnings, continue_migration);
}

/// A link that a pass cannot follow yet stays pending.
pub proof fn lemma_apply_onto_keeps(
    state: (Seq<ConnectionView>, Seq<PendingLinkView>, Seq<WarningView>),
    links: Seq<PendingLinkView>,
    steps: Seq<Step>,
    index: nat,
    k: int,
)
    requires
        steps.len() == links.len(),
        index <= k < links.len(),
        steps[k] == Step::Keep,
    ensures
        spec_apply_onto(state, links, steps, index).1.len() > 0,
    decreases links.len() - index,
{
    let link = links[index as int];
    let next = match steps[index as int] {
        Step::MissingParent => (
            state.0,
            state.1.push(link),
            state.2.push(WarningView::MissingParent { parent: link.master, port: link.port_id }),
        ),
        Step::Drop => state,
        Step::Keep => (state.0, state.1.push(link), state.2),
        Step::Link(m) => (spec_link_first(state.0, link.port_uuid, m), state.1, state.2),
    };
    lemma_apply_onto(next, links, steps, index + 1);
    if k > index {
        lemma_apply_onto_keeps(next, links, steps, index + 1, k);
    }
}


/// Whether one of the pending links belongs to the connection `uuid`.
pub open spec fn has_port(pending: Seq<PendingLinkView>, uuid: u128) -> bool {
    exists|i: int| 0 <= i < pending.len() && (#[trigger] pending[i]).port_uuid == uuid
}

/// To put in a link keeps the links of different connections apart: the
/// new link takes the place of the one that its connection had.
pub proof fn lemma_insert_pending_distinct(pending: Seq<PendingLinkView>, link: PendingLinkView)
    requires
        distinct_ports(pending),
    ensures
        distinct_ports(spec_insert_pending(pending, link)),
        forall|j: int|
            0 <= j < spec_insert_pending(pending, link).len() ==> (#[trigger] spec_insert_pending(
                pending,
                link,
            )[j]).port_uuid == link.port_uuid || has_port(
                pending,
                spec_insert_pending(pending, link)[j].port_uuid,
            ),
    decreases pending.len(),
{
    let out = spec_insert_pending(pending, link);
    if pending.len() > 0 {
        let rest = pending.drop_first();
        assert forall|i: int, j: int| 0 <= i < j < rest.len() implies (#[trigger] rest[i]).port_uuid != (
        #[trigger] rest[j]).port_uuid by {
            assert(rest[i] == pending[i + 1]);
            assert(rest[j] == pending[j + 1]);
        }
        if pending[0].port_uuid == link.port_uuid {
            assert forall|j: int| 0 <= j < out.len() implies (#[trigger] out[j]).port_uuid
                == link.port_uuid || has_port(pending, out[j].port_uuid) by {
                if j > 0 {
                    assert(out[j] == pending[j]);
                }
            }
            assert forall|i: int, j: int| 0 <= i < j < out.len() implies (#[trigger] out[i]).port_uuid != (
            #[trigger] out[j]).port_uuid by {
                assert(out[j] == pending[j]);
                if i > 0 {
                    assert(out[i] == pending[i]);
                } else {
                    assert(out[0].port_uuid == pending[0].port_uuid);
                }
            }
        } else {
            lemma_insert_pending_distinct(rest, link);
            let tail = spec_insert_pending(rest, link);
            assert forall|j: int| 0 <= j < out.len() implies (#[trigger] out[j]).port_uuid
                == link.port_uuid || has_port(pending, out[j].port_uuid) by {
                if j > 0 {
                    assert(out[j] == tail[j - 1]);
                    if tail[j - 1].port_uuid != link.port_uuid {
                        let u = tail[j - 1].port_uuid;
                        let i = choose|i: int| 0 <= i < rest.len() && (#[trigger] rest[i]).port_uuid == u;
                        assert(pending[i + 1].port_uuid == u);
                    }
                } else {
                    assert(out[0] == pending[0]);
                }
            }
            assert forall|i: int, j: int| 0 <= i < j < out.len() implies (#[trigger] out[i]).port_uuid != (
            #[trigger] out[j]).port_uuid by {
                assert(out[j] == tail[j - 1]);
                if i > 0 {
                    assert(out[i] == tail[i - 1]);
                } else {
                    assert(out[0] == pending[0]);
                    if tail[j - 1].port_uuid != link.port_uuid {
                        let u = tail[j - 1].port_uuid;
                        let x = choose|x: int| 0 <= x < rest.len() && (#[trigger] rest[x]).port_uuid == u;
                        assert(rest[x] == pending[x + 1]);
                    }
                }
            }
        }
    }
}

/// Gathering the connections of an interface keeps the pending links of
/// different connections apart.
pub proof fn lemma_add_connections_distinct(
    state: (Seq<ConnectionView>, Seq<PendingLinkView>),
    ifc: Interface,
    conns: Seq<ConnectionView>,
    index: nat,
)
    requires
        distinct_ports(state.1),
    ensures
        distinct_ports(spec_add_connections_onto(state, ifc, conns, index).1),
    decreases conns.len() - index,
{
    if index < conns.len() {
        let c = conns[index as int];
        let next = (
            state.0.push(c),
            match spec_link_for(ifc, c) {
                Some(link) => spec_insert_pending(state.1, link),
                None => state.1,
            },
        );
        match spec_link_for(ifc, c) {
            Some(link) => {
                lemma_insert_pending_distinct(state.1, link);
            },
            None => {},
        }
        lemma_add_connections_distinct(next, ifc, conns, index + 1);
    }
}

/// Of the links that are gathered for resolution, no two belong to the
/// same connection.
pub proof fn lemma_collect_distinct(
    state: (Seq<ConnectionView>, Seq<PendingLinkView>, Seq<WarningView>),
    interfaces: Seq<Interface>,
    results: Seq<(Seq<ConnectionView>, Seq<WarningView>)>,
    index: nat,
)
    requires
        distinct_ports(state.1),
    ensures
        distinct_ports(spec_collect_onto(state, interfaces, results, index).1),
    decreases interfaces.len() - index,
{
    if index < interfaces.len() {
        let added = spec_add_connections_onto(
            (state.0, state.1),
            interfaces[index as int],
            results[index as int].0,
            0,
        );
        lemma_add_connections_distinct(
            (state.0, state.1),
            interfaces[index as int],
            results[index as int].0,
            0,
        );
        lemma_collect_distinct(
            (added.0, added.1, state.2 + results[index as int].1),
            interfaces,
            results,
            index + 1,
        );
    }
}


/// No two of the uuids are the same.
pub open spec fn all_differ(uuids: Seq<u128>) -> bool {
    forall|i: int, j: int| 0 <= i < j < uuids.len() ==> uuids[i] != uuids[j]
}

/// Whether the connections from the place `from` on have the uuids given,
/// one after the other.
pub open spec fn carry_uuids(conns: Seq<ConnectionView>, from: int, uuids: Seq<u128>) -> bool {
    &&& conns.len() == from + uuids.len()
    &&& forall|k: int| 0 <= k < uuids.len() ==> (#[trigger] conns[from + k]).uuid == uuids[k]
}

/// The connections of the networks of a wireless interface carry the
/// uuids given, in their order, behind those that are there.
pub proof fn lemma_networks_carry_uuids(
    ifc: Interface,
    settings: MigrationSettings,
    ip: IpConfigView,
    controller: Option<u128>,
    uuids: Seq<u128>,
    networks: Seq<Network>,
    index: nat,
    done: (Seq<ConnectionView>, Seq<WarningView>),
    from: int,
)
    requires
        0 <= from,
        uuids.len() == networks.len(),
        index <= networks.len(),
        carry_uuids(done.0, from, uuids.take(index as int)),
        ifc.spec_networks_onto(settings, ip, controller, uuids, networks, index, done) is Ok,
    ensures
        carry_uuids(
            ifc.spec_networks_onto(settings, ip, controller, uuids, networks, index, done)->Ok_0.0,
            from,
            uuids,
        ),
        forall|j: int|
            0 <= j < done.0.len() ==> ifc.spec_networks_onto(
                settings,
                ip,
                controller,
                uuids,
                networks,
                index,
                done,
            )->Ok_0.0[j] == done.0[j],
    decreases networks.len() - index,
{
    if index < networks.len() {
        let one = ifc.spec_network_connection(
            settings,
            ip,
            controller,
            uuids[index as int],
            networks[index as int],
            index,
            networks.len(),
        )->Ok_0;
        let next = (done.0.push(one.0), done.1 + one.1);
        assert(one.0.uuid == uuids[index as int]);
        assert forall|k: int| 0 <= k < index + 1 implies (#[trigger] next.0[from + k]).uuid
            == uuids.take(index as int + 1)[k] by {
            if k < index {
                assert(next.0[from + k] == done.0[from + k]);
                assert(uuids.take(index as int)[k] == uuids[k]);
            }
        }
        lemma_networks_carry_uuids(
            ifc,
            settings,
            ip,
            controller,
            uuids,
            networks,
            index + 1,
            next,
            from,
        );
        assert forall|j: int| 0 <= j < done.0.len() implies ifc.spec_networks_onto(
            settings,
            ip,
            controller,
            uuids,
            networks,
            index,
            done,
        )->Ok_0.0[j] == done.0[j] by {
            assert(next.0[j] == done.0[j]);
        }
    } else {
        assert(uuids.take(index as int) =~= uuids);
    }
}

/// The connections of the technology of an interface carry the uuids
/// given, in their order, behind the connections in front, which stay.
pub proof fn lemma_technology_carries_uuids(
    ifc: Interface,
    settings: MigrationSettings,
    ip: IpConfigView,
    lead: Seq<ConnectionView>,
    warnings: Seq<WarningView>,
    controller: Option<u128>,
    uuids: Seq<u128>,
)
    requires
        uuids.len() == ifc.spec_technology_count(),
        ifc.spec_technology_connections(settings, ip, lead, warnings, controller, uuids) is Ok,
    ensures
        carry_uuids(
            ifc.spec_technology_connections(settings, ip, lead, warnings, controller, uuids)->Ok_0.0,
            lead.len() as int,
            uuids,
        ),
        forall|j: int|
            0 <= j < lead.len() ==> ifc.spec_technology_connections(
                settings,
                ip,
                lead,
                warnings,
                controller,
                uuids,
            )->Ok_0.0[j] == lead[j],
{
    match ifc.spec_technology() {
        Technology::Wireless(w) => {
            match w.networks {
                Some(networks) => {
                    assert(uuids.take(0) =~= Seq::empty());
                    lemma_networks_carry_uuids(
                        ifc,
                        settings,
                        ip,
                        controller,
                        uuids,
                        networks@,
                        0,
                        (lead, warnings),
                        lead.len() as int,
                    );
                },
                None => {},
            }
        },
        _ => {},
    }
}

/// The connections that an interface is translated to have uuids that all
/// differ, where the uuids that are handed in do.
pub proof fn lemma_translation_distinct(
    ifc: Interface,
    settings: MigrationSettings,
    netconfig_dhcp: Option<NetconfigDhcp>,
    port_uuid: u128,
    uuids: Seq<u128>,
)
    requires
        uuids.len() == ifc.spec_technology_count(),
        all_differ(seq![port_uuid] + uuids),
        ifc.spec_connections(settings, netconfig_dhcp, port_uuid, uuids) is Ok,
    ensures
        distinct_uuids(ifc.spec_connections(settings, netconfig_dhcp, port_uuid, uuids)->Ok_0.0),
{
    let read = ifc.spec_ip_config(netconfig_dhcp)->Ok_0;
    let lead = if ifc.spec_has_ovs_link() {
        seq![ifc.spec_ovs_port(port_uuid, None, None)]
    } else {
        Seq::empty()
    };
    let from = lead.len() as int;
    let out = ifc.spec_connections(settings, netconfig_dhcp, port_uuid, uuids)->Ok_0.0;
    let all = seq![port_uuid] + uuids;
    lemma_technology_carries_uuids(
        ifc,
        settings,
        read.0,
        lead,
        read.1 + ifc.spec_unhandled_warnings(),
        if ifc.spec_has_ovs_link() {
            Some(port_uuid)
        } else {
            None
        },
        uuids,
    );
    assert forall|i: int, j: int| 0 <= i < j < out.len() implies (#[trigger] out[i]).uuid != (
    #[trigger] out[j]).uuid by {
        let b = j - from;
        assert(out[from + b].uuid == uuids[b]);
        assert(all[b + 1] == uuids[b]);
        if i < from {
            assert(out[i] == lead[i]);
            assert(all[0] == port_uuid);
        } else {
            let a = i - from;
            assert(out[from + a].uuid == uuids[a]);
            assert(all[a + 1] == uuids[a]);
        }
    }
}

/// None of the connections has the interface `name`.
pub open spec fn no_interface(conns: Seq<ConnectionView>, name: Seq<char>) -> bool {
    forall|i: int| 0 <= i < conns.len() ==> (#[trigger] conns[i]).interface != Some(name)
}

/// None of the connections of a batch has the interface `name`.
pub open spec fn batch_without_interface(
    results: Seq<(Seq<ConnectionView>, Seq<WarningView>)>,
    name: Seq<char>,
) -> bool {
    forall|a: int| 0 <= a < results.len() ==> no_interface((#[trigger] results[a]).0, name)
}

/// Where no connection has an interface, none is found by it.
pub proof fn lemma_no_interface(conns: Seq<ConnectionView>, name: Seq<char>)
    requires
        no_interface(conns, name),
    ensures
        find_interface(conns, name) is None,
    decreases conns.len(),
{
    if conns.len() > 0 {
        let rest = conns.drop_first();
        assert(conns[0].interface != Some(name));
        assert forall|i: int| 0 <= i < rest.len() implies (#[trigger] rest[i]).interface != Some(
            name,
        ) by {
            assert(rest[i] == conns[i + 1]);
        }
        lemma_no_interface(rest, name);
    }
}

/// A link that is put in is there.
pub proof fn lemma_insert_pending_contains(pending: Seq<PendingLinkView>, link: PendingLinkView)
    ensures
        spec_insert_pending(pending, link).contains(link),
    decreases pending.len(),
{
    let out = spec_insert_pending(pending, link);
    if pending.len() == 0 || pending[0].port_uuid == link.port_uuid {
        assert(out[0] == link);
    } else {
        let rest = pending.drop_first();
        lemma_insert_pending_contains(rest, link);
        let tail = spec_insert_pending(rest, link);
        let i = choose|i: int| 0 <= i < tail.len() && tail[i] == link;
        assert(out[i + 1] == link);
    }
}

/// To put in the link of another connection leaves a link where it is.
pub proof fn lemma_insert_pending_keeps(
    pending: Seq<PendingLinkView>,
    other: PendingLinkView,
    link: PendingLinkView,
)
    requires
        pending.contains(link),
        other.port_uuid != link.port_uuid,
    ensures
        spec_insert_pending(pending, other).contains(link),
    decreases pending.len(),
{
    let out = spec_insert_pending(pending, other);
    let i = choose|i: int| 0 <= i < pending.len() && pending[i] == link;
    let rest = pending.drop_first();
    if pending[0].port_uuid == other.port_uuid {
        assert(i != 0);
        assert(out[i] == rest[i - 1]);
        assert(out[i] == link);
    } else {
        if i == 0 {
            assert(out[0] == link);
        } else {
            assert(rest[i - 1] == link);
            lemma_insert_pending_keeps(rest, other, link);
            let tail = spec_insert_pending(rest, other);
            let x = choose|x: int| 0 <= x < tail.len() && tail[x] == link;
            assert(out[x + 1] == link);
        }
    }
}

/// One more connection behind connections of which two have the same
/// uuid, or one has the uuid of the new one, makes connections of which
/// two have the same uuid.
pub proof fn lemma_push_duplicate(conns: Seq<ConnectionView>, c: ConnectionView)
    requires
        !distinct_uuids(conns) || has_uuid(conns, c.uuid),
    ensures
        !distinct_uuids(conns.push(c)),
{
    let out = conns.push(c);
    if !distinct_uuids(conns) {
        let (i, j) = choose|i: int, j: int|
            0 <= i < j < conns.len() && (#[trigger] conns[i]).uuid == (#[trigger] conns[j]).uuid;
        assert(out[i].uuid == out[j].uuid);
    } else {
        let i = choose|i: int| 0 <= i < conns.len() && (#[trigger] conns[i]).uuid == c.uuid;
        assert(out[i].uuid == out[conns.len() as int].uuid);
    }
}

/// What is tracked of a link through the gathering: its connection is
/// among the connections; the link is pending, unless two connections have
/// the same uuid; and no connection has the interface that it names.
pub open spec fn link_tracked(
    state: (Seq<ConnectionView>, Seq<PendingLinkView>),
    link: PendingLinkView,
) -> bool {
    &&& has_uuid(state.0, link.port_uuid)
    &&& state.1.contains(link) || !distinct_uuids(state.0)
    &&& no_interface(state.0, link.master)
}

/// Gathering more connections of an interface keeps track of a link.
pub proof fn lemma_add_connections_track(
    state: (Seq<ConnectionView>, Seq<PendingLinkView>),
    ifc: Interface,
    conns: Seq<ConnectionView>,
    index: nat,
    link: PendingLinkView,
)
    requires
        link_tracked(state, link),
        no_interface(conns, link.master),
    ensures
        link_tracked(spec_add_connections_onto(state, ifc, conns, index), link),
    decreases conns.len() - index,
{
    if index < conns.len() {
        let c = conns[index as int];
        let next = (
            state.0.push(c),
            match spec_link_for(ifc, c) {
                Some(other) => spec_insert_pending(state.1, other),
                None => state.1,
            },
        );
        lemma_push_refers_back_has(state.0, c, link.port_uuid);
        assert forall|i: int| 0 <= i < next.0.len() implies (#[trigger] next.0[i]).interface != Some(
            link.master,
        ) by {
            if i < state.0.len() {
                assert(next.0[i] == state.0[i]);
            }
        }
        if !distinct_uuids(state.0) {
            lemma_push_duplicate(state.0, c);
        } else {
            match spec_link_for(ifc, c) {
                Some(other) => {
                    if other.port_uuid == link.port_uuid {
                        lemma_push_duplicate(state.0, c);
                    } else {
                        lemma_insert_pending_keeps(state.1, other, link);
                    }
                },
                None => {},
            }
        }
        lemma_add_connections_track(next, ifc, conns, index + 1, link);
    }
}

/// A uuid that is among the connections stays among them with one more.
pub proof fn lemma_push_refers_back_has(conns: Seq<ConnectionView>, c: ConnectionView, uuid: u128)
    requires
        has_uuid(conns, uuid),
    ensures
        has_uuid(conns.push(c), uuid),
{
    let i = choose|i: int| 0 <= i < conns.len() && (#[trigger] conns[i]).uuid == uuid;
    assert(conns.push(c)[i].uuid == uuid);
}

/// Gathering the connections of an interface that names a parent takes up
/// the link of each of them that has no controller, and keeps track of it.
pub proof fn lemma_add_connections_introduce(
    state: (Seq<ConnectionView>, Seq<PendingLinkView>),
    ifc: Interface,
    conns: Seq<ConnectionView>,
    index: nat,
    j: int,
)
    requires
        index <= j < conns.len(),
        conns[j].controller is None,
        ifc.link.master is Some,
        no_interface(state.0, ifc.link.master.unwrap()@),
        no_interface(conns, ifc.link.master.unwrap()@),
    ensures
        spec_link_for(ifc, conns[j]) is Some,
        spec_link_for(ifc, conns[j]).unwrap().master == ifc.link.master.unwrap()@,
        link_tracked(
            spec_add_connections_onto(state, ifc, conns, index),
            spec_link_for(ifc, conns[j]).unwrap(),
        ),
    decreases conns.len() - index,
{
    let master = ifc.link.master.unwrap()@;
    let link = spec_link_for(ifc, conns[j]).unwrap();
    let c = conns[index as int];
    let next = (
        state.0.push(c),
        match spec_link_for(ifc, c) {
            Some(other) => spec_insert_pending(state.1, other),
            None => state.1,
        },
    );
    assert forall|i: int| 0 <= i < next.0.len() implies (#[trigger] next.0[i]).interface != Some(
        master,
    ) by {
        if i < state.0.len() {
            assert(next.0[i] == state.0[i]);
        }
    }
    if index < j {
        lemma_add_connections_introduce(next, ifc, conns, index + 1, j);
    } else {
        lemma_insert_pending_contains(state.1, link);
        assert(next.0[state.0.len() as int].uuid == link.port_uuid);
        lemma_add_connections_track(next, ifc, conns, index + 1, link);
    }
}

/// Gathering the connections of more interfaces keeps track of a link.
pub proof fn lemma_collect_track(
    state: (Seq<ConnectionView>, Seq<PendingLinkView>, Seq<WarningView>),
    interfaces: Seq<Interface>,
    results: Seq<(Seq<ConnectionView>, Seq<WarningView>)>,
    index: nat,
    link: PendingLinkView,
)
    requires
        results.len() == interfaces.len(),
        link_tracked((state.0, state.1), link),
        batch_without_interface(results, link.master),
    ensures
        link_tracked(
            (
                spec_collect_onto(state, interfaces, results, index).0,
                spec_collect_onto(state, interfaces, results, index).1,
            ),
            link,
        ),
    decreases interfaces.len() - index,
{
    if index < interfaces.len() {
        let added = spec_add_connections_onto(
            (state.0, state.1),
            interfaces[index as int],
            results[index as int].0,
            0,
        );
        lemma_add_connections_track(
            (state.0, state.1),
            interfaces[index as int],
            results[index as int].0,
            0,
            link,
        );
        lemma_collect_track(
            (added.0, added.1, state.2 + results[index as int].1),
            interfaces,
            results,
            index + 1,
            link,
        );
    }
}

/// Gathering a batch takes up the link of a connection without controller
/// whose interface names a parent, and keeps track of it to the end.
pub proof fn lemma_collect_introduce(
    state: (Seq<ConnectionView>, Seq<PendingLinkView>, Seq<WarningView>),
    interfaces: Seq<Interface>,
    results: Seq<(Seq<ConnectionView>, Seq<WarningView>)>,
    index: nat,
    k: int,
    j: int,
)
    requires
        results.len() == interfaces.len(),
        index <= k < interfaces.len(),
        0 <= j < results[k].0.len(),
        results[k].0[j].controller is None,
        interfaces[k].link.master is Some,
        no_interface(state.0, interfaces[k].link.master.unwrap()@),
        batch_without_interface(results, interfaces[k].link.master.unwrap()@),
    ensures
        spec_link_for(interfaces[k], results[k].0[j]) is Some,
        spec_link_for(interfaces[k], results[k].0[j]).unwrap().master
            == interfaces[k].link.master.unwrap()@,
        link_tracked(
            (
                spec_collect_onto(state, interfaces, results, index).0,
                spec_collect_onto(state, interfaces, results, index).1,
            ),
            spec_link_for(interfaces[k], results[k].0[j]).unwrap(),
        ),
    decreases interfaces.len() - index,
{
    let master = interfaces[k].link.master.unwrap()@;
    let added = spec_add_connections_onto(
        (state.0, state.1),
        interfaces[index as int],
        results[index as int].0,
        0,
    );
    let next = (added.0, added.1, state.2 + results[index as int].1);
    assert(no_interface(results[index as int].0, master));
    if index < k {
        lemma_add_connections((state.0, state.1), interfaces[index as int], results[index as int].0, 0);
        assert(results[index as int].0.skip(0) =~= results[index as int].0);
        assert forall|i: int| 0 <= i < added.0.len() implies (#[trigger] added.0[i]).interface != Some(
            master,
        ) by {
            if i < state.0.len() {
                assert(added.0[i] == state.0[i]);
            } else {
                assert(added.0[i] == results[index as int].0[i - state.0.len()]);
            }
        }
        lemma_collect_introduce(next, interfaces, results, index + 1, k, j);
    } else {
        lemma_add_connections_introduce((state.0, state.1), interfaces[k], results[k].0, 0, j);
        lemma_collect_track(
            next,
            interfaces,
            results,
            index + 1,
            spec_link_for(interfaces[k], results[k].0[j]).unwrap(),
        );
    }
}

/// A parent that is absent from the whole batch ends the migration where
/// the caller does not continue on warnings.
///
/// Where an interface names a parent, one of its connections has no
/// controller, and no connection of the batch has the interface that is
/// named, putting the batch together fails: no network state comes of it.
pub proof fn lemma_dangling_parent_fails(
    interfaces: Seq<Interface>,
    results: Seq<(Seq<ConnectionView>, Seq<WarningView>)>,
    input_warnings: Seq<WarningView>,
    settings: MigrationSettings,
    present: Seq<Seq<char>>,
    k: int,
    j: int,
)
    requires
        !settings.continue_migration,
        results.len() == interfaces.len(),
        0 <= k < interfaces.len(),
        0 <= j < results[k].0.len(),
        results[k].0[j].controller is None,
        interfaces[k].link.master is Some,
        batch_without_interface(results, interfaces[k].link.master.unwrap()@),
    ensures
        spec_networkstate(interfaces, results, input_warnings, settings, present) is Err,
{
    let start = (
        Seq::<ConnectionView>::empty(),
        Seq::<PendingLinkView>::empty(),
        input_warnings,
    );
    lemma_collect_introduce(start, interfaces, results, 0, k, j);
    let gathered = spec_collect_onto(start, interfaces, results, 0);
    let link = spec_link_for(interfaces[k], results[k].0[j]).unwrap();
    if distinct_uuids(gathered.0) {
        let at = choose|at: int| 0 <= at < gathered.1.len() && gathered.1[at] == link;
        lemma_no_interface(gathered.0, link.master);
        lemma_missing_parent(gathered.0, gathered.1, gathered.2, at, false);
    }
}


/// Whether the interface of the connection `c` is one that the record
/// `ifc` gives to its connections: its name, or the name of its
/// open-vswitch port or bridge.
pub open spec fn own_interface(ifc: Interface, c: ConnectionView) -> bool {
    ||| c.interface == Some(ifc.name@)
    ||| c.interface == Some(ifc.spec_ovs_port_name())
    ||| c.interface == Some(ifc.spec_ovs_bridge_name())
}

/// The connections of the networks of a wireless interface have the name
/// of the interface as their interface.
pub proof fn lemma_networks_interfaces(
    ifc: Interface,
    settings: MigrationSettings,
    ip: IpConfigView,
    controller: Option<u128>,
    uuids: Seq<u128>,
    networks: Seq<Network>,
    index: nat,
    done: (Seq<ConnectionView>, Seq<WarningView>),
)
    requires
        forall|i: int| 0 <= i < done.0.len() ==> own_interface(ifc, #[trigger] done.0[i]),
        ifc.spec_networks_onto(settings, ip, controller, uuids, networks, index, done) is Ok,
    ensures
        forall|i: int|
            0 <= i < ifc.spec_networks_onto(
                settings,
                ip,
                controller,
                uuids,
                networks,
                index,
                done,
            )->Ok_0.0.len() ==> own_interface(
                ifc,
                #[trigger] ifc.spec_networks_onto(
                    settings,
                    ip,
                    controller,
                    uuids,
                    networks,
                    index,
                    done,
                )->Ok_0.0[i],
            ),
    decreases networks.len() - index,
{
    if index < networks.len() {
        let one = ifc.spec_network_connection(
            settings,
            ip,
            controller,
            uuids[index as int],
            networks[index as int],
            index,
            networks.len(),
        )->Ok_0;
        let next = (done.0.push(one.0), done.1 + one.1);
        assert(one.0.interface == Some(ifc.name@));
        assert forall|i: int| 0 <= i < next.0.len() implies own_interface(ifc, #[trigger] next.0[i]) by {
            if i < done.0.len() {
                assert(next.0[i] == done.0[i]);
            }
        }
        lemma_networks_interfaces(ifc, settings, ip, controller, uuids, networks, index + 1, next);
    }
}

/// Of the connections that an interface is translated to, each has an
/// interface of the record, and the first has no controller.
pub proof fn lemma_translation_shape(
    ifc: Interface,
    settings: MigrationSettings,
    netconfig_dhcp: Option<NetconfigDhcp>,
    port_uuid: u128,
    uuids: Seq<u128>,
)
    requires
        uuids.len() == ifc.spec_technology_count(),
        ifc.spec_connections(settings, netconfig_dhcp, port_uuid, uuids) is Ok,
    ensures
        ({
            let out = ifc.spec_connections(settings, netconfig_dhcp, port_uuid, uuids)->Ok_0.0;
            &&& forall|i: int| 0 <= i < out.len() ==> own_interface(ifc, #[trigger] out[i])
            &&& out.len() == ifc.spec_technology_count() + if ifc.spec_has_ovs_link() {
                1nat
            } else {
                0nat
            }
            &&& out.len() > 0 ==> out[0].controller is None
        }),
{
    let read = ifc.spec_ip_config(netconfig_dhcp)->Ok_0;
    let lead = if ifc.spec_has_ovs_link() {
        seq![ifc.spec_ovs_port(port_uuid, None, None)]
    } else {
        Seq::empty()
    };
    let controller = if ifc.spec_has_ovs_link() {
        Some(port_uuid)
    } else {
        None
    };
    lemma_technology_shape(
        ifc,
        settings,
        read.0,
        lead,
        read.1 + ifc.spec_unhandled_warnings(),
        controller,
        uuids,
    );
}

/// Of the connections of the technology of an interface behind the
/// connections in front: each has an interface of the record where those
/// in front have, and the first has no controller where the first in front
/// has none, or none is in front and none controls the interface.
pub proof fn lemma_technology_shape(
    ifc: Interface,
    settings: MigrationSettings,
    ip: IpConfigView,
    lead: Seq<ConnectionView>,
    warnings: Seq<WarningView>,
    controller: Option<u128>,
    uuids: Seq<u128>,
)
    requires
        uuids.len() == ifc.spec_technology_count(),
        forall|i: int| 0 <= i < lead.len() ==> own_interface(ifc, #[trigger] lead[i]),
        lead.len() > 0 ==> lead[0].controller is None,
        lead.len() == 0 ==> controller is None,
        ifc.spec_technology_connections(settings, ip, lead, warnings, controller, uuids) is Ok,
    ensures
        ({
            let out = ifc.spec_technology_connections(
                settings,
                ip,
                lead,
                warnings,
                controller,
                uuids,
            )->Ok_0.0;
            &&& forall|i: int| 0 <= i < out.len() ==> own_interface(ifc, #[trigger] out[i])
            &&& out.len() == lead.len() + uuids.len()
            &&& out.len() > 0 ==> out[0].controller is None
        }),
{
    let out = ifc.spec_technology_connections(settings, ip, lead, warnings, controller, uuids)->Ok_0.0;
    lemma_technology_carries_uuids(ifc, settings, ip, lead, warnings, controller, uuids);
    match ifc.spec_technology() {
        Technology::Wireless(w) => {
            match w.networks {
                Some(networks) => {
                    lemma_networks_interfaces(
                        ifc,
                        settings,
                        ip,
                        controller,
                        uuids,
                        networks@,
                        0,
                        (lead, warnings),
                    );
                    if networks@.len() > 0 && lead.len() == 0 {
                        let one = ifc.spec_network_connection(
                            settings,
                            ip,
                            controller,
                            uuids[0],
                            networks@[0],
                            0,
                            networks@.len(),
                        )->Ok_0;
                        let next = (lead.push(one.0), warnings + one.1);
                        assert(uuids.take(1) =~= seq![uuids[0]]);
                        lemma_networks_carry_uuids(
                            ifc,
                            settings,
                            ip,
                            controller,
                            uuids,
                            networks@,
                            1,
                            next,
                            0,
                        );
                        assert(out[0] == next.0[0]);
                    }
                },
                None => {},
            }
        },
        _ => {
            assert forall|i: int| 0 <= i < out.len() implies own_interface(ifc, #[trigger] out[i]) by {
                if i < lead.len() {
                    assert(out[i] == lead[i]);
                }
            }
        },
    }
    if lead.len() > 0 {
        assert(out[0] == lead[0]);
    }
}

/// Whether none of the interfaces gives its connections the interface
/// `name`: neither as its own name nor as the name of its open-vswitch
/// port or bridge.
pub open spec fn absent_from_batch(interfaces: Seq<Interface>, name: Seq<char>) -> bool {
    forall|a: int|
        0 <= a < interfaces.len() ==> (#[trigger] interfaces[a]).name@ != name
            && interfaces[a].spec_ovs_port_name() != name && interfaces[a].spec_ovs_bridge_name()
            != name
}

/// A parent that is absent from the whole batch ends the run where the
/// caller does not continue on warnings.
///
/// Where an interface that gives a connection names a parent that none of
/// the interfaces of the batch gives to a connection, whatever comes of
/// translating the batch and putting it together is a failure.
pub proof fn lemma_dangling_parent_ends_batch(
    input: InterfacesResult,
    settings: MigrationSettings,
    present: Seq<Seq<char>>,
    outcome: Result<(Seq<ConnectionView>, Seq<WarningView>), FailureView>,
    k: int,
)
    requires
        !settings.continue_migration,
        is_networkstate(input, settings, present, outcome),
        0 <= k < input.interfaces@.len(),
        input.interfaces@[k].link.master is Some,
        input.interfaces@[k].spec_technology_count() > 0 || input.interfaces@[k].spec_has_ovs_link(),
        absent_from_batch(input.interfaces@, input.interfaces@[k].link.master.unwrap()@),
    ensures
        outcome is Err,
{
    let interfaces = input.interfaces@;
    let master = interfaces[k].link.master.unwrap()@;
    if outcome is Ok {
        let results = choose|results: Seq<(Seq<ConnectionView>, Seq<WarningView>)>|
            crate::migrate::are_translations(interfaces, results, settings, input.netconfig_dhcp)
                && outcome == #[trigger] spec_networkstate(
                interfaces,
                results,
                input.warnings.deep_view(),
                settings,
                present,
            );
        assert forall|a: int| 0 <= a < results.len() implies no_interface(
            (#[trigger] results[a]).0,
            master,
        ) && (a == k ==> results[a].0.len() > 0 && results[a].0[0].controller is None) by {
            assert(is_translation(interfaces[a], results[a], settings, input.netconfig_dhcp));
            let (port_uuid, uuids) = choose|port_uuid: u128, uuids: Seq<u128>|
                uuids.len() == interfaces[a].spec_technology_count() && Ok::<
                    (Seq<ConnectionView>, Seq<WarningView>),
                    FailureView,
                >(results[a]) == #[trigger] interfaces[a].spec_connections(
                    settings,
                    input.netconfig_dhcp,
                    port_uuid,
                    uuids,
                );
            lemma_translation_shape(interfaces[a], settings, input.netconfig_dhcp, port_uuid, uuids);
            assert forall|i: int| 0 <= i < results[a].0.len() implies (#[trigger] results[a].0[i]).interface
                != Some(master) by {
                assert(own_interface(interfaces[a], results[a].0[i]));
            }
        }
        lemma_dangling_parent_fails(
            interfaces,
            results,
            input.warnings.deep_view(),
            settings,
            present,
            k,
            0,
        );
    }
}

} // verus!
