//! The resolution of controller/port links between connections.
//!
//! A port names its parent by interface. Once all connections are known,
//! each such link is turned into the uuid of the controlling connection.
//! A port of an open-vswitch "fake bridge" is not controlled by its textual
//! parent but by the real bridge behind it, which is found through two
//! controller links; these may have to be resolved first, so resolution
//! goes in passes until nothing is pending or a pass changes nothing.

use vstd::prelude::*;
use crate::connection::ConnectionResult;
use crate::interface::{Interface, LinkPort, LinkPortType};
use crate::model::{
    Connection, ConnectionConfig, ConnectionConfigView, ConnectionView, OvsPortConfig, Status,
};
use crate::netconfig_dhcp::NetconfigDhcp;
use crate::outcome::{draws_nothing, is_duplicate, lemma_nothing_drawn};
use crate::reader::InterfacesResult;
use crate::report::{
    any_warning, duplicate_warnings, has_warnings, result_view, Failure, FailureView, Warning,
    WarningView,
};
use crate::settings::MigrationSettings;
use crate::state::{index_of_id, is_first_with_id, unique_ids, NetworkState};
use crate::text::str_eq;
use crate::topology::{
    addresses_ok, controllers_ok, distinct_ports, distinct_uuids, has_uuid,
    lemma_activation_addresses_ok, lemma_activation_ok, lemma_collect_addresses_ok,
    lemma_collect_distinct, lemma_collect_refers_back, lemma_refers_back_ok,
    lemma_resolve_addresses_ok, lemma_resolve_ok, lemma_same_uuids_distinct,
    lemma_translation_refers_back, refers_back, uuids_distinct,
};

verus! {

/// The controller that a link resolves to. `tag` is the VLAN tag that the
/// port inherits, set only where the link passes through a fake bridge.
#[derive(Clone, Copy, Debug, PartialEq, Eq, Structural)]
pub struct ParentMatch {
    pub uuid: u128,
    pub tag: Option<u16>,
}

impl ParentMatch {
    /// The match with the connection `value` itself, without a tag.
    pub fn from(value: u128) -> (r: ParentMatch)
        ensures
            r == (ParentMatch { uuid: value, tag: None }),
    {
        ParentMatch { uuid: value, tag: None }
    }
}

/// A link that waits for its resolution: the connection `port_uuid` (with
/// the id `port_id`) names the interface `master` as its parent. Among the
/// links that are gathered for resolution, no two belong to the same
/// connection.
#[derive(Clone, Debug, PartialEq, Eq)]
pub struct PendingLink {
    pub port_uuid: u128,
    pub port_id: String,
    pub master: String,
    pub port: Option<LinkPort>,
}

pub ghost struct PendingLinkView {
    pub port_uuid: u128,
    pub port_id: Seq<char>,
    pub master: Seq<char>,
    pub port: Option<LinkPort>,
}

impl DeepView for PendingLink {
    type V = PendingLinkView;

    open spec fn deep_view(&self) -> PendingLinkView {
        PendingLinkView {
            port_uuid: self.port_uuid,
            port_id: self.port_id@,
            master: self.master@,
            port: self.port,
        }
    }
}

impl PendingLink {
    /// A copy of the link.
    pub fn duplicate(&self) -> (r: PendingLink)
        ensures
            r.deep_view() == self.deep_view(),
    {
        PendingLink {
            port_uuid: self.port_uuid,
            port_id: self.port_id.clone(),
            master: self.master.clone(),
            port: self.port,
        }
    }
}

/// The first connection with the interface `name`.
pub open spec fn find_interface(conns: Seq<ConnectionView>, name: Seq<char>) -> Option<ConnectionView>
    decreases conns.len(),
{
    if conns.len() == 0 {
        None
    } else if conns[0].interface == Some(name) {
        Some(conns[0])
    } else {
        find_interface(conns.drop_first(), name)
    }
}

/// The first connection with the uuid `uuid`.
pub open spec fn find_uuid(conns: Seq<ConnectionView>, uuid: u128) -> Option<ConnectionView>
    decreases conns.len(),
{
    if conns.len() == 0 {
        None
    } else if conns[0].uuid == uuid {
        Some(conns[0])
    } else {
        find_uuid(conns.drop_first(), uuid)
    }
}

fn find_by_interface<'a>(conns: &'a Vec<Connection>, name: &str) -> (r: Option<&'a Connection>)
    ensures
        r.deep_view() == find_interface(conns.deep_view(), name@),
{
    let mut i: usize = 0;
    assert(conns.deep_view().skip(0) =~= conns.deep_view());
    while i < conns.len()
        invariant
            i <= conns.len(),
            find_interface(conns.deep_view(), name@) == find_interface(
                conns.deep_view().skip(i as int),
                name@,
            ),
        decreases conns.len() - i,
    {
        assert(conns.deep_view().len() == conns@.len());
        assert(conns.deep_view().skip(i as int)[0] == conns[i as int].deep_view());
        assert(conns.deep_view().skip(i as int).drop_first() =~= conns.deep_view().skip(i + 1));
        let found = match &conns[i].interface {
            Some(x) => str_eq(x.as_str(), name),
            None => false,
        };
        if found {
            return Some(&conns[i]);
        }
        i = i + 1;
    }
    assert(conns.deep_view().len() == conns@.len());
    None
}

fn find_by_uuid<'a>(conns: &'a Vec<Connection>, uuid: u128) -> (r: Option<&'a Connection>)
    ensures
        r.deep_view() == find_uuid(conns.deep_view(), uuid),
        r is Some ==> r.unwrap().uuid == uuid,
{
    let mut i: usize = 0;
    assert(conns.deep_view().skip(0) =~= conns.deep_view());
    while i < conns.len()
        invariant
            i <= conns.len(),
            find_uuid(conns.deep_view(), uuid) == find_uuid(conns.deep_view().skip(i as int), uuid),
        decreases conns.len() - i,
    {
        assert(conns.deep_view().len() == conns@.len());
        assert(conns.deep_view().skip(i as int)[0] == conns[i as int].deep_view());
        assert(conns.deep_view().skip(i as int).drop_first() =~= conns.deep_view().skip(i + 1));
        if conns[i].uuid == uuid {
            return Some(&conns[i]);
        }
        i = i + 1;
    }
    assert(conns.deep_view().len() == conns@.len());
    None
}

/// The real bridge behind a fake bridge: `parent` is the connection of the
/// fake bridge, its controller is the port of the fake bridge, and the
/// controller of that port is the bridge. The match carries the VLAN tag of
/// the port. There is none while one of the two links is not resolved or
/// the controller of `parent` is no open-vswitch port.
pub open spec fn spec_parentmatch_ovsbridge(parent: ConnectionView, conns: Seq<ConnectionView>) -> Option<
    ParentMatch,
> {
    match parent.controller {
        None => None,
        Some(port_uuid) => match find_uuid(conns, port_uuid) {
            None => None,
            Some(bridge_port) => match bridge_port.config {
                ConnectionConfigView::OvsPort(config) => match bridge_port.controller {
                    None => None,
                    Some(bridge_uuid) => match find_uuid(conns, bridge_uuid) {
                        Some(bridge) => Some(ParentMatch { uuid: bridge_uuid, tag: config.tag }),
                        None => None,
                    },
                },
                _ => None,
            },
        },
    }
}

/// Looks through a fake bridge to the real bridge behind it.
pub fn get_parentmatch_ovsbridge(parent_connection: &Connection, connections: &Vec<Connection>) -> (r:
    Option<ParentMatch>)
    ensures
        r == spec_parentmatch_ovsbridge(parent_connection.deep_view(), connections.deep_view()),
{
    let port_uuid = match parent_connection.controller {
        Some(u) => u,
        None => {
            return None;
        },
    };
    let bridge_port = match find_by_uuid(connections, port_uuid) {
        Some(c) => c,
        None => {
            return None;
        },
    };
    let tag = match &bridge_port.config {
        ConnectionConfig::OvsPort(config) => config.tag,
        _ => {
            return None;
        },
    };
    let bridge_uuid = match bridge_port.controller {
        Some(u) => u,
        None => {
            return None;
        },
    };
    match find_by_uuid(connections, bridge_uuid) {
        Some(bridge) => Some(ParentMatch { uuid: bridge.uuid, tag }),
        None => None,
    }
}

/// What a pass does with one pending link.
#[derive(Clone, Copy, Debug, PartialEq, Eq, Structural)]
pub enum Step {
    /// No connection has the interface of the parent: the link stays
    /// pending and a warning is given.
    MissingParent,
    /// The link names only a parent, no port: there is nothing to resolve
    /// and the link is dropped.
    Drop,
    /// A link through a fake bridge that cannot be followed yet: it stays
    /// pending.
    Keep,
    /// The link is resolved.
    Link(ParentMatch),
}

/// What a pass does with `link`, given the connections as they are at the
/// start of the pass. A port of a bridge or a bond is controlled by the
/// connection of its parent, a port of an open-vswitch bridge by the real
/// bridge behind the parent. A connection that would control itself is not
/// linked: the link stays pending.
pub open spec fn spec_step(conns: Seq<ConnectionView>, link: PendingLinkView) -> Step {
    match find_interface(conns, link.master) {
        None => Step::MissingParent,
        Some(parent) => match link.port {
            None => Step::Drop,
            Some(port) => {
                let found = if port.port_type == LinkPortType::OvsBridge {
                    spec_parentmatch_ovsbridge(parent, conns)
                } else {
                    Some(ParentMatch { uuid: parent.uuid, tag: None })
                };
                match found {
                    Some(m) => if m.uuid == link.port_uuid {
                        Step::Keep
                    } else {
                        Step::Link(m)
                    },
                    None => Step::Keep,
                }
            },
        },
    }
}

/// The step for `link`, or the reason why the pass fails at it: a missing
/// parent where the caller does not continue on warnings, and a resolved
/// link whose port is no connection.
pub open spec fn spec_checked_step(conns: Seq<ConnectionView>, link: PendingLinkView, continue_migration: bool) -> Result<
    Step,
    FailureView,
> {
    match spec_step(conns, link) {
        Step::MissingParent => if continue_migration {
            Ok(Step::MissingParent)
        } else {
            Err(FailureView::MissingParent { parent: link.master, port: link.port_id })
        },
        Step::Link(m) => if find_uuid(conns, link.port_uuid) is Some {
            Ok(Step::Link(m))
        } else {
            Err(FailureView::MissingPort)
        },
        step => Ok(step),
    }
}

/// The steps found so far, continued with the steps for the links in
/// `rest`; the first link that fails ends it.
pub open spec fn spec_steps_onto(
    conns: Seq<ConnectionView>,
    continue_migration: bool,
    done: Seq<Step>,
    rest: Seq<PendingLinkView>,
) -> Result<Seq<Step>, FailureView>
    decreases rest.len(),
{
    if rest.len() == 0 {
        Ok(done)
    } else {
        match spec_checked_step(conns, rest[0], continue_migration) {
            Err(e) => Err(e),
            Ok(step) => spec_steps_onto(conns, continue_migration, done.push(step), rest.drop_first()),
        }
    }
}

/// The steps of a pass, one for each pending link.
pub open spec fn spec_steps(conns: Seq<ConnectionView>, continue_migration: bool, pending: Seq<PendingLinkView>) -> Result<
    Seq<Step>,
    FailureView,
> {
    spec_steps_onto(conns, continue_migration, Seq::empty(), pending)
}

fn checked_step(conns: &Vec<Connection>, link: &PendingLink, settings: &MigrationSettings) -> (r: Result<
    Step,
    Failure,
>)
    ensures
        match r {
            Ok(step) => spec_checked_step(
                conns.deep_view(),
                link.deep_view(),
                settings.continue_migration,
            ) == Ok::<Step, FailureView>(step),
            Err(e) => spec_checked_step(
                conns.deep_view(),
                link.deep_view(),
                settings.continue_migration,
            ) == Err::<Step, FailureView>(e.deep_view()),
        },
{
    let parent = match find_by_interface(conns, link.master.as_str()) {
        Some(c) => c,
        None => {
            return if settings.continue_migration {
                Ok(Step::MissingParent)
            } else {
                Err(
                    Failure::MissingParent {
                        parent: link.master.clone(),
                        port: link.port_id.clone(),
                    },
                )
            };
        },
    };
    let port = match link.port {
        Some(p) => p,
        None => {
            return Ok(Step::Drop);
        },
    };
    let found = match port.port_type {
        LinkPortType::OvsBridge => get_parentmatch_ovsbridge(parent, conns),
        _ => Some(ParentMatch::from(parent.uuid)),
    };
    match found {
        Some(m) => {
            if m.uuid == link.port_uuid {
                Ok(Step::Keep)
            } else if find_by_uuid(conns, link.port_uuid).is_some() {
                Ok(Step::Link(m))
            } else {
                Err(Failure::MissingPort)
            }
        },
        None => Ok(Step::Keep),
    }
}

fn steps(conns: &Vec<Connection>, pending: &Vec<PendingLink>, settings: &MigrationSettings) -> (r: Result<
    Vec<Step>,
    Failure,
>)
    ensures
        match r {
            Ok(s) => spec_steps(conns.deep_view(), settings.continue_migration, pending.deep_view())
                == Ok::<Seq<Step>, FailureView>(s@) && s@.len() == pending@.len(),
            Err(e) => spec_steps(conns.deep_view(), settings.continue_migration, pending.deep_view())
                == Err::<Seq<Step>, FailureView>(e.deep_view()),
        },
{
    let mut out: Vec<Step> = Vec::new();
    let mut i: usize = 0;
    assert(pending.deep_view().skip(0) =~= pending.deep_view());
    while i < pending.len()
        invariant
            i <= pending.len(),
            out@.len() == i,
            spec_steps(conns.deep_view(), settings.continue_migration, pending.deep_view())
                == spec_steps_onto(
                conns.deep_view(),
                settings.continue_migration,
                out@,
                pending.deep_view().skip(i as int),
            ),
        decreases pending.len() - i,
    {
        assert(pending.deep_view().len() == pending@.len());
        assert(pending.deep_view().skip(i as int)[0] == pending[i as int].deep_view());
        assert(pending.deep_view().skip(i as int).drop_first() =~= pending.deep_view().skip(i + 1));
        match checked_step(conns, &pending[i], settings) {
            Ok(step) => {
                out.push(step);
            },
            Err(e) => {
                return Err(e);
            },
        }
        i = i + 1;
    }
    assert(pending.deep_view().len() == pending@.len());
    Ok(out)
}


/// The connection `c` below the controller of `m`. An open-vswitch port
/// takes over the VLAN tag of the match, where that has one.
pub open spec fn spec_linked(c: ConnectionView, m: ParentMatch) -> ConnectionView {
    ConnectionView {
        controller: Some(m.uuid),
        config: match c.config {
            ConnectionConfigView::OvsPort(config) => match m.tag {
                Some(tag) => ConnectionConfigView::OvsPort(OvsPortConfig { tag: Some(tag) }),
                None => c.config,
            },
            _ => c.config,
        },
        ..c
    }
}

/// `conns` with the first connection of the uuid `uuid` linked to `m`.
pub open spec fn spec_link_first(conns: Seq<ConnectionView>, uuid: u128, m: ParentMatch) -> Seq<
    ConnectionView,
>
    decreases conns.len(),
{
    if conns.len() == 0 {
        conns
    } else if conns[0].uuid == uuid {
        seq![spec_linked(conns[0], m)] + conns.drop_first()
    } else {
        seq![conns[0]] + spec_link_first(conns.drop_first(), uuid, m)
    }
}

proof fn lemma_link_first_at(conns: Seq<ConnectionView>, uuid: u128, m: ParentMatch, i: int)
    requires
        0 <= i < conns.len(),
        conns[i].uuid == uuid,
        forall|j: int| 0 <= j < i ==> conns[j].uuid != uuid,
    ensures
        spec_link_first(conns, uuid, m) == conns.update(i, spec_linked(conns[i], m)),
    decreases i,
{
    if i == 0 {
        assert(seq![spec_linked(conns[0], m)] + conns.drop_first() =~= conns.update(
            0,
            spec_linked(conns[0], m),
        ));
    } else {
        let rest = conns.drop_first();
        assert(rest[i - 1] == conns[i]);
        assert forall|j: int| 0 <= j < i - 1 implies rest[j].uuid != uuid by {
            assert(rest[j] == conns[j + 1]);
        }
        lemma_link_first_at(rest, uuid, m, i - 1);
        assert(seq![conns[0]] + rest.update(i - 1, spec_linked(conns[i], m)) =~= conns.update(
            i,
            spec_linked(conns[i], m),
        ));
    }
}

proof fn lemma_link_first_absent(conns: Seq<ConnectionView>, uuid: u128, m: ParentMatch)
    requires
        forall|j: int| 0 <= j < conns.len() ==> conns[j].uuid != uuid,
    ensures
        spec_link_first(conns, uuid, m) == conns,
    decreases conns.len(),
{
    if conns.len() > 0 {
        let rest = conns.drop_first();
        assert forall|j: int| 0 <= j < rest.len() implies rest[j].uuid != uuid by {
            assert(rest[j] == conns[j + 1]);
        }
        lemma_link_first_absent(rest, uuid, m);
        assert(seq![conns[0]] + rest =~= conns);
    }
}

fn link_first(conns: &mut Vec<Connection>, uuid: u128, m: ParentMatch)
    ensures
        final(conns).deep_view() == spec_link_first(old(conns).deep_view(), uuid, m),
{
    let ghost before = conns.deep_view();
    assert(before.len() == conns@.len());
    let mut i: usize = 0;
    while i < conns.len()
        invariant
            i <= conns.len(),
            conns.deep_view() == before,
            before == old(conns).deep_view(),
            before.len() == conns@.len(),
            forall|j: int| 0 <= j < i ==> before[j].uuid != uuid,
        decreases conns.len() - i,
    {
        assert(before[i as int] == conns[i as int].deep_view());
        if conns[i].uuid == uuid {
            let mut c = conns.remove(i);
            assert(c.deep_view() == before[i as int]);
            c.controller = Some(m.uuid);
            match m.tag {
                Some(tag) => {
                    match &c.config {
                        ConnectionConfig::OvsPort(_) => {
                            c.config = ConnectionConfig::OvsPort(OvsPortConfig { tag: Some(tag) });
                        },
                        _ => {},
                    }
                },
                None => {},
            }
            assert(c.deep_view() == spec_linked(before[i as int], m));
            conns.insert(i, c);
            proof {
                lemma_link_first_at(before, uuid, m, i as int);
                assert(conns.deep_view().len() == conns@.len());
                assert(conns.deep_view() =~= before.update(i as int, spec_linked(before[i as int], m)));
            }
            return;
        }
        i = i + 1;
    }
    proof {
        lemma_link_first_absent(before, uuid, m);
    }
}

/// The connections, the links that stay pending and the warnings of a pass
/// so far, continued with what the steps from `index` on do: a link with a
/// missing parent stays and gives a warning, a link without port is
/// dropped, a link that cannot be followed yet stays, a resolved link
/// links the first connection of its uuid.
pub open spec fn spec_apply_onto(
    state: (Seq<ConnectionView>, Seq<PendingLinkView>, Seq<WarningView>),
    links: Seq<PendingLinkView>,
    steps: Seq<Step>,
    index: nat,
) -> (Seq<ConnectionView>, Seq<PendingLinkView>, Seq<WarningView>)
    decreases links.len() - index,
{
    if index >= links.len() {
        state
    } else {
        let link = links[index as int];
        let next = match steps[index as int] {
            Step::MissingParent => (
                state.0,
                state.1.push(link),
                state.2.push(WarningView::MissingParent { parent: link.master, port: link.port_id }),
            ),
            Step::Drop => state,
            Step::Keep => (state.0, state.1.push(link), state.2),
            Step::Link(m) => (spec_link_first(state.0, link.port_uuid, m), state.1, state.2),
        };
        spec_apply_onto(next, links, steps, index + 1)
    }
}

/// One pass of resolution: every pending link is looked up in the
/// connections as they are at the start of the pass; then all resolutions
/// are applied. It gives the connections, the links that stay pending and
/// the warnings of the pass.
pub open spec fn spec_pass(conns: Seq<ConnectionView>, pending: Seq<PendingLinkView>, continue_migration: bool) -> Result<
    (Seq<ConnectionView>, Seq<PendingLinkView>, Seq<WarningView>),
    FailureView,
> {
    match spec_steps(conns, continue_migration, pending) {
        Err(e) => Err(e),
        Ok(steps) => Ok(spec_apply_onto((conns, Seq::empty(), Seq::empty()), pending, steps, 0)),
    }
}

/// What a pass of resolution gives.
#[derive(Clone, Debug, PartialEq, Eq)]
pub struct Pass {
    pub connections: Vec<Connection>,
    /// The links that are still pending.
    pub pending: Vec<PendingLink>,
    /// The warnings of this pass.
    pub warnings: Vec<Warning>,
}

impl DeepView for Pass {
    type V = (Seq<ConnectionView>, Seq<PendingLinkView>, Seq<WarningView>);

    open spec fn deep_view(&self) -> (Seq<ConnectionView>, Seq<PendingLinkView>, Seq<WarningView>) {
        (self.connections.deep_view(), self.pending.deep_view(), self.warnings.deep_view())
    }
}

/// One pass of resolution over the pending links `parents`.
///
/// It fails at the first link whose parent is missing, where the caller
/// does not continue on warnings, or whose port is no connection. No more
/// links are pending afterwards than before.
pub fn update_parent_connection(
    connections: Vec<Connection>,
    parents: &Vec<PendingLink>,
    settings: &MigrationSettings,
) -> (r: Result<Pass, Failure>)
    ensures
        result_view(r) == spec_pass(
            connections.deep_view(),
            parents.deep_view(),
            settings.continue_migration,
        ),
        r is Ok ==> r.unwrap().pending@.len() <= parents@.len(),
{
    let steps = match steps(&connections, parents, settings) {
        Ok(s) => s,
        Err(e) => {
            return Err(e);
        },
    };
    let mut conns = connections;
    let mut kept: Vec<PendingLink> = Vec::new();
    let mut warnings: Vec<Warning> = Vec::new();
    assert(kept.deep_view() =~= Seq::empty());
    assert(warnings.deep_view() =~= Seq::empty());
    let ghost start = (conns.deep_view(), kept.deep_view(), warnings.deep_view());
    let mut i: usize = 0;
    while i < parents.len()
        invariant
            i <= parents.len(),
            steps@.len() == parents@.len(),
            kept@.len() <= i,
            spec_apply_onto(start, parents.deep_view(), steps@, 0) == spec_apply_onto(
                (conns.deep_view(), kept.deep_view(), warnings.deep_view()),
                parents.deep_view(),
                steps@,
                i as nat,
            ),
        decreases parents.len() - i,
    {
        let link = &parents[i];
        assert(parents.deep_view().len() == parents@.len());
        assert(parents.deep_view()[i as int] == link.deep_view());
        let ghost k = kept.deep_view();
        let ghost w = warnings.deep_view();
        assert(k.len() == kept@.len() && w.len() == warnings@.len());
        match steps[i] {
            Step::MissingParent => {
                kept.push(link.duplicate());
                warnings.push(
                    Warning::MissingParent {
                        parent: link.master.clone(),
                        port: link.port_id.clone(),
                    },
                );
                assert(kept.deep_view() =~= k.push(link.deep_view()));
                assert(warnings.deep_view() =~= w.push(
                    WarningView::MissingParent { parent: link.master@, port: link.port_id@ },
                ));
            },
            Step::Drop => {},
            Step::Keep => {
                kept.push(link.duplicate());
                assert(kept.deep_view() =~= k.push(link.deep_view()));
            },
            Step::Link(m) => {
                link_first(&mut conns, link.port_uuid, m);
            },
        }
        i = i + 1;
    }
    assert(parents.deep_view().len() == parents@.len());
    Ok(Pass { connections: conns, pending: kept, warnings })
}


/// The ids of the connections whose links are pending.
pub open spec fn spec_pending_ids(pending: Seq<PendingLinkView>) -> Seq<Seq<char>> {
    Seq::new(pending.len(), |i: int| pending[i].port_id)
}

fn pending_ids(pending: &Vec<PendingLink>) -> (r: Vec<String>)
    ensures
        r.deep_view() == spec_pending_ids(pending.deep_view()),
{
    let mut out: Vec<String> = Vec::new();
    let mut i: usize = 0;
    assert(out.deep_view() =~= Seq::empty());
    while i < pending.len()
        invariant
            i <= pending.len(),
            out.deep_view() == spec_pending_ids(pending.deep_view().take(i as int)),
        decreases pending.len() - i,
    {
        let ghost before = out.deep_view();
        assert(before.len() == out@.len());
        assert(pending.deep_view().len() == pending@.len());
        assert(pending.deep_view()[i as int] == pending[i as int].deep_view());
        out.push(pending[i].port_id.clone());
        assert(out.deep_view() =~= before.push(pending[i as int].port_id@));
        i = i + 1;
        assert(out.deep_view() =~= spec_pending_ids(pending.deep_view().take(i as int)));
    }
    assert(pending.deep_view().len() == pending@.len());
    assert(pending.deep_view().take(pending.len() as int) =~= pending.deep_view());
    out
}

/// Resolution to the end: passes are made until no link is pending, which
/// gives the connections and all warnings, or until a pass leaves as many
/// links pending as it found, which is a failure that names the
/// connections that wait for a controller (a cycle, or an ancestor that is
/// missing for good).
pub open spec fn spec_resolve(
    conns: Seq<ConnectionView>,
    pending: Seq<PendingLinkView>,
    warnings: Seq<WarningView>,
    continue_migration: bool,
) -> Result<(Seq<ConnectionView>, Seq<WarningView>), FailureView>
    decreases pending.len(),
{
    match spec_pass(conns, pending, continue_migration) {
        Err(e) => Err(e),
        Ok((c, p, w)) => if p.len() == 0 {
            Ok((c, warnings + w))
        } else if p.len() >= pending.len() {
            Err(FailureView::MissingController(spec_pending_ids(p)))
        } else {
            spec_resolve(c, p, warnings + w, continue_migration)
        },
    }
}

/// Resolves the pending links `parents` between `connections`, pass by
/// pass. `warnings` are the warnings so far; those of the passes are added.
pub fn resolve_parents(
    connections: Vec<Connection>,
    parents: Vec<PendingLink>,
    warnings: Vec<Warning>,
    settings: &MigrationSettings,
) -> (r: Result<ConnectionResult, Failure>)
    ensures
        result_view(r) == spec_resolve(
            connections.deep_view(),
            parents.deep_view(),
            warnings.deep_view(),
            settings.continue_migration,
        ),
{
    let mut conns = connections;
    let mut pending = parents;
    let mut warns = warnings;
    loop
        invariant
            spec_resolve(
                connections.deep_view(),
                parents.deep_view(),
                warnings.deep_view(),
                settings.continue_migration,
            ) == spec_resolve(
                conns.deep_view(),
                pending.deep_view(),
                warns.deep_view(),
                settings.continue_migration,
            ),
        decreases pending@.len(),
    {
        assert(pending.deep_view().len() == pending@.len());
        let pass = match update_parent_connection(conns, &pending, settings) {
            Ok(p) => p,
            Err(e) => {
                return Err(e);
            },
        };
        let ghost w = warns.deep_view();
        let ghost pw = pass.warnings.deep_view();
        assert(w.len() == warns@.len() && pw.len() == pass.warnings@.len());
        let mut more = pass.warnings;
        warns.append(&mut more);
        assert(warns.deep_view() =~= w + pw);
        assert(pass.pending.deep_view().len() == pass.pending@.len());
        if pass.pending.len() == 0 {
            return Ok(ConnectionResult { connections: pass.connections, warnings: warns });
        }
        if pass.pending.len() >= pending.len() {
            return Err(Failure::MissingController(pending_ids(&pass.pending)));
        }
        conns = pass.connections;
        pending = pass.pending;
    }
}

/// The link of the connection `c` of the interface `ifc` that has to be
/// resolved: none where `c` has a controller already; else the link of the
/// interface, where it names a parent; else, for a fake open-vswitch
/// bridge, a link to the bridge that its VLAN settings name.
pub open spec fn spec_link_for(ifc: Interface, c: ConnectionView) -> Option<PendingLinkView> {
    if c.controller is Some {
        None
    } else {
        match ifc.link.master {
            Some(m) => Some(
                PendingLinkView { port_uuid: c.uuid, port_id: c.id, master: m@, port: ifc.link.port },
            ),
            None => match ifc.ovs_bridge {
                Some(o) => match o.vlan {
                    Some(v) => Some(
                        PendingLinkView {
                            port_uuid: c.uuid,
                            port_id: c.id,
                            master: v.parent@,
                            port: Some(
                                LinkPort {
                                    port_type: LinkPortType::OvsBridge,
                                    priority: None,
                                    path_cost: None,
                                },
                            ),
                        },
                    ),
                    None => None,
                },
                None => None,
            },
        }
    }
}

fn link_for(ifc: &Interface, c: &Connection) -> (r: Option<PendingLink>)
    ensures
        r.deep_view() == spec_link_for(*ifc, c.deep_view()),
{
    if c.controller.is_some() {
        return None;
    }
    match &ifc.link.master {
        Some(m) => Some(
            PendingLink {
                port_uuid: c.uuid,
                port_id: c.id.clone(),
                master: m.clone(),
                port: ifc.link.port,
            },
        ),
        None => match &ifc.ovs_bridge {
            Some(o) => match &o.vlan {
                Some(v) => Some(
                    PendingLink {
                        port_uuid: c.uuid,
                        port_id: c.id.clone(),
                        master: v.parent.clone(),
                        port: Some(
                            LinkPort {
                                port_type: LinkPortType::OvsBridge,
                                priority: None,
                                path_cost: None,
                            },
                        ),
                    },
                ),
                None => None,
            },
            None => None,
        },
    }
}

/// `pending` with `link` in the place of the first link of the same
/// connection, or at the end where there is none: a connection has at most
/// one pending link, the one that was put in last.
pub open spec fn spec_insert_pending(pending: Seq<PendingLinkView>, link: PendingLinkView) -> Seq<
    PendingLinkView,
>
    decreases pending.len(),
{
    if pending.len() == 0 {
        seq![link]
    } else if pending[0].port_uuid == link.port_uuid {
        seq![link] + pending.drop_first()
    } else {
        seq![pending[0]] + spec_insert_pending(pending.drop_first(), link)
    }
}

proof fn lemma_insert_pending_at(pending: Seq<PendingLinkView>, link: PendingLinkView, i: int)
    requires
        0 <= i < pending.len(),
        pending[i].port_uuid == link.port_uuid,
        forall|j: int| 0 <= j < i ==> pending[j].port_uuid != link.port_uuid,
    ensures
        spec_insert_pending(pending, link) == pending.update(i, link),
    decreases i,
{
    if i == 0 {
        assert(seq![link] + pending.drop_first() =~= pending.update(0, link));
    } else {
        let rest = pending.drop_first();
        assert(rest[i - 1] == pending[i]);
        assert forall|j: int| 0 <= j < i - 1 implies rest[j].port_uuid != link.port_uuid by {
            assert(rest[j] == pending[j + 1]);
        }
        lemma_insert_pending_at(rest, link, i - 1);
        assert(seq![pending[0]] + rest.update(i - 1, link) =~= pending.update(i, link));
    }
}

proof fn lemma_insert_pending_absent(pending: Seq<PendingLinkView>, link: PendingLinkView)
    requires
        forall|j: int| 0 <= j < pending.len() ==> pending[j].port_uuid != link.port_uuid,
    ensures
        spec_insert_pending(pending, link) == pending.push(link),
    decreases pending.len(),
{
    if pending.len() > 0 {
        let rest = pending.drop_first();
        assert forall|j: int| 0 <= j < rest.len() implies rest[j].port_uuid != link.port_uuid by {
            assert(rest[j] == pending[j + 1]);
        }
        lemma_insert_pending_absent(rest, link);
        assert(seq![pending[0]] + rest.push(link) =~= pending.push(link));
    } else {
        assert(seq![link] =~= pending.push(link));
    }
}

fn insert_pending(pending: &mut Vec<PendingLink>, link: PendingLink)
    ensures
        final(pending).deep_view() == spec_insert_pending(old(pending).deep_view(), link.deep_view()),
{
    let ghost before = pending.deep_view();
    assert(before.len() == pending@.len());
    let mut i: usize = 0;
    while i < pending.len()
        invariant
            i <= pending.len(),
            pending.deep_view() == before,
            before == old(pending).deep_view(),
            before.len() == pending@.len(),
            forall|j: int| 0 <= j < i ==> before[j].port_uuid != link.port_uuid,
        decreases pending.len() - i,
    {
        assert(before[i as int] == pending[i as int].deep_view());
        if pending[i].port_uuid == link.port_uuid {
            pending[i] = link;
            proof {
                lemma_insert_pending_at(before, link.deep_view(), i as int);
                assert(pending.deep_view().len() == pending@.len());
                assert(pending.deep_view() =~= before.update(i as int, link.deep_view()));
            }
            return;
        }
        i = i + 1;
    }
    pending.push(link);
    proof {
        lemma_insert_pending_absent(before, link.deep_view());
        assert(pending.deep_view().len() == pending@.len());
        assert(pending.deep_view() =~= before.push(link.deep_view()));
    }
}

/// The connections and pending links gathered so far, continued with the
/// connections `conns` of the interface `ifc` from `index` on: each is
/// added, and so is its link where it has one to resolve.
pub open spec fn spec_add_connections_onto(
    state: (Seq<ConnectionView>, Seq<PendingLinkView>),
    ifc: Interface,
    conns: Seq<ConnectionView>,
    index: nat,
) -> (Seq<ConnectionView>, Seq<PendingLinkView>)
    decreases conns.len() - index,
{
    if index >= conns.len() {
        state
    } else {
        let c = conns[index as int];
        spec_add_connections_onto(
            (
                state.0.push(c),
                match spec_link_for(ifc, c) {
                    Some(link) => spec_insert_pending(state.1, link),
                    None => state.1,
                },
            ),
            ifc,
            conns,
            index + 1,
        )
    }
}

/// The connections, pending links and warnings gathered so far, continued
/// with what the interfaces from `index` on were translated to.
pub open spec fn spec_collect_onto(
    state: (Seq<ConnectionView>, Seq<PendingLinkView>, Seq<WarningView>),
    interfaces: Seq<Interface>,
    results: Seq<(Seq<ConnectionView>, Seq<WarningView>)>,
    index: nat,
) -> (Seq<ConnectionView>, Seq<PendingLinkView>, Seq<WarningView>)
    decreases interfaces.len() - index,
{
    if index >= interfaces.len() {
        state
    } else {
        let added = spec_add_connections_onto(
            (state.0, state.1),
            interfaces[index as int],
            results[index as int].0,
            0,
        );
        spec_collect_onto(
            (added.0, added.1, state.2 + results[index as int].1),
            interfaces,
            results,
            index + 1,
        )
    }
}

fn add_connections(
    connections: &mut Vec<Connection>,
    pending: &mut Vec<PendingLink>,
    ifc: &Interface,
    conns: Vec<Connection>,
)
    ensures
        (final(connections).deep_view(), final(pending).deep_view()) == spec_add_connections_onto(
            (old(connections).deep_view(), old(pending).deep_view()),
            *ifc,
            conns.deep_view(),
            0,
        ),
{
    let ghost views = conns.deep_view();
    assert(views.len() == conns@.len());
    for c in it: conns
        invariant
            it.seq() == conns@,
            views == conns.deep_view(),
            views.len() == conns@.len(),
            spec_add_connections_onto(
                (old(connections).deep_view(), old(pending).deep_view()),
                *ifc,
                views,
                0,
            ) == spec_add_connections_onto(
                (connections.deep_view(), pending.deep_view()),
                *ifc,
                views,
                it.index() as nat,
            ),
    {
        assert(views[it.index() as int] == c.deep_view());
        match link_for(ifc, &c) {
            Some(link) => {
                insert_pending(pending, link);
            },
            None => {},
        }
        let ghost before = connections.deep_view();
        assert(before.len() == connections@.len());
        connections.push(c);
        assert(connections.deep_view() =~= before.push(c.deep_view()));
    }
}

fn collect(interfaces: &Vec<Interface>, results: Vec<ConnectionResult>, warnings: Vec<Warning>) -> (r: (
    Vec<Connection>,
    Vec<PendingLink>,
    Vec<Warning>,
))
    requires
        results@.len() == interfaces@.len(),
    ensures
        r.deep_view() == spec_collect_onto(
            (Seq::empty(), Seq::empty(), warnings.deep_view()),
            interfaces@,
            results.deep_view(),
            0,
        ),
        distinct_ports(r.1.deep_view()),
{
    proof {
        lemma_collect_distinct(
            (Seq::empty(), Seq::empty(), warnings.deep_view()),
            interfaces@,
            results.deep_view(),
            0,
        );
    }
    let mut connections: Vec<Connection> = Vec::new();
    let mut pending: Vec<PendingLink> = Vec::new();
    let mut warns = warnings;
    assert(connections.deep_view() =~= Seq::empty());
    assert(pending.deep_view() =~= Seq::empty());
    let ghost views = results.deep_view();
    assert(views.len() == results@.len());
    let mut k: usize = 0;
    for result in it: results
        invariant
            it.seq() == results@,
            k == it.index(),
            k <= results@.len(),
            views == results.deep_view(),
            views.len() == results@.len(),
            results@.len() == interfaces@.len(),
            spec_collect_onto(
                (Seq::empty(), Seq::empty(), warnings.deep_view()),
                interfaces@,
                views,
                0,
            ) == spec_collect_onto(
                (connections.deep_view(), pending.deep_view(), warns.deep_view()),
                interfaces@,
                views,
                it.index() as nat,
            ),
    {
        assert(k < interfaces.len());
        assert(views[it.index() as int] == result.deep_view());
        let ghost w = warns.deep_view();
        let ghost rw = result.warnings.deep_view();
        assert(w.len() == warns@.len() && rw.len() == result.warnings@.len());
        let mut more = result.warnings;
        warns.append(&mut more);
        assert(warns.deep_view() =~= w + rw);
        add_connections(&mut connections, &mut pending, &interfaces[k], result.connections);
        k = k + 1;
    }
    (connections, pending, warns)
}


/// The interface that has to be there for the connection `c` to come up:
/// its own for ethernet and wireless (its id where it names none), the
/// parent device for an infiniband partition. Every other technology makes
/// its interface when it is needed, so there is none to wait for.
pub open spec fn spec_backing_interface(c: ConnectionView) -> Option<Seq<char>> {
    match c.config {
        ConnectionConfigView::Ethernet | ConnectionConfigView::Wireless(_) => Some(
            match c.interface {
                Some(i) => i,
                None => c.id,
            },
        ),
        ConnectionConfigView::Infiniband(config) => config.parent,
        _ => None,
    }
}

/// `c`, taken down where it connects by itself and its backing interface
/// is not among the `present` ones.
pub open spec fn spec_corrected(c: ConnectionView, present: Seq<Seq<char>>) -> ConnectionView {
    if c.autoconnect && spec_backing_interface(c) is Some && !present.contains(
        spec_backing_interface(c).unwrap(),
    ) {
        ConnectionView { status: Status::Down, ..c }
    } else {
        c
    }
}

/// The connections with their status corrected by the interfaces that are
/// present, where connections are to be activated; as they are, where not.
pub open spec fn spec_activation(
    conns: Seq<ConnectionView>,
    settings: MigrationSettings,
    present: Seq<Seq<char>>,
) -> Seq<ConnectionView> {
    if settings.activate_connections {
        Seq::new(conns.len(), |i: int| spec_corrected(conns[i], present))
    } else {
        conns
    }
}

fn is_present(present: &Vec<String>, name: &str) -> (r: bool)
    ensures
        r == present.deep_view().contains(name@),
{
    let mut i: usize = 0;
    while i < present.len()
        invariant
            i <= present.len(),
            forall|k: int| 0 <= k < i ==> present.deep_view()[k] != name@,
        decreases present.len() - i,
    {
        assert(present.deep_view().len() == present@.len());
        if str_eq(present[i].as_str(), name) {
            assert(present.deep_view()[i as int] == name@);
            return true;
        }
        i = i + 1;
    }
    assert(present.deep_view().len() == present@.len());
    false
}

fn must_go_down(c: &Connection, present: &Vec<String>) -> (r: bool)
    ensures
        r == (c.deep_view().autoconnect && spec_backing_interface(c.deep_view()) is Some
            && !present.deep_view().contains(spec_backing_interface(c.deep_view()).unwrap())),
{
    if !c.autoconnect {
        return false;
    }
    match &c.config {
        ConnectionConfig::Ethernet | ConnectionConfig::Wireless(_) => match &c.interface {
            Some(i) => !is_present(present, i.as_str()),
            None => !is_present(present, c.id.as_str()),
        },
        ConnectionConfig::Infiniband(config) => match &config.parent {
            Some(p) => !is_present(present, p.as_str()),
            None => false,
        },
        _ => false,
    }
}

/// Takes the connections down that would be activated without their
/// interface being there. `system_interfaces` are the names of the
/// interfaces that the running system has.
pub fn correct_activation(
    connections: &mut Vec<Connection>,
    settings: &MigrationSettings,
    system_interfaces: &Vec<String>,
)
    ensures
        final(connections).deep_view() == spec_activation(
            old(connections).deep_view(),
            *settings,
            system_interfaces.deep_view(),
        ),
{
    if !settings.activate_connections {
        return;
    }
    let ghost before = connections.deep_view();
    let ghost present = system_interfaces.deep_view();
    assert(before.len() == connections@.len());
    let mut i: usize = 0;
    while i < connections.len()
        invariant
            i <= connections.len(),
            before == old(connections).deep_view(),
            present == system_interfaces.deep_view(),
            before.len() == connections@.len(),
            connections.deep_view().len() == before.len(),
            forall|k: int|
                0 <= k < i ==> #[trigger] connections.deep_view()[k] == spec_corrected(before[k], present),
            forall|k: int| i <= k < before.len() ==> #[trigger] connections.deep_view()[k] == before[k],
        decreases connections.len() - i,
    {
        let ghost current = connections.deep_view();
        assert(current[i as int] == connections[i as int].deep_view());
        if must_go_down(&connections[i], system_interfaces) {
            connections[i].status = Status::Down;
            assert(connections.deep_view().len() == connections@.len());
            assert(connections.deep_view()[i as int] == connections[i as int].deep_view());
            assert forall|k: int| 0 <= k < before.len() && k != i implies #[trigger] connections.deep_view()[k]
                == current[k] by {
                assert(connections.deep_view()[k] == connections[k].deep_view());
            }
        }
        i = i + 1;
    }
    assert(connections.deep_view() =~= Seq::new(
        before.len(),
        |i: int| spec_corrected(before[i], present),
    ));
}

/// The connections of a migration with its warnings.
#[derive(Clone, Debug, PartialEq, Eq)]
pub struct NetworkStateResult {
    pub network_state: NetworkState,
    pub warnings: Vec<Warning>,
}

impl DeepView for NetworkStateResult {
    type V = (Seq<ConnectionView>, Seq<WarningView>);

    open spec fn deep_view(&self) -> (Seq<ConnectionView>, Seq<WarningView>) {
        (self.network_state.deep_view(), self.warnings.deep_view())
    }
}

impl NetworkStateResult {
    /// Whether a warning came up (a notice does not count).
    pub fn has_warnings(&self) -> (r: bool)
        ensures
            r == any_warning(self.warnings.deep_view()),
    {
        has_warnings(&self.warnings)
    }
}

/// The network state of the connections that the interfaces were
/// translated to.
///
/// The connections of all interfaces are gathered, together with the links
/// that have to be resolved and with all warnings, those of reading
/// (`input_warnings`) first. The links are resolved. Where connections are
/// to be activated, those whose interface is not present are taken down.
/// The connections make up the state; two connections with the same uuid
/// or the same id are a failure.
pub open spec fn spec_networkstate(
    interfaces: Seq<Interface>,
    results: Seq<(Seq<ConnectionView>, Seq<WarningView>)>,
    input_warnings: Seq<WarningView>,
    settings: MigrationSettings,
    present: Seq<Seq<char>>,
) -> Result<(Seq<ConnectionView>, Seq<WarningView>), FailureView> {
    let gathered = spec_collect_onto(
        (Seq::empty(), Seq::empty(), input_warnings),
        interfaces,
        results,
        0,
    );
    if !distinct_uuids(gathered.0) {
        Err(FailureView::DuplicateUuid)
    } else {
        match spec_resolve(gathered.0, gathered.1, gathered.2, settings.continue_migration) {
            Err(e) => Err(e),
            Ok((resolved, warnings)) => {
                let corrected = spec_activation(resolved, settings, present);
                if unique_ids(corrected) {
                    Ok((corrected, warnings))
                } else {
                    Err(FailureView::ConnectionExists)
                }
            },
        }
    }
}

/// What holds of the connections of a network state that a migration
/// gives: no two have the same id or the same uuid, none controls itself,
/// every controller is one of them, and every address has a prefix length
/// that fits its family.
pub open spec fn sound(conns: Seq<ConnectionView>) -> bool {
    unique_ids(conns) && distinct_uuids(conns) && controllers_ok(conns) && addresses_ok(conns)
}

/// Whether in each of `results` every controller is a connection further
/// to the front and all addresses are well formed, as it is in the
/// translation of an interface.
pub open spec fn all_refer_back(results: Seq<(Seq<ConnectionView>, Seq<WarningView>)>) -> bool {
    forall|k: int|
        0 <= k < results.len() ==> refers_back((#[trigger] results[k]).0) && addresses_ok(results[k].0)
}

fn state_of(connections: Vec<Connection>) -> (r: Result<NetworkState, Failure>)
    ensures
        match r {
            Ok(state) => unique_ids(connections.deep_view()) && state.deep_view()
                == connections.deep_view() && state.wf(),
            Err(e) => !unique_ids(connections.deep_view()) && e == Failure::ConnectionExists,
        },
{
    let mut state = NetworkState::default();
    let ghost views = connections.deep_view();
    assert(views.len() == connections@.len());
    for c in it: connections
        invariant
            it.seq() == connections@,
            views == connections.deep_view(),
            views.len() == connections@.len(),
            state.deep_view() == views.take(it.index() as int),
            state.wf(),
    {
        let ghost k = it.index() as int;
        assert(views[k] == c.deep_view());
        let ghost before = state.deep_view();
        match state.add_connection(c) {
            Ok(()) => {
                proof {
                    assert(state.deep_view() =~= views.take(k + 1));
                }
            },
            Err(e) => {
                proof {
                    let j = index_of_id(before, c.id@).unwrap();
                    assert(is_first_with_id(before, c.id@, j));
                    assert(views[j] == before[j]);
                    assert(views[j].id == views[k].id);
                }
                return Err(e);
            },
        }
    }
    assert(views.take(views.len() as int) =~= views);
    Ok(state)
}

/// Puts the connections of the interfaces together: gathers them with
/// their links, resolves the links, corrects the activation and makes the
/// state. `results[i]` is what the interface `interfaces[i]` was
/// translated to.
pub fn assemble_networkstate(
    interfaces: &Vec<Interface>,
    results: Vec<ConnectionResult>,
    input_warnings: Vec<Warning>,
    settings: &MigrationSettings,
    system_interfaces: &Vec<String>,
) -> (r: Result<NetworkStateResult, Failure>)
    requires
        results@.len() == interfaces@.len(),
    ensures
        result_view(r) == spec_networkstate(
            interfaces@,
            results.deep_view(),
            input_warnings.deep_view(),
            *settings,
            system_interfaces.deep_view(),
        ),
        r is Ok ==> r.unwrap().network_state.wf(),
        r is Ok && all_refer_back(results.deep_view()) ==> sound(
            r.unwrap().network_state.deep_view(),
        ),
{
    let (connections, links, gathered_warnings) = collect(interfaces, results, input_warnings);
    if !uuids_distinct(&connections) {
        return Err(Failure::DuplicateUuid);
    }
    let ghost before = connections.deep_view();
    let ghost pending = links.deep_view();
    let ghost warnings = gathered_warnings.deep_view();
    proof {
        if all_refer_back(results.deep_view()) {
            assert forall|j: int|
                0 <= j < 0 && (#[trigger] Seq::<ConnectionView>::empty()[j]).controller is Some implies has_uuid(
                Seq::<ConnectionView>::empty().take(j),
                Seq::<ConnectionView>::empty()[j].controller.unwrap(),
            ) by {}
            lemma_collect_refers_back(
                (Seq::empty(), Seq::empty(), input_warnings.deep_view()),
                interfaces@,
                results.deep_view(),
                0,
            );
            lemma_collect_addresses_ok(
                (Seq::empty(), Seq::empty(), input_warnings.deep_view()),
                interfaces@,
                results.deep_view(),
                0,
            );
            lemma_refers_back_ok(before);
        }
        if spec_resolve(before, pending, warnings, settings.continue_migration) is Ok {
            let resolved = spec_resolve(
                before,
                pending,
                warnings,
                settings.continue_migration,
            )->Ok_0.0;
            if controllers_ok(before) {
                lemma_resolve_ok(before, pending, warnings, settings.continue_migration);
                lemma_same_uuids_distinct(before, resolved);
            }
            if addresses_ok(before) {
                lemma_resolve_addresses_ok(before, pending, warnings, settings.continue_migration);
                lemma_activation_addresses_ok(resolved, *settings, system_interfaces.deep_view());
            }
            lemma_activation_ok(resolved, *settings, system_interfaces.deep_view());
        }
    }
    let resolved = match resolve_parents(connections, links, gathered_warnings, settings) {
        Ok(x) => x,
        Err(e) => {
            return Err(e);
        },
    };
    let mut connections = resolved.connections;
    correct_activation(&mut connections, settings, system_interfaces);
    match state_of(connections) {
        Ok(network_state) => Ok(NetworkStateResult { network_state, warnings: resolved.warnings }),
        Err(e) => Err(e),
    }
}

/// Whether `result` is a translation of `ifc`, for some choice of uuids.
pub open spec fn is_translation(
    ifc: Interface,
    result: (Seq<ConnectionView>, Seq<WarningView>),
    settings: MigrationSettings,
    netconfig_dhcp: Option<NetconfigDhcp>,
) -> bool {
    exists|port_uuid: u128, uuids: Seq<u128>|
        uuids.len() == ifc.spec_technology_count() && Ok::<
            (Seq<ConnectionView>, Seq<WarningView>),
            FailureView,
        >(result) == #[trigger] ifc.spec_connections(settings, netconfig_dhcp, port_uuid, uuids)
}

/// Whether `results` are translations of `interfaces`, one for each.
pub open spec fn are_translations(
    interfaces: Seq<Interface>,
    results: Seq<(Seq<ConnectionView>, Seq<WarningView>)>,
    settings: MigrationSettings,
    netconfig_dhcp: Option<NetconfigDhcp>,
) -> bool {
    &&& results.len() == interfaces.len()
    &&& forall|i: int|
        0 <= i < interfaces.len() ==> is_translation(
            interfaces[i],
            #[trigger] results[i],
            settings,
            netconfig_dhcp,
        )
}

/// Whether translating one of the first `n` of `interfaces` fails with `e`,
/// for some choice of uuids.
pub open spec fn translation_fails(
    interfaces: Seq<Interface>,
    n: int,
    settings: MigrationSettings,
    netconfig_dhcp: Option<NetconfigDhcp>,
    e: FailureView,
) -> bool {
    exists|i: int, port_uuid: u128, uuids: Seq<u128>|
        0 <= i < n && i < interfaces.len() && uuids.len() == interfaces[i].spec_technology_count()
            && Err::<(Seq<ConnectionView>, Seq<WarningView>), FailureView>(e)
            == #[trigger] interfaces[i].spec_connections(settings, netconfig_dhcp, port_uuid, uuids)
}

/// Whether `outcome` is what translating the interfaces of `input` and
/// putting their connections together can give: the failure of a
/// translation, the failure to draw uuids that differ, or the network
/// state of translations of all interfaces.
pub open spec fn is_networkstate(
    input: InterfacesResult,
    settings: MigrationSettings,
    present: Seq<Seq<char>>,
    outcome: Result<(Seq<ConnectionView>, Seq<WarningView>), FailureView>,
) -> bool {
    outcome == Err::<(Seq<ConnectionView>, Seq<WarningView>), FailureView>(
        FailureView::DuplicateUuid,
    ) || (exists|e: FailureView|
        outcome == Err::<(Seq<ConnectionView>, Seq<WarningView>), FailureView>(e)
            && #[trigger] translation_fails(
            input.interfaces@,
            input.interfaces@.len() as int,
            settings,
            input.netconfig_dhcp,
            e,
        )) || (exists|results: Seq<(Seq<ConnectionView>, Seq<WarningView>)>|
        are_translations(input.interfaces@, results, settings, input.netconfig_dhcp) && outcome
            == #[trigger] spec_networkstate(
            input.interfaces@,
            results,
            input.warnings.deep_view(),
            settings,
            present,
        ))
}

/// Translates all interfaces and puts their connections together.
///
/// Each interface is translated with uuids of its own. Where a translation
/// fails, that is the failure. Else the result is what `spec_networkstate`
/// describes for the translations; uuids that come up twice, within an
/// interface or between two, are a failure. That failure cannot be where
/// no interface gives a connection; without interfaces the state is empty
/// and the warnings are those of reading.
pub fn to_networkstate(
    interface_result: &InterfacesResult,
    settings: &MigrationSettings,
    system_interfaces: &Vec<String>,
) -> (r: Result<NetworkStateResult, Failure>)
    ensures
        is_networkstate(
            *interface_result,
            *settings,
            system_interfaces.deep_view(),
            result_view(r),
        ),
        draws_nothing(interface_result.interfaces@) ==> !is_duplicate(result_view(r)),
        interface_result.interfaces@.len() == 0 ==> result_view(r) == Ok::<_, FailureView>(
            (Seq::<ConnectionView>::empty(), interface_result.warnings.deep_view()),
        ),
        r is Ok ==> sound(r.unwrap().network_state.deep_view()),
{
    let interfaces = &interface_result.interfaces;
    let mut results: Vec<ConnectionResult> = Vec::new();
    let mut i: usize = 0;
    assert(results.deep_view() =~= Seq::empty());
    while i < interfaces.len()
        invariant
            i <= interfaces.len(),
            interfaces == &interface_result.interfaces,
            results@.len() == i,
            are_translations(
                interfaces@.take(i as int),
                results.deep_view(),
                *settings,
                interface_result.netconfig_dhcp,
            ),
            forall|k: int| 0 <= k < i ==> addresses_ok((#[trigger] results.deep_view()[k]).0),
        decreases interfaces.len() - i,
    {
        let ghost before = results.deep_view();
        assert(before.len() == results@.len());
        match interfaces[i].to_connection(settings, &interface_result.netconfig_dhcp) {
            Ok(result) => {
                results.push(result);
                proof {
                    assert(results.deep_view() =~= before.push(result.deep_view()));
                    let now = results.deep_view();
                    let upto = interfaces@.take(i + 1);
                    assert(is_translation(
                        interfaces[i as int],
                        result.deep_view(),
                        *settings,
                        interface_result.netconfig_dhcp,
                    ));
                    assert forall|k: int| 0 <= k < upto.len() implies is_translation(
                        upto[k],
                        #[trigger] now[k],
                        *settings,
                        interface_result.netconfig_dhcp,
                    ) by {
                        if k < i {
                            assert(now[k] == before[k]);
                            assert(upto[k] == interfaces@.take(i as int)[k]);
                        } else {
                            assert(now[k] == result.deep_view());
                            assert(upto[k] == interfaces[i as int]);
                        }
                    }
                }
            },
            Err(e) => {
                proof {
                    if draws_nothing(interfaces@) {
                        assert(interfaces@[i as int].spec_technology_count() == 0);
                    }
                    if e.deep_view() != FailureView::DuplicateUuid {
                        assert(translation_fails(
                            interface_result.interfaces@,
                            interface_result.interfaces@.len() as int,
                            *settings,
                            interface_result.netconfig_dhcp,
                            e.deep_view(),
                        ));
                    }
                }
                return Err(e);
            },
        }
        i = i + 1;
    }
    assert(interfaces@.take(interfaces.len() as int) =~= interfaces@);
    proof {
        let views = results.deep_view();
        assert forall|k: int| 0 <= k < views.len() implies refers_back((#[trigger] views[k]).0)
            && addresses_ok(views[k].0) by {
            assert(is_translation(
                interfaces@[k],
                views[k],
                *settings,
                interface_result.netconfig_dhcp,
            ));
            let (port_uuid, uuids) = choose|port_uuid: u128, uuids: Seq<u128>|
                uuids.len() == interfaces@[k].spec_technology_count() && Ok::<
                    (Seq<ConnectionView>, Seq<WarningView>),
                    FailureView,
                >(views[k]) == #[trigger] interfaces@[k].spec_connections(
                    *settings,
                    interface_result.netconfig_dhcp,
                    port_uuid,
                    uuids,
                );
            lemma_translation_refers_back(
                interfaces@[k],
                *settings,
                interface_result.netconfig_dhcp,
                port_uuid,
                uuids,
            );
        }
    }
    let input_warnings = duplicate_warnings(&interface_result.warnings);
    proof {
        if draws_nothing(interfaces@) {
            lemma_nothing_drawn(
                interfaces@,
                results.deep_view(),
                input_warnings.deep_view(),
                *settings,
                interface_result.netconfig_dhcp,
                system_interfaces.deep_view(),
            );
        }
    }
    assemble_networkstate(interfaces, results, input_warnings, settings, system_interfaces)
}


/// Resolution is idempotent: on connections with no link left pending, a
/// pass changes nothing and warns of nothing, and resolution to the end
/// gives the connections back as they are. So it is for the connections
/// that a resolution has given.
pub proof fn lemma_resolution_idempotent(
    conns: Seq<ConnectionView>,
    pending: Seq<PendingLinkView>,
    warnings: Seq<WarningView>,
    continue_migration: bool,
)
    ensures
        spec_pass(conns, Seq::empty(), continue_migration) == Ok::<
            (Seq<ConnectionView>, Seq<PendingLinkView>, Seq<WarningView>),
            FailureView,
        >((conns, Seq::empty(), Seq::empty())),
        spec_resolve(conns, Seq::empty(), warnings, continue_migration) == Ok::<
            (Seq<ConnectionView>, Seq<WarningView>),
            FailureView,
        >((conns, warnings)),
        spec_resolve(conns, pending, warnings, continue_migration) is Ok ==> spec_resolve(
            spec_resolve(conns, pending, warnings, continue_migration)->Ok_0.0,
            Seq::empty(),
            spec_resolve(conns, pending, warnings, continue_migration)->Ok_0.1,
            continue_migration,
        ) == spec_resolve(conns, pending, warnings, continue_migration),
{
    assert(warnings + Seq::<WarningView>::empty() =~= warnings);
    if spec_resolve(conns, pending, warnings, continue_migration) is Ok {
        let r = spec_resolve(conns, pending, warnings, continue_migration)->Ok_0;
        assert(r.1 + Seq::<WarningView>::empty() =~= r.1);
    }
}

/// A port of a fake open-vswitch bridge is linked to the real bridge, not
/// to its textual parent, and takes over the VLAN tag of the fake bridge.
///
/// `parent` is the connection of the fake bridge, `bridge_port` the port
/// connection that controls it and carries the tag, `bridge_uuid` the real
/// bridge that controls the port.
pub proof fn lemma_fake_bridge_port(
    conns: Seq<ConnectionView>,
    link: PendingLinkView,
    parent: ConnectionView,
    bridge_port: ConnectionView,
    tag: Option<u16>,
    bridge_uuid: u128,
    c: ConnectionView,
)
    requires
        find_interface(conns, link.master) == Some(parent),
        link.port is Some && link.port.unwrap().port_type == LinkPortType::OvsBridge,
        parent.controller is Some,
        find_uuid(conns, parent.controller.unwrap()) == Some(bridge_port),
        bridge_port.config == ConnectionConfigView::OvsPort(OvsPortConfig { tag }),
        bridge_port.controller == Some(bridge_uuid),
        find_uuid(conns, bridge_uuid) is Some,
        bridge_uuid != link.port_uuid,
    ensures
        spec_step(conns, link) == Step::Link(ParentMatch { uuid: bridge_uuid, tag }),
        spec_linked(c, ParentMatch { uuid: bridge_uuid, tag }).controller == Some(bridge_uuid),
        c.config is OvsPort && tag is Some ==> spec_linked(c, ParentMatch { uuid: bridge_uuid, tag }).config
            == ConnectionConfigView::OvsPort(OvsPortConfig { tag }),
{
}

/// The steps of a pass, seen link by link: there is one for each link, and
/// it is the step that the link gives by itself.
pub proof fn lemma_steps_onto(
    conns: Seq<ConnectionView>,
    continue_migration: bool,
    done: Seq<Step>,
    rest: Seq<PendingLinkView>,
)
    requires
        spec_steps_onto(conns, continue_migration, done, rest) is Ok,
    ensures
        ({
            let steps = spec_steps_onto(conns, continue_migration, done, rest)->Ok_0;
            &&& steps.len() == done.len() + rest.len()
            &&& forall|j: int| 0 <= j < done.len() ==> steps[j] == done[j]
            &&& forall|k: int|
                0 <= k < rest.len() ==> spec_checked_step(conns, #[trigger] rest[k], continue_migration)
                    == Ok::<Step, FailureView>(steps[done.len() + k])
        }),
    decreases rest.len(),
{
    if rest.len() > 0 {
        let steps = spec_steps_onto(conns, continue_migration, done, rest)->Ok_0;
        let step = spec_checked_step(conns, rest[0], continue_migration)->Ok_0;
        let tail = rest.drop_first();
        lemma_steps_onto(conns, continue_migration, done.push(step), tail);
        assert forall|k: int| 0 <= k < rest.len() implies spec_checked_step(
            conns,
            #[trigger] rest[k],
            continue_migration,
        ) == Ok::<Step, FailureView>(steps[done.len() + k]) by {
            if k == 0 {
                assert(steps[done.len() as int] == done.push(step)[done.len() as int]);
            } else {
                assert(tail[k - 1] == rest[k]);
            }
        }
    }
}

/// What applying the steps of a pass leaves, seen link by link: what was
/// there stays in front, and a link whose parent is missing stays pending
/// and leaves a warning that names the parent and the connection.
pub proof fn lemma_apply_onto(
    state: (Seq<ConnectionView>, Seq<PendingLinkView>, Seq<WarningView>),
    links: Seq<PendingLinkView>,
    steps: Seq<Step>,
    index: nat,
)
    requires
        steps.len() == links.len(),
    ensures
        ({
            let out = spec_apply_onto(state, links, steps, index);
            &&& out.1.len() >= state.1.len()
            &&& out.2.len() >= state.2.len()
            &&& forall|j: int| 0 <= j < state.1.len() ==> out.1[j] == state.1[j]
            &&& forall|j: int| 0 <= j < state.2.len() ==> out.2[j] == state.2[j]
            &&& forall|k: int|
                index <= k < links.len() && #[trigger] steps[k] == Step::MissingParent ==> out.1.contains(
                    links[k],
                ) && out.2.contains(
                    WarningView::MissingParent { parent: links[k].master, port: links[k].port_id },
                )
        }),
    decreases links.len() - index,
{
    if index < links.len() {
        let link = links[index as int];
        let next = match steps[index as int] {
            Step::MissingParent => (
                state.0,
                state.1.push(link),
                state.2.push(WarningView::MissingParent { parent: link.master, port: link.port_id }),
            ),
            Step::Drop => state,
            Step::Keep => (state.0, state.1.push(link), state.2),
            Step::Link(m) => (spec_link_first(state.0, link.port_uuid, m), state.1, state.2),
        };
        lemma_apply_onto(next, links, steps, index + 1);
        let out = spec_apply_onto(state, links, steps, index);
        assert forall|k: int|
            index <= k < links.len() && #[trigger] steps[k] == Step::MissingParent implies out.1.contains(
            links[k],
        ) && out.2.contains(
            WarningView::MissingParent { parent: links[k].master, port: links[k].port_id },
        ) by {
            if k == index {
                assert(out.1[state.1.len() as int] == next.1[state.1.len() as int]);
                assert(out.2[state.2.len() as int] == next.2[state.2.len() as int]);
            }
        }
    }
}

/// A link whose parent is an interface that none of the connections has.
///
/// Where the caller does not continue on warnings, the pass fails; if the
/// link is the first one, with the failure that names the parent and the
/// connection, and so does resolution as a whole. Where the caller
/// continues, a pass that goes through keeps the link pending and leaves a
/// warning that names the parent and the connection.
pub proof fn lemma_missing_parent(
    conns: Seq<ConnectionView>,
    pending: Seq<PendingLinkView>,
    warnings: Seq<WarningView>,
    k: int,
    continue_migration: bool,
)
    requires
        0 <= k < pending.len(),
        find_interface(conns, pending[k].master) is None,
    ensures
        !continue_migration ==> spec_pass(conns, pending, continue_migration) is Err && spec_resolve(
            conns,
            pending,
            warnings,
            continue_migration,
        ) is Err,
        !continue_migration && k == 0 ==> spec_resolve(conns, pending, warnings, continue_migration)
            == Err::<(Seq<ConnectionView>, Seq<WarningView>), FailureView>(
            FailureView::MissingParent { parent: pending[0].master, port: pending[0].port_id },
        ),
        continue_migration && spec_pass(conns, pending, continue_migration) is Ok ==> ({
            let pass = spec_pass(conns, pending, continue_migration)->Ok_0;
            pass.1.contains(pending[k]) && pass.2.contains(
                WarningView::MissingParent { parent: pending[k].master, port: pending[k].port_id },
            )
        }),
{
    if spec_steps(conns, continue_migration, pending) is Ok {
        let steps = spec_steps(conns, continue_migration, pending)->Ok_0;
        lemma_steps_onto(conns, continue_migration, Seq::empty(), pending);
        assert(spec_checked_step(conns, pending[k], continue_migration) == Ok::<Step, FailureView>(
            steps[k],
        ));
        assert(steps[k] == Step::MissingParent);
        lemma_apply_onto((conns, Seq::empty(), Seq::empty()), pending, steps, 0);
    }
}

} // verus!
