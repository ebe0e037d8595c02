//! How many passes resolution takes, and what it gives for the ports of a
//! fake open-vswitch bridge: one pass links the port of the fake bridge to
//! the real bridge, a second one links the ports of the fake bridge.

use vstd::prelude::*;
use crate::interface::LinkPortType;
use crate::migrate::{
    find_interface, find_uuid, lemma_steps_onto, spec_apply_onto, spec_checked_step,
    spec_link_first, spec_linked, spec_pass, spec_resolve, spec_steps, ParentMatch,
    PendingLinkView, Step,
};
use crate::model::{ConnectionConfigView, ConnectionView, OvsPortConfig};
use crate::report::{FailureView, WarningView};
use crate::topology::{
    distinct_ports, lemma_link_first_find_uuid, lemma_steps_all,
};

verus! {

/// The number of passes that resolution makes.
pub open spec fn spec_passes(
    conns: Seq<ConnectionView>,
    pending: Seq<PendingLinkView>,
    continue_migration: bool,
) -> nat
    decreases pending.len(),
{
    match spec_pass(conns, pending, continue_migration) {
        Err(e) => 1,
        Ok((c, p, w)) => if p.len() == 0 || p.len() >= pending.len() {
            1
        } else {
            1 + spec_passes(c, p, continue_migration)
        },
    }
}

/// The links from `index` on that a pass leaves pending: those that cannot
/// be followed yet and those whose parent is missing.
pub open spec fn spec_kept(links: Seq<PendingLinkView>, steps: Seq<Step>, index: nat) -> Seq<
    PendingLinkView,
>
    decreases links.len() - index,
{
    if index >= links.len() {
        Seq::empty()
    } else if steps[index as int] is Keep || steps[index as int] is MissingParent {
        seq![links[index as int]] + spec_kept(links, steps, index + 1)
    } else {
        spec_kept(links, steps, index + 1)
    }
}

/// Whether `link` is one of the links from `index` on, with a step that
/// keeps it.
pub open spec fn is_kept_from(
    links: Seq<PendingLinkView>,
    steps: Seq<Step>,
    index: nat,
    link: PendingLinkView,
) -> bool {
    exists|k: int|
        index <= k < links.len() && #[trigger] links[k] == link && (steps[k] is Keep
            || steps[k] is MissingParent)
}

/// What a pass leaves pending are the links that it keeps, behind those
/// that were kept before.
pub proof fn lemma_apply_onto_kept(
    state: (Seq<ConnectionView>, Seq<PendingLinkView>, Seq<WarningView>),
    links: Seq<PendingLinkView>,
    steps: Seq<Step>,
    index: nat,
)
    ensures
        spec_apply_onto(state, links, steps, index).1 == state.1 + spec_kept(links, steps, index),
        (forall|k: int| index <= k < links.len() ==> !((#[trigger] steps[k]) is MissingParent))
            ==> spec_apply_onto(state, links, steps, index).2 == state.2,
    decreases links.len() - index,
{
    if index < links.len() {
        let link = links[index as int];
        let next = match steps[index as int] {
            Step::MissingParent => (
                state.0,
                state.1.push(link),
                state.2.push(WarningView::MissingParent { parent: link.master, port: link.port_id }),
            ),
            Step::Drop => state,
            Step::Keep => (state.0, state.1.push(link), state.2),
            Step::Link(m) => (spec_link_first(state.0, link.port_uuid, m), state.1, state.2),
        };
        lemma_apply_onto_kept(next, links, steps, index + 1);
        assert(next.1 + spec_kept(links, steps, index + 1) =~= state.1 + spec_kept(
            links,
            steps,
            index,
        ));
    } else {
        assert(state.1 + spec_kept(links, steps, index) =~= state.1);
    }
}

/// Of the links that a pass keeps: each is one of the links from `index`
/// on, with a step that keeps it; they are no more than those links, and
/// fewer where one of those is resolved or dropped; and no two belong to
/// the same connection where this holds of the links.
pub proof fn lemma_kept(links: Seq<PendingLinkView>, steps: Seq<Step>, index: nat)
    requires
        steps.len() == links.len(),
        index <= links.len(),
    ensures
        forall|x: int|
            0 <= x < spec_kept(links, steps, index).len() ==> is_kept_from(
                links,
                steps,
                index,
                #[trigger] spec_kept(links, steps, index)[x],
            ),
        spec_kept(links, steps, index).len() <= links.len() - index,
        (exists|k: int| index <= k < links.len() && ((#[trigger] steps[k]) is Link || steps[k] is Drop))
            ==> spec_kept(links, steps, index).len() < links.len() - index,
        (forall|k: int| index <= k < links.len() ==> (#[trigger] steps[k]) is Link || steps[k] is Drop)
            ==> spec_kept(links, steps, index).len() == 0,
        distinct_ports(links) ==> distinct_ports(spec_kept(links, steps, index)),
        forall|k: int|
            index <= k < links.len() && ((#[trigger] steps[k]) is Keep || steps[k] is MissingParent)
                ==> spec_kept(links, steps, index).contains(links[k]),
    decreases links.len() - index,
{
    if index < links.len() {
        lemma_kept(links, steps, index + 1);
        let out = spec_kept(links, steps, index);
        let tail = spec_kept(links, steps, index + 1);
        let keeps = steps[index as int] is Keep || steps[index as int] is MissingParent;
        assert forall|x: int| 0 <= x < out.len() implies is_kept_from(
            links,
            steps,
            index,
            #[trigger] out[x],
        ) by {
            if keeps && x == 0 {
                assert(links[index as int] == out[0]);
            } else {
                let y = if keeps {
                    x - 1
                } else {
                    x
                };
                assert(out[x] == tail[y]);
                assert(is_kept_from(links, steps, index + 1, tail[y]));
                let k = choose|k: int|
                    index + 1 <= k < links.len() && #[trigger] links[k] == tail[y] && (steps[k] is Keep
                        || steps[k] is MissingParent);
                assert(links[k] == out[x]);
            }
        }
        if exists|k: int| index <= k < links.len() && ((#[trigger] steps[k]) is Link || steps[k] is Drop) {
            let k = choose|k: int|
                index <= k < links.len() && ((#[trigger] steps[k]) is Link || steps[k] is Drop);
            if k > index {
                assert(steps[k] is Link || steps[k] is Drop);
            }
        }
        assert forall|k: int|
            index <= k < links.len() && ((#[trigger] steps[k]) is Keep || steps[k] is MissingParent)
            implies out.contains(links[k]) by {
            if k == index {
                assert(out[0] == links[k]);
            } else {
                assert(tail.contains(links[k]));
                let y = choose|y: int| 0 <= y < tail.len() && tail[y] == links[k];
                let x = if keeps {
                    y + 1
                } else {
                    y
                };
                assert(out[x] == links[k]);
            }
        }
        if distinct_ports(links) {
            assert forall|x: int, y: int| 0 <= x < y < out.len() implies (#[trigger] out[x]).port_uuid != (
            #[trigger] out[y]).port_uuid by {
                let shift = if keeps {
                    1int
                } else {
                    0int
                };
                assert(out[y] == tail[y - shift]);
                assert(is_kept_from(links, steps, index + 1, tail[y - shift]));
                let ky = choose|k: int|
                    index + 1 <= k < links.len() && #[trigger] links[k] == tail[y - shift] && (
                    steps[k] is Keep || steps[k] is MissingParent);
                if keeps && x == 0 {
                    assert(out[0] == links[index as int]);
                    assert(links[ky].port_uuid != links[index as int].port_uuid);
                } else {
                    assert(out[x] == tail[x - shift]);
                }
            }
        }
    } else {
        assert(spec_kept(links, steps, index) =~= Seq::empty());
    }
}

/// Linking leaves a connection that is found by its interface as it is,
/// where it is no connection of the uuid that is linked.
pub proof fn lemma_link_first_leaves_interface(
    conns: Seq<ConnectionView>,
    uuid: u128,
    m: ParentMatch,
    name: Seq<char>,
)
    requires
        find_interface(conns, name) is Some,
        find_interface(conns, name).unwrap().uuid != uuid,
    ensures
        find_interface(spec_link_first(conns, uuid, m), name) == find_interface(conns, name),
    decreases conns.len(),
{
    if conns.len() > 0 {
        let once = spec_link_first(conns, uuid, m);
        let rest = conns.drop_first();
        if conns[0].uuid == uuid {
            assert(once[0] == spec_linked(conns[0], m));
            assert(once.drop_first() =~= rest);
        } else {
            assert(once[0] == conns[0]);
            assert(once.drop_first() =~= spec_link_first(rest, uuid, m));
            if conns[0].interface != Some(name) {
                lemma_link_first_leaves_interface(rest, uuid, m, name);
            }
        }
    }
}

/// What applying the steps of a pass does to what is found.
///
/// A connection of a uuid that no resolved link belongs to is found as
/// before, and so is a connection by its interface whose uuid no resolved
/// link belongs to. The connection of the uuid of a resolved link is found
/// in its linked form, where no two links belong to the same connection.
pub proof fn lemma_apply_onto_finds(
    state: (Seq<ConnectionView>, Seq<PendingLinkView>, Seq<WarningView>),
    links: Seq<PendingLinkView>,
    steps: Seq<Step>,
    index: nat,
    uuid: u128,
    name: Seq<char>,
)
    requires
        steps.len() == links.len(),
    ensures
        (forall|k: int|
            index <= k < links.len() && (#[trigger] steps[k]) is Link ==> links[k].port_uuid != uuid)
            ==> find_uuid(spec_apply_onto(state, links, steps, index).0, uuid) == find_uuid(
            state.0,
            uuid,
        ),
        find_interface(state.0, name) is Some && (forall|k: int|
            index <= k < links.len() && (#[trigger] steps[k]) is Link ==> links[k].port_uuid
                != find_interface(state.0, name).unwrap().uuid) ==> find_interface(
            spec_apply_onto(state, links, steps, index).0,
            name,
        ) == find_interface(state.0, name),
        forall|k: int|
            distinct_ports(links) && index <= k < links.len() && (#[trigger] steps[k]) is Link
                && links[k].port_uuid == uuid ==> find_uuid(
                spec_apply_onto(state, links, steps, index).0,
                uuid,
            ) == match find_uuid(state.0, uuid) {
                Some(c) => Some(spec_linked(c, steps[k]->Link_0)),
                None => None,
            },
    decreases links.len() - index,
{
    if index < links.len() {
        let link = links[index as int];
        let next = match steps[index as int] {
            Step::MissingParent => (
                state.0,
                state.1.push(link),
                state.2.push(WarningView::MissingParent { parent: link.master, port: link.port_id }),
            ),
            Step::Drop => state,
            Step::Keep => (state.0, state.1.push(link), state.2),
            Step::Link(m) => (spec_link_first(state.0, link.port_uuid, m), state.1, state.2),
        };
        lemma_apply_onto_finds(next, links, steps, index + 1, uuid, name);
        let out = spec_apply_onto(state, links, steps, index).0;
        match steps[index as int] {
            Step::Link(m) => {
                lemma_link_first_find_uuid(state.0, link.port_uuid, m, uuid);
                if find_interface(state.0, name) is Some && find_interface(
                    state.0,
                    name,
                ).unwrap().uuid != link.port_uuid {
                    lemma_link_first_leaves_interface(state.0, link.port_uuid, m, name);
                }
            },
            _ => {},
        }
        assert forall|k: int|
            distinct_ports(links) && index <= k < links.len() && (#[trigger] steps[k]) is Link
                && links[k].port_uuid == uuid implies find_uuid(out, uuid) == match find_uuid(
            state.0,
            uuid,
        ) {
            Some(c) => Some(spec_linked(c, steps[k]->Link_0)),
            None => None,
        } by {
            if k == index {
                assert forall|x: int|
                    index + 1 <= x < links.len() && (#[trigger] steps[x]) is Link implies links[x].port_uuid
                    != uuid by {
                    assert(links[x].port_uuid != links[k].port_uuid);
                }
            } else {
                assert(links[index as int].port_uuid != links[k].port_uuid);
            }
        }
    }
}

/// Where every pending link resolves or names only a parent, one pass
/// ends resolution.
pub proof fn lemma_one_pass(
    conns: Seq<ConnectionView>,
    pending: Seq<PendingLinkView>,
    warnings: Seq<WarningView>,
    continue_migration: bool,
)
    requires
        forall|k: int|
            0 <= k < pending.len() ==> match spec_checked_step(
                conns,
                #[trigger] pending[k],
                continue_migration,
            ) {
                Ok(Step::Link(m)) => true,
                Ok(Step::Drop) => true,
                _ => false,
            },
    ensures
        spec_steps(conns, continue_migration, pending) is Ok,
        spec_resolve(conns, pending, warnings, continue_migration) == Ok::<_, FailureView>(
            (
                spec_apply_onto(
                    (conns, Seq::empty(), Seq::empty()),
                    pending,
                    spec_steps(conns, continue_migration, pending)->Ok_0,
                    0,
                ).0,
                warnings,
            ),
        ),
        spec_passes(conns, pending, continue_migration) == 1,
{
    lemma_steps_all(conns, continue_migration, Seq::empty(), pending);
    lemma_steps_onto(conns, continue_migration, Seq::empty(), pending);
    let steps = spec_steps(conns, continue_migration, pending)->Ok_0;
    let state = (conns, Seq::<PendingLinkView>::empty(), Seq::<WarningView>::empty());
    assert forall|k: int| 0 <= k < pending.len() implies (#[trigger] steps[k]) is Link
        || steps[k] is Drop by {
        assert(spec_checked_step(conns, pending[k], continue_migration) == Ok::<Step, FailureView>(
            steps[0 + k],
        ));
    }
    lemma_apply_onto_kept(state, pending, steps, 0);
    lemma_kept(pending, steps, 0);
    let out = spec_apply_onto(state, pending, steps, 0);
    assert(out.1 =~= Seq::empty());
    assert(out.2 =~= Seq::empty());
    assert(warnings + out.2 =~= warnings);
}

/// Whether `link` is the link of an open-vswitch port below `parent`.
pub open spec fn is_ovs_link(link: PendingLinkView, parent: Seq<char>) -> bool {
    link.master == parent && match link.port {
        Some(port) => port.port_type == LinkPortType::OvsBridge,
        None => false,
    }
}

/// A fake bridge on a real one, before resolution.
///
/// The interface `real_name` of the real bridge is controlled by the port
/// `real_port`, which the real bridge `bridge` controls. The interface
/// `fake_name` of the fake bridge is controlled by the port `fake_port`,
/// which carries the tag `tag` and has no controller yet: its link, which
/// is pending, names `real_name`. Every other pending link is that of a
/// port below `fake_name`.
pub open spec fn fake_bridge_batch(
    conns: Seq<ConnectionView>,
    pending: Seq<PendingLinkView>,
    real_name: Seq<char>,
    fake_name: Seq<char>,
    bridge: u128,
    real_port: u128,
    fake_port: u128,
    tag: u16,
) -> bool {
    &&& distinct_ports(pending)
    &&& bridge != fake_port
    &&& find_uuid(conns, bridge) is Some
    &&& match find_interface(conns, real_name) {
        Some(c) => c.controller == Some(real_port),
        None => false,
    }
    &&& match find_uuid(conns, real_port) {
        Some(c) => c.controller == Some(bridge) && c.config == ConnectionConfigView::OvsPort(
            OvsPortConfig { tag: None },
        ),
        None => false,
    }
    &&& match find_interface(conns, fake_name) {
        Some(c) => c.controller == Some(fake_port) && c.uuid != fake_port,
        None => false,
    }
    &&& match find_uuid(conns, fake_port) {
        Some(c) => c.controller is None && c.config == ConnectionConfigView::OvsPort(
            OvsPortConfig { tag: Some(tag) },
        ),
        None => false,
    }
    &&& exists|k: int| 0 <= k < pending.len() && (#[trigger] pending[k]).port_uuid == fake_port
    &&& forall|k: int|
        0 <= k < pending.len() ==> if (#[trigger] pending[k]).port_uuid == fake_port {
            is_ovs_link(pending[k], real_name)
        } else {
            &&& is_ovs_link(pending[k], fake_name)
            &&& pending[k].port_uuid != bridge
            &&& find_uuid(conns, pending[k].port_uuid) is Some
        }
}

/// Whether the connection of the uuid `uuid` is controlled by `bridge`
/// and, where it is an open-vswitch port, carries the tag `tag`.
pub open spec fn on_bridge(conns: Seq<ConnectionView>, uuid: u128, bridge: u128, tag: u16) -> bool {
    match find_uuid(conns, uuid) {
        Some(c) => c.controller == Some(bridge) && (c.config is OvsPort ==> c.config
            == ConnectionConfigView::OvsPort(OvsPortConfig { tag: Some(tag) })),
        None => false,
    }
}

/// The first pass over a fake bridge on a real one: the port of the fake
/// bridge is linked to the real bridge and keeps its tag, everything else
/// is found as before, and the links of the other ports stay pending.
pub proof fn lemma_fake_bridge_first_pass(
    conns: Seq<ConnectionView>,
    pending: Seq<PendingLinkView>,
    real_name: Seq<char>,
    fake_name: Seq<char>,
    bridge: u128,
    real_port: u128,
    fake_port: u128,
    tag: u16,
    continue_migration: bool,
)
    requires
        fake_bridge_batch(conns, pending, real_name, fake_name, bridge, real_port, fake_port, tag),
    ensures
        spec_pass(conns, pending, continue_migration) is Ok,
        ({
            let (after, kept, warnings) = spec_pass(conns, pending, continue_migration)->Ok_0;
            &&& warnings.len() == 0
            &&& kept.len() < pending.len()
            &&& distinct_ports(kept)
            &&& on_bridge(after, fake_port, bridge, tag)
            &&& find_uuid(after, fake_port).unwrap().config is OvsPort
            &&& find_uuid(after, bridge) is Some
            &&& find_interface(after, fake_name) == find_interface(conns, fake_name)
            &&& forall|x: int|
                0 <= x < kept.len() ==> {
                    &&& is_ovs_link(#[trigger] kept[x], fake_name)
                    &&& kept[x].port_uuid != fake_port
                    &&& kept[x].port_uuid != bridge
                    &&& find_uuid(after, kept[x].port_uuid) is Some
                }
            &&& forall|k: int|
                0 <= k < pending.len() && (#[trigger] pending[k]).port_uuid != fake_port
                    ==> kept.contains(pending[k])
        }),
{
    let plain = ParentMatch { uuid: bridge, tag: None };
    assert forall|k: int| 0 <= k < pending.len() implies spec_checked_step(
        conns,
        #[trigger] pending[k],
        continue_migration,
    ) == Ok::<Step, FailureView>(
        if pending[k].port_uuid == fake_port {
            Step::Link(plain)
        } else {
            Step::Keep
        },
    ) by {}
    lemma_steps_all(conns, continue_migration, Seq::empty(), pending);
    lemma_steps_onto(conns, continue_migration, Seq::empty(), pending);
    let steps = spec_steps(conns, continue_migration, pending)->Ok_0;
    assert forall|k: int| 0 <= k < pending.len() implies (#[trigger] steps[k]) == if pending[k].port_uuid
        == fake_port {
        Step::Link(plain)
    } else {
        Step::Keep
    } by {
        assert(spec_checked_step(conns, pending[k], continue_migration) == Ok::<Step, FailureView>(
            steps[0 + k],
        ));
    }
    let state = (conns, Seq::<PendingLinkView>::empty(), Seq::<WarningView>::empty());
    let out = spec_apply_onto(state, pending, steps, 0);
    lemma_apply_onto_kept(state, pending, steps, 0);
    lemma_kept(pending, steps, 0);
    let kept = spec_kept(pending, steps, 0);
    assert(out.1 =~= kept);
    let first = choose|k: int| 0 <= k < pending.len() && (#[trigger] pending[k]).port_uuid == fake_port;
    assert(steps[first] is Link);
    lemma_apply_onto_finds(state, pending, steps, 0, fake_port, fake_name);
    lemma_apply_onto_finds(state, pending, steps, 0, bridge, fake_name);
    assert forall|x: int| 0 <= x < kept.len() implies {
        &&& is_ovs_link(#[trigger] kept[x], fake_name)
        &&& kept[x].port_uuid != fake_port
        &&& kept[x].port_uuid != bridge
        &&& find_uuid(out.0, kept[x].port_uuid) is Some
    } by {
        assert(is_kept_from(pending, steps, 0, kept[x]));
        let k = choose|k: int|
            0 <= k < pending.len() && #[trigger] pending[k] == kept[x] && (steps[k] is Keep
                || steps[k] is MissingParent);
        lemma_apply_onto_finds(state, pending, steps, 0, kept[x].port_uuid, fake_name);
    }
    assert forall|k: int|
        0 <= k < pending.len() && (#[trigger] pending[k]).port_uuid != fake_port implies kept.contains(
        pending[k],
    ) by {
        assert(steps[k] is Keep);
    }
}

/// A fake bridge on a real one is resolved in at most two passes, without
/// a warning: the port of the fake bridge and every port below the fake
/// bridge end up controlled by the real bridge, and each open-vswitch port
/// among them carries the tag of the fake bridge.
pub proof fn lemma_fake_bridge_two_passes(
    conns: Seq<ConnectionView>,
    pending: Seq<PendingLinkView>,
    warnings: Seq<WarningView>,
    real_name: Seq<char>,
    fake_name: Seq<char>,
    bridge: u128,
    real_port: u128,
    fake_port: u128,
    tag: u16,
    continue_migration: bool,
)
    requires
        fake_bridge_batch(conns, pending, real_name, fake_name, bridge, real_port, fake_port, tag),
    ensures
        spec_passes(conns, pending, continue_migration) <= 2,
        spec_resolve(conns, pending, warnings, continue_migration) is Ok,
        spec_resolve(conns, pending, warnings, continue_migration)->Ok_0.1 == warnings,
        forall|k: int|
            0 <= k < pending.len() ==> on_bridge(
                spec_resolve(conns, pending, warnings, continue_migration)->Ok_0.0,
                (#[trigger] pending[k]).port_uuid,
                bridge,
                tag,
            ),
{
    lemma_fake_bridge_first_pass(
        conns,
        pending,
        real_name,
        fake_name,
        bridge,
        real_port,
        fake_port,
        tag,
        continue_migration,
    );
    let (after, kept, first_warnings) = spec_pass(conns, pending, continue_migration)->Ok_0;
    assert(warnings + first_warnings =~= warnings);
    let tagged = ParentMatch { uuid: bridge, tag: Some(tag) };
    assert forall|x: int| 0 <= x < kept.len() implies spec_checked_step(
        after,
        #[trigger] kept[x],
        continue_migration,
    ) == Ok::<Step, FailureView>(Step::Link(tagged)) by {}
    lemma_one_pass(after, kept, warnings, continue_migration);
    lemma_steps_onto(after, continue_migration, Seq::empty(), kept);
    let steps = spec_steps(after, continue_migration, kept)->Ok_0;
    let state = (after, Seq::<PendingLinkView>::empty(), Seq::<WarningView>::empty());
    let last = spec_apply_onto(state, kept, steps, 0).0;
    assert forall|x: int| 0 <= x < kept.len() implies (#[trigger] steps[x]) == Step::Link(tagged) by {
        assert(spec_checked_step(after, kept[x], continue_migration) == Ok::<Step, FailureView>(
            steps[0 + x],
        ));
    }
    let out = spec_resolve(conns, pending, warnings, continue_migration)->Ok_0.0;
    if kept.len() == 0 {
        assert(out == after);
        assert forall|k: int| 0 <= k < pending.len() implies on_bridge(
            out,
            (#[trigger] pending[k]).port_uuid,
            bridge,
            tag,
        ) by {
            if pending[k].port_uuid != fake_port {
                assert(kept.contains(pending[k]));
            }
        }
    } else {
        assert(out == last);
        lemma_apply_onto_finds(state, kept, steps, 0, fake_port, fake_name);
        assert forall|k: int| 0 <= k < pending.len() implies on_bridge(
            out,
            (#[trigger] pending[k]).port_uuid,
            bridge,
            tag,
        ) by {
            if pending[k].port_uuid != fake_port {
                assert(kept.contains(pending[k]));
                let x = choose|x: int| 0 <= x < kept.len() && kept[x] == pending[k];
                assert(steps[x] == Step::Link(tagged));
                lemma_apply_onto_finds(state, kept, steps, 0, kept[x].port_uuid, fake_name);
            }
        }
    }
}

} // verus!
