//! The set of connections that is handed to the target system.

use vstd::prelude::*;
use crate::model::{Connection, ConnectionView};
use crate::report::Failure;
use crate::text::str_eq;

verus! {

/// The connections of a network configuration. Connections are added
/// through `add_connection`, which keeps their ids unique.
#[derive(Clone, Debug, PartialEq, Eq)]
pub struct NetworkState {
    pub connections: Vec<Connection>,
}

impl DeepView for NetworkState {
    type V = Seq<ConnectionView>;

    open spec fn deep_view(&self) -> Seq<ConnectionView> {
        self.connections.deep_view()
    }
}

/// The position of the first connection with the id `id`.
pub open spec fn index_of_id(conns: Seq<ConnectionView>, id: Seq<char>) -> Option<int> {
    if exists|i: int| is_first_with_id(conns, id, i) {
        Some(choose|i: int| is_first_with_id(conns, id, i))
    } else {
        None
    }
}

/// Whether `i` is the position of the first connection with the id `id`.
pub open spec fn is_first_with_id(conns: Seq<ConnectionView>, id: Seq<char>, i: int) -> bool {
    &&& 0 <= i < conns.len()
    &&& conns[i].id == id
    &&& forall|j: int| 0 <= j < i ==> (#[trigger] conns[j]).id != id
}

/// No two connections have the same id.
pub open spec fn unique_ids(conns: Seq<ConnectionView>) -> bool {
    forall|i: int, j: int|
        0 <= i < j < conns.len() ==> (#[trigger] conns[i]).id != (#[trigger] conns[j]).id
}

impl NetworkState {
    /// No two connections have the same id.
    pub open spec fn wf(&self) -> bool {
        unique_ids(self.deep_view())
    }

    /// The position of the first connection with the id `id`.
    pub fn position(&self, id: &str) -> (r: Option<usize>)
        ensures
            match r {
                Some(i) => index_of_id(self.deep_view(), id@) == Some(i as int) && i
                    < self.connections@.len(),
                None => index_of_id(self.deep_view(), id@) is None,
            },
    {
        let mut i: usize = 0;
        while i < self.connections.len()
            invariant
                i <= self.connections.len(),
                forall|j: int| 0 <= j < i ==> (#[trigger] self.deep_view()[j]).id != id@,
            decreases self.connections.len() - i,
        {
            assert(self.deep_view().len() == self.connections@.len());
            assert(self.deep_view()[i as int] == self.connections[i as int].deep_view());
            if str_eq(self.connections[i].id.as_str(), id) {
                assert(is_first_with_id(self.deep_view(), id@, i as int));
                return Some(i);
            }
            i = i + 1;
        }
        assert(self.deep_view().len() == self.connections@.len());
        None
    }

    /// The first connection with the id `id`.
    pub fn get_connection(&self, id: &str) -> (r: Option<&Connection>)
        ensures
            r.deep_view() == match index_of_id(self.deep_view(), id@) {
                Some(i) => Some(self.deep_view()[i]),
                None => None,
            },
    {
        match self.position(id) {
            Some(i) => {
                assert(self.deep_view().len() == self.connections@.len());
                assert(self.deep_view()[i as int] == self.connections[i as int].deep_view());
                Some(&self.connections[i])
            },
            None => None,
        }
    }

    /// Adds a connection, unless one with its id is there already.
    pub fn add_connection(&mut self, conn: Connection) -> (r: Result<(), Failure>)
        ensures
            index_of_id(old(self).deep_view(), conn.id@) is None ==> r is Ok && final(self).deep_view()
                == old(self).deep_view().push(conn.deep_view()),
            index_of_id(old(self).deep_view(), conn.id@) is Some ==> r == Err::<(), Failure>(
                Failure::ConnectionExists,
            ) && final(self).deep_view() == old(self).deep_view(),
            old(self).wf() ==> final(self).wf(),
    {
        match self.position(conn.id.as_str()) {
            Some(_) => Err(Failure::ConnectionExists),
            None => {
                let ghost before = self.deep_view();
                assert(before.len() == self.connections@.len());
                self.connections.push(conn);
                assert(self.deep_view() =~= before.push(conn.deep_view()));
                proof {
                    if unique_ids(before) {
                        assert forall|i: int, j: int| 0 <= i < j < self.deep_view().len() implies (
                        #[trigger] self.deep_view()[i]).id != (#[trigger] self.deep_view()[j]).id by {
                            if j == before.len() {
                                assert(before[i].id != conn.id@) by {
                                    if before[i].id == conn.id@ {
                                        lemma_first_exists(before, conn.id@, i);
                                    }
                                }
                            } else {
                                assert(self.deep_view()[i] == before[i]);
                                assert(self.deep_view()[j] == before[j]);
                            }
                        }
                    }
                }
                Ok(())
            },
        }
    }
}

/// Where a connection has the id, there is a first one that has it.
pub proof fn lemma_first_exists(conns: Seq<ConnectionView>, id: Seq<char>, i: int)
    requires
        0 <= i < conns.len(),
        conns[i].id == id,
    ensures
        index_of_id(conns, id) is Some,
    decreases i,
{
    if forall|j: int| 0 <= j < i ==> (#[trigger] conns[j]).id != id {
        assert(is_first_with_id(conns, id, i));
    } else {
        let j = choose|j: int| 0 <= j < i && (#[trigger] conns[j]).id == id;
        lemma_first_exists(conns, id, j);
    }
}

impl Default for NetworkState {
    /// No connections.
    fn default() -> (r: Self)
        ensures
            r.deep_view() == Seq::<ConnectionView>::empty(),
            r.wf(),
    {
        let r = NetworkState { connections: Vec::new() };
        assert(r.deep_view() =~= Seq::empty());
        r
    }
}

} // verus!
