//! The connections of the scout agents by their machines.

use vstd::prelude::*;

use crate::time::SystemTime;
use crate::wire::MachineId;

verus! {

/// An active connection to a scout agent: its machine, when it was made, and
/// the channel that reaches the agent.
pub struct AgentConnection<C> {
    pub machine_id: MachineId,
    pub connected_at: SystemTime,
    pub channel: C,
}

/// A connection without its machine.
pub struct ConnectionView<C> {
    pub connected_at: SystemTime,
    pub channel: C,
}

/// A list of connections, one for each machine.
pub struct Connections<C> {
    connections: Vec<AgentConnection<C>>,
}

/// Whether a list holds a connection of a machine.
pub open spec fn lists_machine<C>(connections: Seq<AgentConnection<C>>, id: Seq<char>) -> bool {
    exists|i: int| 0 <= i < connections.len() && (#[trigger] connections[i]).machine_id@ == id
}

/// The place of a machine's connection in a list.
pub open spec fn machine_place<C>(connections: Seq<AgentConnection<C>>, id: Seq<char>) -> int {
    choose|i: int| 0 <= i < connections.len() && (#[trigger] connections[i]).machine_id@ == id
}

/// The connections of a list by their machines.
pub open spec fn connection_map<C>(connections: Seq<AgentConnection<C>>) -> Map<
    Seq<char>,
    ConnectionView<C>,
> {
    Map::new(
        |id: Seq<char>| lists_machine(connections, id),
        |id: Seq<char>|
            {
                let c = connections[machine_place(connections, id)];
                ConnectionView { connected_at: c.connected_at, channel: c.channel }
            },
    )
}

/// That no machine has two connections in a list.
pub open spec fn machines_differ<C>(connections: Seq<AgentConnection<C>>) -> bool {
    forall|i: int, j: int|
        #![trigger connections[i], connections[j]]
        0 <= i < j < connections.len() ==> connections[i].machine_id@ != connections[j].machine_id@
}

impl<C> View for Connections<C> {
    type V = Map<Seq<char>, ConnectionView<C>>;

    closed spec fn view(&self) -> Map<Seq<char>, ConnectionView<C>> {
        connection_map(self.connections@)
    }
}

/// In a list without two connections of one machine, a machine stands where
/// it is found.
proof fn lemma_place<C>(connections: Seq<AgentConnection<C>>, i: int)
    requires
        machines_differ(connections),
        0 <= i < connections.len(),
    ensures
        lists_machine(connections, connections[i].machine_id@),
        machine_place(connections, connections[i].machine_id@) == i,
{
    let p = machine_place(connections, connections[i].machine_id@);
    assert(connections[p].machine_id@ == connections[i].machine_id@);
}

/// A list in which one machine's connection was replaced, or added at the
/// end where it had none, has that connection and otherwise the same ones.
proof fn lemma_stored<C>(
    before: Seq<AgentConnection<C>>,
    after: Seq<AgentConnection<C>>,
    connection: AgentConnection<C>,
)
    requires
        machines_differ(before),
        after == if lists_machine(before, connection.machine_id@) {
            before.update(machine_place(before, connection.machine_id@), connection)
        } else {
            before.push(connection)
        },
    ensures
        machines_differ(after),
        connection_map(after) == connection_map(before).insert(
            connection.machine_id@,
            ConnectionView { connected_at: connection.connected_at, channel: connection.channel },
        ),
{
    let id0 = connection.machine_id@;
    let p = if lists_machine(before, id0) {
        machine_place(before, id0)
    } else {
        before.len() as int
    };
    if lists_machine(before, id0) {
        assert(before[p].machine_id@ == id0);
    }
    assert(after[p] == connection);
    assert forall|i: int, j: int|
        #![trigger after[i], after[j]]
        0 <= i < j < after.len() implies after[i].machine_id@ != after[j].machine_id@ by {
        if i == p {
            assert(after[j] == before[j]);
        } else if j == p {
            assert(after[i] == before[i]);
        } else {
            assert(after[i] == before[i] && after[j] == before[j]);
        }
    }
    let expected = connection_map(before).insert(
        id0,
        ConnectionView { connected_at: connection.connected_at, channel: connection.channel },
    );
    lemma_place(after, p);
    assert forall|id: Seq<char>| #[trigger]
        connection_map(after).contains_key(id) == expected.contains_key(id) && (
        connection_map(after).contains_key(id) ==> connection_map(after)[id] == expected[id]) by {
        if id != id0 {
            if lists_machine(before, id) {
                let q = machine_place(before, id);
                assert(before[q].machine_id@ == id);
                assert(after[q] == before[q]);
                lemma_place(after, q);
            }
            if lists_machine(after, id) {
                let q = machine_place(after, id);
                assert(after[q].machine_id@ == id);
                assert(before[q] == after[q]);
                lemma_place(before, q);
            }
        }
    }
    assert(connection_map(after) =~= expected);
}

/// A list without one of its connections has all the others.
proof fn lemma_dropped<C>(before: Seq<AgentConnection<C>>, i: int)
    requires
        machines_differ(before),
        0 <= i < before.len(),
    ensures
        machines_differ(before.remove(i)),
        connection_map(before.remove(i)) == connection_map(before).remove(before[i].machine_id@),
{
    let after = before.remove(i);
    let id0 = before[i].machine_id@;
    assert forall|k: int, l: int|
        #![trigger after[k], after[l]]
        0 <= k < l < after.len() implies after[k].machine_id@ != after[l].machine_id@ by {
        let k0 = if k < i {
            k
        } else {
            k + 1
        };
        let l0 = if l < i {
            l
        } else {
            l + 1
        };
        assert(after[k] == before[k0] && after[l] == before[l0]);
    }
    let expected = connection_map(before).remove(id0);
    assert forall|id: Seq<char>| #[trigger]
        connection_map(after).contains_key(id) == expected.contains_key(id) && (
        connection_map(after).contains_key(id) ==> connection_map(after)[id] == expected[id]) by {
        if lists_machine(after, id) {
            let q = machine_place(after, id);
            let q0 = if q < i {
                q
            } else {
                q + 1
            };
            assert(after[q] == before[q0]);
            lemma_place(before, q0);
            assert(before[q0].machine_id@ != before[i].machine_id@);
        }
        if id != id0 && lists_machine(before, id) {
            let q0 = machine_place(before, id);
            assert(before[q0].machine_id@ == id);
            let q = if q0 < i {
                q0
            } else {
                q0 - 1
            };
            assert(after[q] == before[q0]);
            lemma_place(after, q);
        }
    }
    assert(connection_map(after) =~= expected);
}

impl<C> Connections<C> {
    #[verifier::type_invariant]
    spec fn wf(self) -> bool {
        machines_differ(self.connections@)
    }

    /// No connections.
    pub fn new() -> (r: Self)
        ensures
            r@ == Map::<Seq<char>, ConnectionView<C>>::empty(),
    {
        let r = Connections { connections: Vec::new() };
        assert(r@ =~= Map::<Seq<char>, ConnectionView<C>>::empty());
        r
    }

    /// Where a machine's connection stands in the list.
    fn place(&self, machine_id: &MachineId) -> (r: Option<usize>)
        ensures
            match r {
                Some(i) => i < self.connections.len() && self.connections[i as int].machine_id@
                    == machine_id@ && lists_machine(self.connections@, machine_id@) && i
                    == machine_place(self.connections@, machine_id@),
                None => !lists_machine(self.connections@, machine_id@),
            },
    {
        proof {
            use_type_invariant(self);
        }
        let mut i: usize = 0;
        while i < self.connections.len()
            invariant
                machines_differ(self.connections@),
                i <= self.connections.len(),
                forall|k: int|
                    0 <= k < i ==> (#[trigger] self.connections[k]).machine_id@ != machine_id@,
            decreases self.connections.len() - i,
        {
            if self.connections[i].machine_id.same(machine_id) {
                proof {
                    lemma_place(self.connections@, i as int);
                }
                return Some(i);
            }
            i += 1;
        }
        None
    }

    /// Stores the connection of a machine's agent. A connection that the
    /// machine had before is replaced.
    pub fn store(&mut self, machine_id: MachineId, connected_at: SystemTime, channel: C)
        ensures
            final(self)@ == old(self)@.insert(
                machine_id@,
                ConnectionView { connected_at, channel },
            ),
    {
        proof {
            use_type_invariant(&*self);
        }
        let ghost before = self.connections@;
        let place = self.place(&machine_id);
        let connection = AgentConnection { machine_id, connected_at, channel };
        let mut connections: Vec<AgentConnection<C>> = Vec::new();
        std::mem::swap(&mut connections, &mut self.connections);
        match place {
            Some(i) => {
                connections[i] = connection;
            },
            None => {
                connections.push(connection);
            },
        }
        proof {
            lemma_stored(before, connections@, connection);
        }
        self.connections = connections;
    }

    /// Removes the connection of a machine's agent, and says whether there
    /// was one.
    pub fn remove(&mut self, machine_id: &MachineId) -> (r: bool)
        ensures
            r == old(self)@.contains_key(machine_id@),
            final(self)@ == old(self)@.remove(machine_id@),
    {
        proof {
            use_type_invariant(&*self);
        }
        let ghost before = self.connections@;
        match self.place(machine_id) {
            Some(i) => {
                let mut connections: Vec<AgentConnection<C>> = Vec::new();
                std::mem::swap(&mut connections, &mut self.connections);
                connections.remove(i);
                proof {
                    lemma_dropped(before, i as int);
                }
                self.connections = connections;
                true
            },
            None => {
                assert(self@ =~= old(self)@.remove(machine_id@));
                false
            },
        }
    }

    /// The channel of a machine's connection, if the machine has one.
    pub fn channel(&self, machine_id: &MachineId) -> (r: Option<&C>)
        ensures
            match r {
                Some(channel) => self@.contains_key(machine_id@) && *channel
                    == self@[machine_id@].channel,
                None => !self@.contains_key(machine_id@),
            },
    {
        match self.place(machine_id) {
            Some(i) => Some(&self.connections[i].channel),
            None => None,
        }
    }

    /// Whether a machine's agent is connected.
    pub fn is_connected(&self, machine_id: &MachineId) -> (r: bool)
        ensures
            r == self@.contains_key(machine_id@),
    {
        match self.place(machine_id) {
            Some(_) => true,
            None => false,
        }
    }

    /// Every connected machine once, in no particular order, and since when
    /// it is connected.
    pub fn list_connected(&self) -> (r: Vec<(MachineId, SystemTime)>)
        ensures
            forall|i: int|
                0 <= i < r.len() ==> self@.contains_key((#[trigger] r[i]).0@) && r[i].1
                    == self@[r[i].0@].connected_at,
            forall|id: Seq<char>| #[trigger]
                self@.contains_key(id) ==> exists|i: int|
                    0 <= i < r.len() && (#[trigger] r[i]).0@ == id,
            forall|i: int, j: int|
                #![trigger r[i], r[j]]
                0 <= i < j < r.len() ==> r[i].0@ != r[j].0@,
    {
        proof {
            use_type_invariant(self);
        }
        let mut list: Vec<(MachineId, SystemTime)> = Vec::new();
        let mut i: usize = 0;
        while i < self.connections.len()
            invariant
                i <= self.connections.len(),
                list.len() == i,
                forall|k: int|
                    0 <= k < i ==> (#[trigger] list[k]).0@ == self.connections[k].machine_id@
                        && list[k].1 == self.connections[k].connected_at,
            decreases self.connections.len() - i,
        {
            list.push((self.connections[i].machine_id.clone(), self.connections[i].connected_at));
            i += 1;
        }
        proof {
            let all = self.connections@;
            assert forall|k: int| 0 <= k < list.len() implies self@.contains_key(
                (#[trigger] list[k]).0@,
            ) && list[k].1 == self@[list[k].0@].connected_at by {
                assert(all[k].machine_id@ == list[k].0@);
                lemma_place(all, k);
            }
            assert forall|id: Seq<char>| #[trigger] self@.contains_key(id) implies exists|k: int|
                0 <= k < list.len() && (#[trigger] list[k]).0@ == id by {
                let p = machine_place(all, id);
                assert(all[p].machine_id@ == id);
                assert(list[p].0@ == id);
            }
            assert forall|j: int, k: int|
                #![trigger list[j], list[k]]
                0 <= j < k < list.len() implies list[j].0@ != list[k].0@ by {
                assert(all[j].machine_id@ != all[k].machine_id@);
            }
        }
        list
    }
}

/// One change to the registered connections.
pub enum Change<C> {
    Register(Seq<char>, ConnectionView<C>),
    Unregister(Seq<char>),
}

/// The machine that a change is about.
pub open spec fn changed_machine<C>(change: Change<C>) -> Seq<char> {
    match change {
        Change::Register(id, _) => id,
        Change::Unregister(id) => id,
    }
}

/// The connections after a list of changes to an empty registry.
pub open spec fn changed<C>(changes: Seq<Change<C>>) -> Map<Seq<char>, ConnectionView<C>>
    decreases changes.len(),
{
    if changes.len() == 0 {
        Map::empty()
    } else {
        match changes.last() {
            Change::Register(id, connection) => changed(changes.drop_last()).insert(id, connection),
            Change::Unregister(id) => changed(changes.drop_last()).remove(id),
        }
    }
}

/// The last change about a machine decides: after a registration the machine
/// is connected, by that connection alone; after a removal it is not.
pub proof fn law_last_change_decides<C>(changes: Seq<Change<C>>, last: int)
    requires
        0 <= last < changes.len(),
        forall|i: int|
            last < i < changes.len() ==> changed_machine(#[trigger] changes[i]) != changed_machine(
                changes[last],
            ),
    ensures
        match changes[last] {
            Change::Register(id, connection) => changed(changes).contains_key(id)
                && changed(changes)[id] == connection,
            Change::Unregister(id) => !changed(changes).contains_key(id),
        },
    decreases changes.len(),
{
    if last < changes.len() - 1 {
        let before = changes.drop_last();
        assert(before[last] == changes[last]);
        assert forall|i: int| last < i < before.len() implies changed_machine(#[trigger] before[i])
            != changed_machine(before[last]) by {
            assert(before[i] == changes[i]);
        }
        law_last_change_decides(before, last);
        assert(changes[changes.len() - 1] == changes.last());
    }
}

/// A machine that no change was about is not connected.
pub proof fn law_unmentioned_machine_is_not_connected<C>(changes: Seq<Change<C>>, id: Seq<char>)
    requires
        forall|i: int| 0 <= i < changes.len() ==> changed_machine(#[trigger] changes[i]) != id,
    ensures
        !changed(changes).contains_key(id),
    decreases changes.len(),
{
    if changes.len() > 0 {
        let before = changes.drop_last();
        assert forall|i: int| 0 <= i < before.len() implies changed_machine(#[trigger] before[i])
            != id by {
            assert(before[i] == changes[i]);
        }
        law_unmentioned_machine_is_not_connected(before, id);
        assert(changes[changes.len() - 1] == changes.last());
    }
}

/// In a list without two connections of one machine, each connection is
/// found under its machine as it stands there, and no other machine is
/// found.
pub proof fn law_connections_are_found_by_machine<C>(
    connections: Seq<AgentConnection<C>>,
    i: int,
    id: Seq<char>,
)
    requires
        forall|j: int, k: int|
            #![trigger connections[j], connections[k]]
            0 <= j < k < connections.len() ==> connections[j].machine_id@
                != connections[k].machine_id@,
        0 <= i < connections.len(),
        forall|j: int| 0 <= j < connections.len() ==> (#[trigger] connections[j]).machine_id@ != id,
    ensures
        connection_map(connections).contains_key(connections[i].machine_id@),
        connection_map(connections)[connections[i].machine_id@] == (ConnectionView {
            connected_at: connections[i].connected_at,
            channel: connections[i].channel,
        }),
        !connection_map(connections).contains_key(id),
{
    lemma_place(connections, i);
}

} // verus!
