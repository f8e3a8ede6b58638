//! The live log viewer's list of connected agents.

use vstd::prelude::*;
use vstd::string::*;

use crate::http_reply::{HttpReply, HttpView};
use crate::text::{
    lemma_precedes_total, lemma_precedes_transitive, precedes, quote, quoted, same_text,
    text_precedes,
};
use crate::time::{format_system_time, rfc3339, time_text, SystemTime};
use crate::wire::MachineId;

verus! {

/// One connected agent, as a viewer is shown it.
pub struct ScoutConnection {
    pub machine_id: String,
    pub connected_at: String,
    pub uptime_seconds: u64,
}

/// One connected agent with its texts as sequences.
pub struct ConnectedView {
    pub machine_id: Seq<char>,
    pub connected_at: Seq<char>,
    pub uptime_seconds: u64,
}

impl View for ScoutConnection {
    type V = ConnectedView;

    open spec fn view(&self) -> ConnectedView {
        ConnectedView {
            machine_id: self.machine_id@,
            connected_at: self.connected_at@,
            uptime_seconds: self.uptime_seconds,
        }
    }
}

/// The whole seconds from one point in time to another, none where the
/// other is the earlier.
pub open spec fn seconds_between(from: SystemTime, to: SystemTime) -> int {
    if from.total_nanos() <= to.total_nanos() {
        (to.total_nanos() - from.total_nanos()) / 1_000_000_000
    } else {
        0
    }
}

/// A connected agent as a viewer is shown it: its machine, since when it is
/// connected, and for how many seconds.
pub open spec fn connected(machine_id: Seq<char>, since: SystemTime, now: SystemTime) -> ConnectedView {
    ConnectedView {
        machine_id,
        connected_at: time_text(since, rfc3339(since.secs())),
        uptime_seconds: seconds_between(since, now) as u64,
    }
}

/// The views of a list of connected agents.
pub open spec fn connected_views(list: Seq<ScoutConnection>) -> Seq<ConnectedView> {
    list.map_values(|c: ScoutConnection| c@)
}

/// Whether agents stand in the order of their machines.
pub open spec fn in_machine_order(list: Seq<ConnectedView>) -> bool {
    forall|i: int, j: int|
        #![trigger list[i], list[j]]
        0 <= i < j < list.len() ==> !precedes(list[j].machine_id, list[i].machine_id)
}

/// Puts connected agents into the order of their machines.
pub fn sort_connections(list: Vec<ScoutConnection>) -> (r: Vec<ScoutConnection>)
    ensures
        connected_views(r@).to_multiset() == connected_views(list@).to_multiset(),
        in_machine_order(connected_views(r@)),
{
    let mut rest = list;
    let mut sorted: Vec<ScoutConnection> = Vec::new();
    let ghost all = connected_views(list@);
    proof {
        assert(connected_views(sorted@) =~= Seq::empty());
        assert(connected_views(sorted@) + connected_views(rest@) =~= all);
    }
    while rest.len() > 0
        invariant
            (connected_views(sorted@) + connected_views(rest@)).to_multiset() == all.to_multiset(),
            in_machine_order(connected_views(sorted@)),
        decreases rest.len(),
    {
        let ghost sorted0 = connected_views(sorted@);
        let ghost rest0 = connected_views(rest@);
        if let Some(next) = rest.pop() {
            let place = insert_place(&sorted, next.machine_id.as_str());
            let ghost view = next@;
            sorted.insert(place, next);
            proof {
                assert(connected_views(rest@) =~= rest0.drop_last());
                assert(rest0.last() == view);
                let now = connected_views(sorted@);
                assert(now =~= sorted0.insert(place as int, view));
                lemma_insert_keeps_order(sorted0, place as int, view);
                lemma_moved(sorted0, rest0, place as int);
            }
        }
    }
    proof {
        assert(connected_views(sorted@) + connected_views(rest@) =~= connected_views(sorted@));
    }
    sorted
}

/// Where an agent belongs in a list that is in order: before the first agent
/// whose machine comes after its own.
fn insert_place(sorted: &Vec<ScoutConnection>, machine_id: &str) -> (r: usize)
    ensures
        r <= sorted.len(),
        forall|k: int|
            0 <= k < r ==> !precedes(machine_id@, (#[trigger] connected_views(sorted@)[k]).machine_id),
        r < sorted.len() ==> precedes(machine_id@, connected_views(sorted@)[r as int].machine_id),
{
    let mut i: usize = 0;
    while i < sorted.len()
        invariant
            i <= sorted.len(),
            forall|k: int|
                0 <= k < i ==> !precedes(
                    machine_id@,
                    (#[trigger] connected_views(sorted@)[k]).machine_id,
                ),
        decreases sorted.len() - i,
    {
        if text_precedes(machine_id, sorted[i].machine_id.as_str()) {
            return i;
        }
        i += 1;
    }
    i
}

/// Putting an agent where it belongs keeps a list in order.
proof fn lemma_insert_keeps_order(list: Seq<ConnectedView>, place: int, new: ConnectedView)
    requires
        in_machine_order(list),
        0 <= place <= list.len(),
        forall|k: int|
            0 <= k < place ==> !precedes(new.machine_id, (#[trigger] list[k]).machine_id),
        place < list.len() ==> precedes(new.machine_id, list[place].machine_id),
    ensures
        in_machine_order(list.insert(place, new)),
{
    let now = list.insert(place, new);
    assert forall|i: int, j: int|
        #![trigger now[i], now[j]]
        0 <= i < j < now.len() implies !precedes(now[j].machine_id, now[i].machine_id) by {
        if j == place {
            assert(now[i] == list[i]);
        } else if i == place {
            assert(now[j] == list[j - 1]);
            if precedes(list[j - 1].machine_id, new.machine_id) {
                lemma_precedes_transitive(
                    list[j - 1].machine_id,
                    new.machine_id,
                    list[place].machine_id,
                );
                if j - 1 == place {
                    lemma_irreflexive(list[place].machine_id);
                } else {
                    assert(!precedes(list[j - 1].machine_id, list[place].machine_id));
                }
            }
        } else {
            let i0 = if i < place {
                i
            } else {
                i - 1
            };
            let j0 = if j < place {
                j
            } else {
                j - 1
            };
            assert(now[i] == list[i0]);
            assert(now[j] == list[j0]);
        }
    }
}

/// No text comes before itself.
proof fn lemma_irreflexive(a: Seq<char>)
    ensures
        !precedes(a, a),
    decreases a.len(),
{
    if a.len() > 0 {
        lemma_irreflexive(a.drop_first());
    }
}

/// Moving the last of some agents among others keeps all of them.
proof fn lemma_moved(sorted: Seq<ConnectedView>, rest: Seq<ConnectedView>, place: int)
    requires
        rest.len() > 0,
        0 <= place <= sorted.len(),
    ensures
        (sorted.insert(place, rest.last()) + rest.drop_last()).to_multiset() == (sorted
            + rest).to_multiset(),
{
    broadcast use vstd::seq_lib::group_to_multiset_ensures;

    let last = rest.last();
    let a = sorted.take(place);
    let b = sorted.skip(place);
    assert(sorted =~= a + b);
    assert(sorted.insert(place, last) =~= a + seq![last] + b);
    assert(rest =~= rest.drop_last() + seq![last]);
    vstd::seq_lib::lemma_multiset_commutative(a, b);
    vstd::seq_lib::lemma_multiset_commutative(a, seq![last]);
    vstd::seq_lib::lemma_multiset_commutative(a + seq![last], b);
    vstd::seq_lib::lemma_multiset_commutative(a + seq![last] + b, rest.drop_last());
    vstd::seq_lib::lemma_multiset_commutative(rest.drop_last(), seq![last]);
    vstd::seq_lib::lemma_multiset_commutative(a + b, rest.drop_last() + seq![last]);
    assert((sorted.insert(place, last) + rest.drop_last()).to_multiset() =~= (sorted
        + rest).to_multiset());
}

/// What a viewer is answered that asks for the connected agents.
pub enum ConnectionsReply {
    /// These, in the order of their machines.
    List(Vec<ScoutConnection>),
    /// That there are none to be had.
    Reply(HttpReply),
}

/// The views of the connected agents at a point in time.
pub open spec fn all_connected(agents: Seq<(MachineId, SystemTime)>, now: SystemTime) -> Seq<
    ConnectedView,
> {
    agents.map_values(|a: (MachineId, SystemTime)| connected(a.0@, a.1, now))
}

/// The connected agents of a source, in the order of their machines; only
/// `scout` has any.
pub fn scout_connections(source: &str, agents: &Vec<(MachineId, SystemTime)>, now: SystemTime) -> (r:
    ConnectionsReply)
    ensures
        match r {
            ConnectionsReply::List(list) => source@ == "scout"@ && in_machine_order(
                connected_views(list@),
            ) && connected_views(list@).to_multiset() == all_connected(
                agents@,
                now,
            ).to_multiset(),
            ConnectionsReply::Reply(reply) => source@ != "scout"@ && reply@ == (HttpView {
                status: 404,
                body: "log source "@ + quoted(source@) + " has no connections list"@,
            }),
        },
{
    if !same_text(source, "scout") {
        let name = quote(source);
        return ConnectionsReply::Reply(
            HttpReply {
                status: 404,
                body: "log source ".to_owned().concat(name.as_str()).concat(
                    " has no connections list",
                ),
            },
        );
    }
    let mut list: Vec<ScoutConnection> = Vec::new();
    let mut i: usize = 0;
    while i < agents.len()
        invariant
            i <= agents.len(),
            list.len() == i,
            forall|k: int|
                0 <= k < i ==> (#[trigger] list[k])@ == connected(agents[k].0@, agents[k].1, now),
        decreases agents.len() - i,
    {
        let since = agents[i].1;
        let uptime_seconds: u64 = match now.duration_since(since) {
            Some(span) => span.as_secs(),
            None => 0,
        };
        list.push(
            ScoutConnection {
                machine_id: agents[i].0.to_string(),
                connected_at: format_system_time(since),
                uptime_seconds,
            },
        );
        i += 1;
    }
    assert(connected_views(list@) =~= all_connected(agents@, now));
    ConnectionsReply::List(sort_connections(list))
}

/// A list in the order of its machines is settled by the agents that are in
/// it, where no two have the same machine: it does not change with the order
/// in which they were found.
pub proof fn law_refresh_does_not_shuffle(a: Seq<ConnectedView>, b: Seq<ConnectedView>)
    requires
        a.to_multiset() == b.to_multiset(),
        in_machine_order(a),
        in_machine_order(b),
        forall|i: int, j: int|
            #![trigger a[i], a[j]]
            0 <= i < j < a.len() ==> a[i].machine_id != a[j].machine_id,
    ensures
        a == b,
    decreases a.len(),
{
    broadcast use vstd::seq_lib::group_to_multiset_ensures;

    assert(a.len() == a.to_multiset().len());
    assert(b.len() == b.to_multiset().len());
    if a.len() == 0 {
        assert(a =~= b);
    } else {
        assert(a.to_multiset().contains(a[0]));
        assert(b.contains(a[0]));
        assert(b.to_multiset().contains(b[0]));
        assert(a.contains(b[0]));
        let i = choose|i: int| 0 <= i < a.len() && a[i] == b[0];
        let j = choose|j: int| 0 <= j < b.len() && b[j] == a[0];
        lemma_irreflexive(a[0].machine_id);
        if a[0].machine_id != b[0].machine_id {
            lemma_precedes_total(a[0].machine_id, b[0].machine_id);
            assert(i != 0 && j != 0);
            assert(!precedes(a[i].machine_id, a[0].machine_id));
            assert(!precedes(b[j].machine_id, b[0].machine_id));
        }
        assert(i == 0);
        let rest_a = a.drop_first();
        let rest_b = b.drop_first();
        assert(a =~= seq![a[0]] + rest_a);
        assert(b =~= seq![b[0]] + rest_b);
        assert(a.remove(0) =~= rest_a);
        assert(b.remove(0) =~= rest_b);
        assert(rest_a.to_multiset() =~= a.to_multiset().remove(a[0]));
        assert(rest_b.to_multiset() =~= b.to_multiset().remove(b[0]));
        assert forall|k: int, l: int|
            #![trigger rest_a[k], rest_a[l]]
            0 <= k < l < rest_a.len() implies rest_a[k].machine_id != rest_a[l].machine_id
            && !precedes(rest_a[l].machine_id, rest_a[k].machine_id) by {
            assert(rest_a[k] == a[k + 1] && rest_a[l] == a[l + 1]);
        }
        assert forall|k: int, l: int|
            #![trigger rest_b[k], rest_b[l]]
            0 <= k < l < rest_b.len() implies !precedes(
            rest_b[l].machine_id,
            rest_b[k].machine_id,
        ) by {
            assert(rest_b[k] == b[k + 1] && rest_b[l] == b[l + 1]);
        }
        law_refresh_does_not_shuffle(rest_a, rest_b);
    }
}

/// A connected agent is shown with its own machine, the time at which it
/// connected, and the whole seconds since; none where it connected later
/// than now.
pub proof fn law_agent_is_shown_with_its_uptime(
    machine_id: Seq<char>,
    since: SystemTime,
    now: SystemTime,
)
    ensures
        ({
            let shown = connected(machine_id, since, now);
            let nanos = now.total_nanos() - since.total_nanos();
            &&& shown.machine_id == machine_id
            &&& shown.connected_at == time_text(since, rfc3339(since.secs()))
            &&& nanos < 0 ==> shown.uptime_seconds == 0
            &&& 0 <= nanos < 18_446_744_073_709_551_616_000_000_000 ==> shown.uptime_seconds
                * 1_000_000_000 <= nanos < (shown.uptime_seconds + 1) * 1_000_000_000
        }),
{
}

/// The agents are shown each once, by their own machines and times, and a
/// list is in order exactly where no machine stands after a later one.
pub proof fn law_agents_are_shown_each_once(
    agents: Seq<(MachineId, SystemTime)>,
    now: SystemTime,
    i: int,
)
    requires
        0 <= i < agents.len(),
    ensures
        all_connected(agents, now).len() == agents.len(),
        all_connected(agents, now)[i].machine_id == agents[i].0@,
        all_connected(agents, now)[i].connected_at == time_text(
            agents[i].1,
            rfc3339(agents[i].1.secs()),
        ),
        all_connected(agents, now)[i] == connected(agents[i].0@, agents[i].1, now),
        in_machine_order(all_connected(agents, now)) ==> forall|j: int|
            i < j < agents.len() ==> !precedes((#[trigger] agents[j]).0@, agents[i].0@),
{
    let all = all_connected(agents, now);
    if in_machine_order(all) {
        assert forall|j: int| i < j < agents.len() implies !precedes(
            (#[trigger] agents[j]).0@,
            agents[i].0@,
        ) by {
            assert(!precedes(all[j].machine_id, all[i].machine_id));
        }
    }
}

/// A shown agent is seen with all its parts.
pub proof fn law_shown_agent_views(agent: ScoutConnection, list: Seq<ScoutConnection>, i: int)
    requires
        0 <= i < list.len(),
    ensures
        agent@.machine_id == agent.machine_id@,
        agent@.connected_at == agent.connected_at@,
        agent@.uptime_seconds == agent.uptime_seconds,
        connected_views(list).len() == list.len(),
        connected_views(list)[i] == list[i]@,
{
}

/// A list that has just the connected agents shows every agent, with its
/// machine, since when it is connected and for how long, and shows nobody
/// else.
pub proof fn law_list_shows_every_agent(
    agents: Seq<(MachineId, SystemTime)>,
    now: SystemTime,
    list: Seq<ConnectedView>,
    i: int,
)
    requires
        list.to_multiset() == all_connected(agents, now).to_multiset(),
        0 <= i < agents.len(),
    ensures
        list.len() == agents.len(),
        exists|k: int|
            0 <= k < list.len() && (#[trigger] list[k]).machine_id == agents[i].0@
                && list[k].connected_at == time_text(agents[i].1, rfc3339(agents[i].1.secs()))
                && list[k].uptime_seconds == seconds_between(agents[i].1, now) as u64,
        exists|j: int|
            0 <= j < agents.len() && (#[trigger] agents[j]).0@ == list[i].machine_id
                && list[i].connected_at == time_text(agents[j].1, rfc3339(agents[j].1.secs()))
                && list[i].uptime_seconds == seconds_between(agents[j].1, now) as u64,
{
    broadcast use vstd::seq_lib::group_to_multiset_ensures;

    let all = all_connected(agents, now);
    assert(list.len() == list.to_multiset().len());
    assert(all.len() == all.to_multiset().len());
    assert(all.contains(all[i]));
    assert(all.to_multiset().contains(all[i]));
    assert(list.contains(all[i]));
    let k = choose|k: int| 0 <= k < list.len() && list[k] == all[i];
    assert(list[k] == connected(agents[i].0@, agents[i].1, now));
    assert(list.contains(list[i]));
    assert(list.to_multiset().contains(list[i]));
    assert(all.contains(list[i]));
    let j = choose|j: int| 0 <= j < all.len() && all[j] == list[i];
    assert(all[j] == connected(agents[j].0@, agents[j].1, now));
}

} // verus!
