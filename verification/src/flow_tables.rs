//! The flow tables of all connections, each kept for as long as something
//! can still reach it.

use std::collections::HashMap;

use vstd::prelude::*;

use crate::ids::hyphenated;
use crate::registry::{
    delivery, extract_flow_uuid, flows_after, flows_after_handover, message_flow, Delivery, Flow,
    FlowTable, Handover,
};
use crate::wire::ScoutStreamApiBoundMessage;

verus! {

broadcast use vstd::std_specs::hash::group_hash_axioms;

/// The flows of a connection, and what reaches them.
pub struct KeptTable<O, S> {
    flows: FlowTable<O, S>,
    registered: bool,
    routed: bool,
    holds: u64,
}

/// A table as contracts speak of it.
pub struct TableView<O, S> {
    pub flows: Map<u128, Flow<O, S>>,
    /// Whether the connection is the one that its machine is registered with.
    pub registered: bool,
    /// Whether messages from the agent may still come in.
    pub routed: bool,
    /// How many requests over the connection are under way.
    pub holds: u64,
}

impl<O, S> View for KeptTable<O, S> {
    type V = TableView<O, S>;

    closed spec fn view(&self) -> TableView<O, S> {
        TableView {
            flows: self.flows@,
            registered: self.registered,
            routed: self.routed,
            holds: self.holds,
        }
    }
}

/// The table of a connection that was just made.
pub open spec fn fresh_table<O, S>() -> TableView<O, S> {
    TableView { flows: Map::empty(), registered: true, routed: true, holds: 0 }
}

/// Whether anything can still reach a table.
pub open spec fn in_use<O, S>(table: TableView<O, S>) -> bool {
    table.registered || table.routed || table.holds > 0
}

/// The tables with one of them changed; it is gone where nothing can reach
/// it any more.
pub open spec fn settled<O, S>(
    tables: Map<u64, TableView<O, S>>,
    connection: u64,
    table: TableView<O, S>,
) -> Map<u64, TableView<O, S>> {
    if in_use(table) {
        tables.insert(connection, table)
    } else {
        tables.remove(connection)
    }
}

/// The flows of a connection; none where its table is gone.
pub open spec fn flows_of<O, S>(tables: Map<u64, TableView<O, S>>, connection: u64) -> Map<
    u128,
    Flow<O, S>,
> {
    if tables.contains_key(connection) {
        tables[connection].flows
    } else {
        Map::empty()
    }
}

/// The tables with other flows for a connection, where its table is there.
pub open spec fn with_flows<O, S>(
    tables: Map<u64, TableView<O, S>>,
    connection: u64,
    flows: Map<u128, Flow<O, S>>,
) -> Map<u64, TableView<O, S>> {
    if tables.contains_key(connection) {
        tables.insert(connection, TableView { flows, ..tables[connection] })
    } else {
        tables
    }
}

/// The tables once a connection is no longer the one of its machine.
pub open spec fn retired<O, S>(tables: Map<u64, TableView<O, S>>, connection: u64) -> Map<
    u64,
    TableView<O, S>,
> {
    if tables.contains_key(connection) {
        settled(tables, connection, TableView { registered: false, ..tables[connection] })
    } else {
        tables
    }
}

/// The tables once no more messages come in over a connection.
pub open spec fn unrouted<O, S>(tables: Map<u64, TableView<O, S>>, connection: u64) -> Map<
    u64,
    TableView<O, S>,
> {
    if tables.contains_key(connection) {
        settled(tables, connection, TableView { routed: false, ..tables[connection] })
    } else {
        tables
    }
}

/// The tables once one more request over a connection is under way.
pub open spec fn held<O, S>(tables: Map<u64, TableView<O, S>>, connection: u64) -> Map<
    u64,
    TableView<O, S>,
> {
    if tables.contains_key(connection) && tables[connection].holds < u64::MAX {
        tables.insert(
            connection,
            TableView { holds: (tables[connection].holds + 1) as u64, ..tables[connection] },
        )
    } else {
        tables
    }
}

/// The tables once a request over a connection is over.
pub open spec fn let_go<O, S>(tables: Map<u64, TableView<O, S>>, connection: u64) -> Map<
    u64,
    TableView<O, S>,
> {
    if tables.contains_key(connection) && tables[connection].holds > 0 {
        settled(
            tables,
            connection,
            TableView { holds: (tables[connection].holds - 1) as u64, ..tables[connection] },
        )
    } else {
        tables
    }
}

/// The flow tables by the numbers of their connections.
pub struct FlowTables<O, S> {
    tables: HashMap<u64, KeptTable<O, S>>,
}

impl<O, S> View for FlowTables<O, S> {
    type V = Map<u64, TableView<O, S>>;

    closed spec fn view(&self) -> Map<u64, TableView<O, S>> {
        self.tables@.map_values(|table: KeptTable<O, S>| table@)
    }
}

impl<O, S> FlowTables<O, S> {
    /// No tables.
    pub fn new() -> (r: Self)
        ensures
            r@ == Map::<u64, TableView<O, S>>::empty(),
    {
        let r = FlowTables { tables: HashMap::new() };
        assert(r@ =~= Map::<u64, TableView<O, S>>::empty());
        r
    }

    /// Starts the table of a connection that was just made: it has no flows.
    pub fn start(&mut self, connection: u64)
        ensures
            final(self)@ == old(self)@.insert(connection, fresh_table()),
    {
        self.put(
            connection,
            KeptTable { flows: FlowTable::new(), registered: true, routed: true, holds: 0 },
        );
    }

    /// Takes a table out.
    fn take(&mut self, connection: u64) -> (r: Option<KeptTable<O, S>>)
        ensures
            match r {
                Some(table) => old(self)@.contains_key(connection) && table@
                    == old(self)@[connection] && final(self)@ == old(self)@.remove(connection),
                None => !old(self)@.contains_key(connection) && final(self)@ == old(self)@,
            },
    {
        let r = self.tables.remove(&connection);
        assert(self@ =~= old(self)@.remove(connection));
        assert(r is None ==> self@ =~= old(self)@);
        r
    }

    /// Puts a table in.
    fn put(&mut self, connection: u64, table: KeptTable<O, S>)
        ensures
            final(self)@ == old(self)@.insert(connection, table@),
    {
        self.tables.insert(connection, table);
        assert(self@ =~= old(self)@.insert(connection, table@));
    }

    /// Puts a table in that was taken out, if anything can still reach it.
    fn settle(&mut self, connection: u64, table: KeptTable<O, S>)
        requires
            !old(self)@.contains_key(connection),
        ensures
            final(self)@ == settled(old(self)@, connection, table@),
    {
        if table.registered || table.routed || table.holds > 0 {
            self.put(connection, table);
        } else {
            assert(old(self)@.remove(connection) =~= old(self)@);
        }
    }

    /// A connection is no longer the one that its machine is registered with.
    pub fn retire(&mut self, connection: u64)
        ensures
            final(self)@ == retired(old(self)@, connection),
    {
        if let Some(mut table) = self.take(connection) {
            table.registered = false;
            self.settle(connection, table);
            assert(self@ =~= retired(old(self)@, connection));
        }
    }

    /// No more messages come in over a connection.
    pub fn stop_routing(&mut self, connection: u64)
        ensures
            final(self)@ == unrouted(old(self)@, connection),
    {
        if let Some(mut table) = self.take(connection) {
            table.routed = false;
            self.settle(connection, table);
            assert(self@ =~= unrouted(old(self)@, connection));
        }
    }

    /// One more request over a connection is under way.
    pub fn hold(&mut self, connection: u64)
        ensures
            final(self)@ == held(old(self)@, connection),
    {
        if let Some(mut table) = self.take(connection) {
            if table.holds < u64::MAX {
                table.holds = table.holds + 1;
            }
            self.put(connection, table);
            assert(self@ =~= held(old(self)@, connection));
        }
    }

    /// A request over a connection is over.
    pub fn release(&mut self, connection: u64)
        ensures
            final(self)@ == let_go(old(self)@, connection),
    {
        if let Some(mut table) = self.take(connection) {
            if table.holds > 0 {
                table.holds = table.holds - 1;
                self.settle(connection, table);
            } else {
                self.put(connection, table);
            }
            assert(self@ =~= let_go(old(self)@, connection));
        }
    }

    /// Registers a flow of a connection for one response.
    pub fn register_oneshot(&mut self, connection: u64, flow_uuid: u128, sender: O)
        ensures
            final(self)@ == with_flows(
                old(self)@,
                connection,
                flows_of(old(self)@, connection).insert(flow_uuid, Flow::Oneshot(sender)),
            ),
    {
        if let Some(mut table) = self.take(connection) {
            table.flows.register_oneshot(flow_uuid, sender);
            self.put(connection, table);
            assert(self@ =~= with_flows(
                old(self)@,
                connection,
                flows_of(old(self)@, connection).insert(flow_uuid, Flow::Oneshot(sender)),
            ));
        }
    }

    /// Registers a flow of a connection for many responses.
    pub fn register_stream(&mut self, connection: u64, flow_uuid: u128, sender: S)
        ensures
            final(self)@ == with_flows(
                old(self)@,
                connection,
                flows_of(old(self)@, connection).insert(flow_uuid, Flow::Stream(sender)),
            ),
    {
        if let Some(mut table) = self.take(connection) {
            table.flows.register_stream(flow_uuid, sender);
            self.put(connection, table);
            assert(self@ =~= with_flows(
                old(self)@,
                connection,
                flows_of(old(self)@, connection).insert(flow_uuid, Flow::Stream(sender)),
            ));
        }
    }

    /// Removes a flow of a connection, if it is there.
    pub fn remove(&mut self, connection: u64, flow_uuid: u128)
        ensures
            final(self)@ == with_flows(
                old(self)@,
                connection,
                flows_of(old(self)@, connection).remove(flow_uuid),
            ),
    {
        if let Some(mut table) = self.take(connection) {
            table.flows.remove(flow_uuid);
            self.put(connection, table);
            assert(self@ =~= with_flows(
                old(self)@,
                connection,
                flows_of(old(self)@, connection).remove(flow_uuid),
            ));
        }
    }

    /// Settles what becomes of a message that came in over a connection.
    pub fn route(&mut self, connection: u64, response: &ScoutStreamApiBoundMessage) -> (r: Delivery<
        O,
    >)
        ensures
            r == delivery(flows_of(old(self)@, connection), message_flow(response@)),
            final(self)@ == with_flows(
                old(self)@,
                connection,
                flows_after(flows_of(old(self)@, connection), message_flow(response@)),
            ),
            forall|id: u128|
                response@.flow_uuid == Some(#[trigger] hyphenated(id)) ==> r == delivery(
                    flows_of(old(self)@, connection),
                    Some(id),
                ) && final(self)@ == with_flows(
                    old(self)@,
                    connection,
                    flows_after(flows_of(old(self)@, connection), Some(id)),
                ),
    {
        match self.take(connection) {
            Some(mut table) => {
                let r = table.flows.route(response);
                self.put(connection, table);
                assert(self@ =~= with_flows(
                    old(self)@,
                    connection,
                    flows_after(flows_of(old(self)@, connection), message_flow(response@)),
                ));
                assert forall|id: u128|
                    response@.flow_uuid == Some(#[trigger] hyphenated(id)) implies self@
                    == with_flows(
                    old(self)@,
                    connection,
                    flows_after(flows_of(old(self)@, connection), Some(id)),
                ) by {
                    assert(self@ =~= with_flows(
                        old(self)@,
                        connection,
                        flows_after(flows_of(old(self)@, connection), Some(id)),
                    ));
                }
                r
            },
            None => match extract_flow_uuid(response) {
                Some(id) => Delivery::Unknown(id),
                None => Delivery::Unreadable,
            },
        }
    }

    /// The sender of a stream of a connection, if the flow is one.
    pub fn stream_sender(&self, connection: u64, flow_uuid: u128) -> (r: Option<&S>)
        ensures
            match r {
                Some(sender) => flows_of(self@, connection).contains_key(flow_uuid) && flows_of(
                    self@,
                    connection,
                )[flow_uuid] == Flow::<O, S>::Stream(*sender),
                None => !(flows_of(self@, connection).contains_key(flow_uuid) && flows_of(
                    self@,
                    connection,
                )[flow_uuid] is Stream),
            },
    {
        match self.tables.get(&connection) {
            Some(table) => table.flows.stream_sender(flow_uuid),
            None => None,
        }
    }

    /// Takes note of how handing a message to the sender of a connection's
    /// stream went.
    pub fn handed_over(&mut self, connection: u64, flow_uuid: u128, handover: Handover)
        ensures
            final(self)@ == with_flows(
                old(self)@,
                connection,
                flows_after_handover(flows_of(old(self)@, connection), flow_uuid, handover),
            ),
    {
        if let Some(mut table) = self.take(connection) {
            table.flows.handed_over(flow_uuid, handover);
            self.put(connection, table);
            assert(self@ =~= with_flows(
                old(self)@,
                connection,
                flows_after_handover(flows_of(old(self)@, connection), flow_uuid, handover),
            ));
        }
    }
}

/// What is done to the flows of one connection touches no other connection.
pub proof fn law_flows_belong_to_one_connection<O, S>(
    tables: Map<u64, TableView<O, S>>,
    connection: u64,
    flows: Map<u128, Flow<O, S>>,
    other: u64,
)
    requires
        other != connection,
    ensures
        flows_of(with_flows(tables, connection, flows), other) == flows_of(tables, other),
        flows_of(retired(tables, connection), other) == flows_of(tables, other),
        flows_of(unrouted(tables, connection), other) == flows_of(tables, other),
        flows_of(held(tables, connection), other) == flows_of(tables, other),
        flows_of(let_go(tables, connection), other) == flows_of(tables, other),
{
}

/// A table stays, with the flows it has, exactly as long as its connection
/// is registered, messages may come in over it, or a request over it is
/// under way.
pub proof fn law_table_stays_while_in_use<O, S>(
    tables: Map<u64, TableView<O, S>>,
    connection: u64,
)
    requires
        tables.contains_key(connection),
    ensures
        retired(tables, connection).contains_key(connection) <==> (tables[connection].routed
            || tables[connection].holds > 0),
        unrouted(tables, connection).contains_key(connection) <==> (tables[connection].registered
            || tables[connection].holds > 0),
        tables[connection].holds > 0 ==> (let_go(tables, connection).contains_key(connection)
            <==> (tables[connection].registered || tables[connection].routed
            || tables[connection].holds > 1)),
        retired(tables, connection).contains_key(connection) ==> flows_of(
            retired(tables, connection),
            connection,
        ) == flows_of(tables, connection),
        unrouted(tables, connection).contains_key(connection) ==> flows_of(
            unrouted(tables, connection),
            connection,
        ) == flows_of(tables, connection),
        let_go(tables, connection).contains_key(connection) ==> flows_of(
            let_go(tables, connection),
            connection,
        ) == flows_of(tables, connection),
        flows_of(held(tables, connection), connection) == flows_of(tables, connection),
{
}

/// The flows of a connection that has a table are what they were last set
/// to; one without a table has none, and is given none.
pub proof fn law_flows_are_what_they_were_set_to<O, S>(
    tables: Map<u64, TableView<O, S>>,
    connection: u64,
    flows: Map<u128, Flow<O, S>>,
)
    ensures
        tables.contains_key(connection) ==> with_flows(tables, connection, flows).contains_key(
            connection,
        ) && with_flows(tables, connection, flows)[connection] == (TableView {
            flows,
            registered: tables[connection].registered,
            routed: tables[connection].routed,
            holds: tables[connection].holds,
        }),
        tables.contains_key(connection) ==> flows_of(
            with_flows(tables, connection, flows),
            connection,
        ) == flows,
        tables.contains_key(connection) ==> flows_of(tables, connection)
            == tables[connection].flows,
        !tables.contains_key(connection) ==> with_flows(tables, connection, flows) == tables
            && flows_of(tables, connection) == Map::<u128, Flow<O, S>>::empty(),
{
}

/// What is done to the table of one connection leaves every other table as
/// it was, and no table comes out of nothing.
pub proof fn law_other_tables_untouched<O, S>(
    tables: Map<u64, TableView<O, S>>,
    connection: u64,
    flows: Map<u128, Flow<O, S>>,
)
    ensures
        with_flows(tables, connection, flows).remove(connection) == tables.remove(connection),
        retired(tables, connection).remove(connection) == tables.remove(connection),
        unrouted(tables, connection).remove(connection) == tables.remove(connection),
        held(tables, connection).remove(connection) == tables.remove(connection),
        let_go(tables, connection).remove(connection) == tables.remove(connection),
        !tables.contains_key(connection) ==> retired(tables, connection) == tables && unrouted(
            tables,
            connection,
        ) == tables && held(tables, connection) == tables && let_go(tables, connection) == tables,
{
    assert(with_flows(tables, connection, flows).remove(connection) =~= tables.remove(connection));
    assert(retired(tables, connection).remove(connection) =~= tables.remove(connection));
    assert(unrouted(tables, connection).remove(connection) =~= tables.remove(connection));
    assert(held(tables, connection).remove(connection) =~= tables.remove(connection));
    assert(let_go(tables, connection).remove(connection) =~= tables.remove(connection));
}

/// A table that stays changes in the one thing that happened to it: it is
/// not registered any more, it is not routed any more, or one request more
/// or less is under way.
pub proof fn law_only_one_thing_changes<O, S>(
    tables: Map<u64, TableView<O, S>>,
    connection: u64,
)
    requires
        tables.contains_key(connection),
    ensures
        ({
            let table = tables[connection];
            &&& retired(tables, connection).contains_key(connection) ==> retired(
                tables,
                connection,
            )[connection] == (TableView {
                flows: table.flows,
                registered: false,
                routed: table.routed,
                holds: table.holds,
            })
            &&& unrouted(tables, connection).contains_key(connection) ==> unrouted(
                tables,
                connection,
            )[connection] == (TableView {
                flows: table.flows,
                registered: table.registered,
                routed: false,
                holds: table.holds,
            })
            &&& table.holds < u64::MAX ==> held(tables, connection).contains_key(connection)
                && held(tables, connection)[connection] == (TableView {
                flows: table.flows,
                registered: table.registered,
                routed: table.routed,
                holds: (table.holds + 1) as u64,
            })
            &&& table.holds > 0 && let_go(tables, connection).contains_key(connection) ==> let_go(
                tables,
                connection,
            )[connection] == (TableView {
                flows: table.flows,
                registered: table.registered,
                routed: table.routed,
                holds: (table.holds - 1) as u64,
            })
        }),
{
}

/// A request that is over leaves what was there before it began.
pub proof fn law_letting_go_undoes_holding<O, S>(
    tables: Map<u64, TableView<O, S>>,
    connection: u64,
)
    requires
        tables.contains_key(connection),
        tables[connection].registered || tables[connection].routed || tables[connection].holds > 0,
        tables[connection].holds < u64::MAX,
    ensures
        let_go(held(tables, connection), connection) == tables,
{
    assert(let_go(held(tables, connection), connection) =~= tables);
}

} // verus!
