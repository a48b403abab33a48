use vstd::prelude::*;
use std::collections::HashMap;
use crate::errors::ProxyError;
use crate::frame::Packet;

verus! {

broadcast use vstd::std_specs::hash::group_hash_axioms;

/// A command received from a client and not yet forwarded: the packet as
/// the client framed it, plus a handle naming the reply queue of the
/// client that submitted it. The embedding maps each handle to the actual
/// queue; the engine only carries it through.
pub struct IncomingCmd {
    pub packet: Packet,
    pub reply_sink: u32,
}

/// The correspondence record for one in-flight request: the id the client
/// chose, the id the proxy substituted, and the submitter's reply sink.
#[derive(Clone, Copy, Debug, PartialEq, Eq, Structural)]
pub struct OutstandingCmd {
    pub client_id: u32,
    pub proxy_id: u32,
    pub reply_sink: u32,
}

/// What the correspondence table keeps per proxy id: where the reply must
/// go and under which id the client knows the request.
#[derive(Clone, Copy, Debug, PartialEq, Eq, Structural)]
pub struct Route {
    pub client_id: u32,
    pub reply_sink: u32,
}

/// The route a correspondence record asks the table to keep.
pub open spec fn route_of(rec: OutstandingCmd) -> Route {
    Route { client_id: rec.client_id, reply_sink: rec.reply_sink }
}

/// A history in which the record for proxy id `i` sits at position `i`:
/// the shape every run of a single upstream writer produces.
pub open spec fn writer_history_wf(history: Seq<OutstandingCmd>) -> bool {
    forall|i: int|
        0 <= i < history.len() ==> (#[trigger] history[i].proxy_id) as nat == i
}

/// The state of the upstream writer: the next proxy id to hand out, and
/// the (ghost) record of everything it has issued so far.
pub struct UpstreamWriter {
    pub next_proxy_id: u32,
    pub issued: Ghost<Seq<OutstandingCmd>>,
}

impl UpstreamWriter {
    /// The writer has issued one record per proxy id below the counter,
    /// each stored at the position equal to its proxy id.
    pub open spec fn wf(self) -> bool {
        &&& self.issued@.len() == self.next_proxy_id as nat
        &&& writer_history_wf(self.issued@)
    }

    /// A fresh writer: the proxy-id counter starts at zero.
    pub fn new() -> (w: UpstreamWriter)
        ensures
            w.wf(),
            w.next_proxy_id == 0,
            w.issued@ =~= Seq::<OutstandingCmd>::empty(),
    {
        UpstreamWriter { next_proxy_id: 0, issued: Ghost(Seq::empty()) }
    }

    /// One step of the upstream writer: assign the next proxy id to the
    /// command, produce the correspondence record and the frame to send
    /// upstream. The frame keeps the command's length and payload and
    /// carries the proxy id in place of the client's id.
    ///
    /// The caller must make the record observable to the upstream reader
    /// (enqueue it) before writing the frame's bytes, so that no reply can
    /// outrun its record.
    pub fn forward_cmd(&mut self, cmd: IncomingCmd) -> (r: (OutstandingCmd, Packet))
        requires
            old(self).wf(),
            old(self).next_proxy_id < u32::MAX,
        ensures
            final(self).wf(),
            r.0.client_id == cmd.packet.id,
            r.0.proxy_id == old(self).next_proxy_id,
            r.0.reply_sink == cmd.reply_sink,
            r.1.length == cmd.packet.length,
            r.1.id == old(self).next_proxy_id,
            r.1.payload@ == cmd.packet.payload@,
            final(self).next_proxy_id == old(self).next_proxy_id + 1,
            final(self).issued@ =~= old(self).issued@.push(r.0),
    {
        let record = OutstandingCmd {
            client_id: cmd.packet.id,
            proxy_id: self.next_proxy_id,
            reply_sink: cmd.reply_sink,
        };
        let frame = Packet { length: cmd.packet.length, id: self.next_proxy_id, payload: cmd.packet.payload };
        self.next_proxy_id = self.next_proxy_id + 1;
        self.issued = Ghost(self.issued@.push(record));
        (record, frame)
    }
}

/// Law (proxy-id uniqueness and ordering): a single writer issues records
/// with strictly increasing proxy ids, so no two records of one process
/// lifetime share a proxy id. Since `forward_cmd` emits exactly one frame
/// per consumed command, an embedding that consumes commands in an order
/// preserving each client's submission order — a FIFO incoming queue —
/// hands each client's requests to the JVM in submission order.
pub proof fn lemma_proxy_ids_unique(w: UpstreamWriter)
    requires
        w.wf(),
    ensures
        forall|i: int, j: int|
            #![trigger w.issued@[i], w.issued@[j]]
            0 <= i < j < w.issued@.len() ==> w.issued@[i].proxy_id < w.issued@[j].proxy_id,
        forall|i: int, j: int|
            #![trigger w.issued@[i], w.issued@[j]]
            0 <= i < j < w.issued@.len() ==> w.issued@[i].proxy_id != w.issued@[j].proxy_id,
{
}

/// The state of the upstream reader: the correspondence table, mapping
/// each in-flight proxy id to the route its reply must take.
pub struct UpstreamReader {
    table: HashMap<u32, Route>,
}

impl View for UpstreamReader {
    type V = Map<u32, Route>;

    closed spec fn view(&self) -> Map<u32, Route> {
        self.table@
    }
}

impl UpstreamReader {
    /// A fresh reader: nothing is in flight.
    pub fn new() -> (r: UpstreamReader)
        ensures
            r@ =~= Map::<u32, Route>::empty(),
    {
        UpstreamReader { table: HashMap::new() }
    }

    /// Records one drained correspondence record. A proxy id that is
    /// already in the table is an invariant violation and is reported as
    /// `DuplicateProxyId` with the table unchanged.
    pub fn insert_outstanding(&mut self, rec: OutstandingCmd) -> (r: Result<(), ProxyError>)
        ensures
            match r {
                Ok(()) => {
                    &&& !old(self)@.contains_key(rec.proxy_id)
                    &&& final(self)@ == old(self)@.insert(rec.proxy_id, route_of(rec))
                },
                Err(e) => {
                    &&& e == ProxyError::DuplicateProxyId
                    &&& old(self)@.contains_key(rec.proxy_id)
                    &&& final(self)@ == old(self)@
                },
            },
    {
        if self.table.contains_key(&rec.proxy_id) {
            Err(ProxyError::DuplicateProxyId)
        } else {
            self.table.insert(rec.proxy_id, Route { client_id: rec.client_id, reply_sink: rec.reply_sink });
            Ok(())
        }
    }

    /// Routes one reply frame read from the JVM. The frame's id is the
    /// proxy id; on success the entry leaves the table and the reply to
    /// deliver carries the client's original id and the untouched payload,
    /// together with the sink handle of the client that submitted the
    /// request. A proxy id with no entry is reported as `UnknownReplyId`.
    pub fn route_reply(&mut self, frame: Packet) -> (r: Result<(u32, Packet), ProxyError>)
        ensures
            match r {
                Ok((sink, reply)) => {
                    &&& old(self)@.contains_key(frame.id)
                    &&& sink == old(self)@[frame.id].reply_sink
                    &&& reply.id == old(self)@[frame.id].client_id
                    &&& reply.length == frame.length
                    &&& reply.payload@ == frame.payload@
                    &&& final(self)@ == old(self)@.remove(frame.id)
                },
                Err(e) => {
                    &&& e == ProxyError::UnknownReplyId
                    &&& !old(self)@.contains_key(frame.id)
                    &&& final(self)@ == old(self)@
                },
            },
    {
        match self.table.remove(&frame.id) {
            Some(route) => Ok(
                (route.reply_sink, Packet { length: frame.length, id: route.client_id, payload: frame.payload }),
            ),
            None => {
                proof {
                    assert(self@ =~= old(self)@);
                }
                Err(ProxyError::UnknownReplyId)
            },
        }
    }

    /// One full step of the upstream reader, as it runs for each reply
    /// frame read from the JVM: record every correspondence record drained
    /// from the outstanding queue, in order, then route the reply. A
    /// duplicate proxy id among the drained records is the fatal
    /// `DuplicateProxyId`; a reply whose proxy id is in no record is
    /// `UnknownReplyId`.
    pub fn process_reply(&mut self, drained: Vec<OutstandingCmd>, frame: Packet) -> (r: Result<
        (u32, Packet),
        ProxyError,
    >)
        ensures
            match r {
                Ok((sink, reply)) => {
                    let t = table_after_inserts(old(self)@, drained@);
                    &&& inserts_all_fresh(old(self)@, drained@)
                    &&& t.contains_key(frame.id)
                    &&& sink == t[frame.id].reply_sink
                    &&& reply.id == t[frame.id].client_id
                    &&& reply.length == frame.length
                    &&& reply.payload@ == frame.payload@
                    &&& final(self)@ == t.remove(frame.id)
                },
                Err(ProxyError::DuplicateProxyId) => !inserts_all_fresh(old(self)@, drained@),
                Err(ProxyError::UnknownReplyId) => {
                    &&& inserts_all_fresh(old(self)@, drained@)
                    &&& !table_after_inserts(old(self)@, drained@).contains_key(frame.id)
                    &&& final(self)@ == table_after_inserts(old(self)@, drained@)
                },
                Err(_) => false,
            },
    {
        let n = drained.len();
        let mut k: usize = 0;
        while k < n
            invariant
                k <= n,
                n == drained@.len(),
                inserts_all_fresh(old(self)@, drained@.take(k as int)),
                self@ == table_after_inserts(old(self)@, drained@.take(k as int)),
            decreases n - k,
        {
            let rec = drained[k];
            let ghost pre = drained@.take(k as int);
            let ghost single = seq![drained@[k as int]];
            let ghost t_pre = table_after_inserts(old(self)@, pre);
            proof {
                lemma_inserts_split(old(self)@, pre, single);
                assert(single.drop_first() =~= Seq::<OutstandingCmd>::empty());
                assert(drained@.take(k as int + 1) =~= pre + single);
                assert(table_after_inserts(
                    t_pre.insert(rec.proxy_id, route_of(rec)),
                    single.drop_first(),
                ) == t_pre.insert(rec.proxy_id, route_of(rec)));
                assert(table_after_inserts(t_pre, single) == t_pre.insert(
                    rec.proxy_id,
                    route_of(rec),
                ));
            }
            let res = self.insert_outstanding(rec);
            if res.is_err() {
                proof {
                    assert(!inserts_all_fresh(t_pre, single));
                    assert(!inserts_all_fresh(old(self)@, drained@.take(k as int + 1)));
                    lemma_inserts_split(
                        old(self)@,
                        drained@.take(k as int + 1),
                        drained@.skip(k as int + 1),
                    );
                    assert(drained@.take(k as int + 1) + drained@.skip(k as int + 1) =~= drained@);
                }
                return Err(ProxyError::DuplicateProxyId);
            }
            proof {
                assert(inserts_all_fresh(t_pre.insert(rec.proxy_id, route_of(rec)), single.drop_first()));
                assert(inserts_all_fresh(t_pre, single));
            }
            k += 1;
        }
        proof {
            assert(drained@.take(n as int) =~= drained@);
        }
        self.route_reply(frame)
    }
}

/// The correspondence table after recording each of the given records in
/// order.
pub open spec fn table_after_inserts(table: Map<u32, Route>, recs: Seq<OutstandingCmd>) -> Map<
    u32,
    Route,
>
    decreases recs.len(),
{
    if recs.len() == 0 {
        table
    } else {
        table_after_inserts(table.insert(recs[0].proxy_id, route_of(recs[0])), recs.drop_first())
    }
}

/// Whether recording the given records in order never meets a proxy id
/// that is already present: the absence of `DuplicateProxyId`.
pub open spec fn inserts_all_fresh(table: Map<u32, Route>, recs: Seq<OutstandingCmd>) -> bool
    decreases recs.len(),
{
    recs.len() == 0 || (!table.contains_key(recs[0].proxy_id) && inserts_all_fresh(
        table.insert(recs[0].proxy_id, route_of(recs[0])),
        recs.drop_first(),
    ))
}

/// Recording a concatenation of records is recording the first part, then
/// the second against the table the first part left behind.
pub proof fn lemma_inserts_split(table: Map<u32, Route>, a: Seq<OutstandingCmd>, b: Seq<
    OutstandingCmd,
>)
    ensures
        table_after_inserts(table, a + b) == table_after_inserts(table_after_inserts(table, a), b),
        inserts_all_fresh(table, a + b) == (inserts_all_fresh(table, a) && inserts_all_fresh(
            table_after_inserts(table, a),
            b,
        )),
    decreases a.len(),
{
    if a.len() == 0 {
        assert(a + b =~= b);
    } else {
        assert((a + b).drop_first() =~= a.drop_first() + b);
        lemma_inserts_split(table.insert(a[0].proxy_id, route_of(a[0])), a.drop_first(), b);
    }
}

/// Whether every route the correspondence table holds restates a record of
/// the given history: the table never invents a pairing of its own.
pub open spec fn table_from_history(table: Map<u32, Route>, history: Seq<OutstandingCmd>) -> bool {
    forall|p: u32|
        #[trigger] table.contains_key(p) ==> exists|i: int|
            0 <= i < history.len() && #[trigger] history[i] == (OutstandingCmd {
                client_id: table[p].client_id,
                proxy_id: p,
                reply_sink: table[p].reply_sink,
            })
}

/// Whether a record is one the given history contains.
pub open spec fn record_in_history(history: Seq<OutstandingCmd>, rec: OutstandingCmd) -> bool {
    exists|i: int| 0 <= i < history.len() && #[trigger] history[i] == rec
}

/// An empty correspondence table invents nothing.
pub proof fn lemma_empty_table_from_history(history: Seq<OutstandingCmd>)
    ensures
        table_from_history(Map::<u32, Route>::empty(), history),
{
}

/// Recording a record drawn from the history keeps the table truthful.
pub proof fn lemma_insert_from_history(
    table: Map<u32, Route>,
    history: Seq<OutstandingCmd>,
    rec: OutstandingCmd,
)
    requires
        table_from_history(table, history),
        record_in_history(history, rec),
    ensures
        table_from_history(table.insert(rec.proxy_id, route_of(rec)), history),
{
    let t2 = table.insert(rec.proxy_id, route_of(rec));
    let i0 = choose|i: int| 0 <= i < history.len() && #[trigger] history[i] == rec;
    assert forall|p: u32| #[trigger] t2.contains_key(p) implies exists|i: int|
        0 <= i < history.len() && #[trigger] history[i] == (OutstandingCmd {
            client_id: t2[p].client_id,
            proxy_id: p,
            reply_sink: t2[p].reply_sink,
        }) by {
        if p == rec.proxy_id {
            assert(history[i0] == (OutstandingCmd {
                client_id: t2[p].client_id,
                proxy_id: p,
                reply_sink: t2[p].reply_sink,
            }));
        } else {
            assert(table.contains_key(p) && t2[p] == table[p]);
        }
    }
}

/// Dropping an entry keeps the table truthful.
pub proof fn lemma_remove_from_history(
    table: Map<u32, Route>,
    history: Seq<OutstandingCmd>,
    p: u32,
)
    requires
        table_from_history(table, history),
    ensures
        table_from_history(table.remove(p), history),
{
    let t2 = table.remove(p);
    assert forall|q: u32| #[trigger] t2.contains_key(q) implies exists|i: int|
        0 <= i < history.len() && #[trigger] history[i] == (OutstandingCmd {
            client_id: t2[q].client_id,
            proxy_id: q,
            reply_sink: t2[q].reply_sink,
        }) by {
        assert(table.contains_key(q) && t2[q] == table[q]);
    }
}

/// Recording any batch of records drawn from the history, in any order,
/// keeps the table truthful.
pub proof fn lemma_inserts_from_history(
    table: Map<u32, Route>,
    history: Seq<OutstandingCmd>,
    recs: Seq<OutstandingCmd>,
)
    requires
        table_from_history(table, history),
        forall|j: int|
            0 <= j < recs.len() ==> #[trigger] record_in_history(history, recs[j]),
    ensures
        table_from_history(table_after_inserts(table, recs), history),
    decreases recs.len(),
{
    if recs.len() > 0 {
        assert(record_in_history(history, recs[0]));
        lemma_insert_from_history(table, history, recs[0]);
        let t2 = table.insert(recs[0].proxy_id, route_of(recs[0]));
        assert forall|j: int|
            0 <= j < recs.drop_first().len() implies #[trigger] record_in_history(
            history,
            recs.drop_first()[j],
        ) by {
            assert(recs.drop_first()[j] == recs[j + 1]);
            assert(record_in_history(history, recs[j + 1]));
        }
        lemma_inserts_from_history(t2, history, recs.drop_first());
    }
}

/// Law (end-to-end fidelity): when the reader's table and every record it
/// drains come from the history of one well-formed writer, then any reply
/// the reader routes under proxy id `p` — `process_reply`'s result names
/// the sink and client id of the table's entry for `p` — goes to the reply
/// sink of the request that was assigned `p` and carries the id that
/// request's client chose.
pub proof fn lemma_process_reply_fidelity(
    table: Map<u32, Route>,
    history: Seq<OutstandingCmd>,
    drained: Seq<OutstandingCmd>,
    p: u32,
)
    requires
        writer_history_wf(history),
        table_from_history(table, history),
        forall|j: int|
            0 <= j < drained.len() ==> #[trigger] record_in_history(history, drained[j]),
        table_after_inserts(table, drained).contains_key(p),
    ensures
        p < history.len(),
        history[p as int].proxy_id == p,
        table_after_inserts(table, drained)[p].client_id == history[p as int].client_id,
        table_after_inserts(table, drained)[p].reply_sink == history[p as int].reply_sink,
{
    lemma_inserts_from_history(table, history, drained);
    lemma_no_crosstalk(table_after_inserts(table, drained), history, p);
}

/// Law (id fidelity, no crosstalk): under the history of a single writer,
/// the route the table holds for proxy id `p` restates exactly the request
/// that was assigned `p`; so the reply routed for `p` goes to the sink of
/// the client that submitted that request and carries the id that client
/// chose for it.
pub proof fn lemma_no_crosstalk(table: Map<u32, Route>, history: Seq<OutstandingCmd>, p: u32)
    requires
        writer_history_wf(history),
        table_from_history(table, history),
        table.contains_key(p),
    ensures
        p < history.len(),
        history[p as int].proxy_id == p,
        table[p].client_id == history[p as int].client_id,
        table[p].reply_sink == history[p as int].reply_sink,
{
    let i0 = choose|i: int|
        0 <= i < history.len() && #[trigger] history[i] == (OutstandingCmd {
            client_id: table[p].client_id,
            proxy_id: p,
            reply_sink: table[p].reply_sink,
        });
    assert(history[i0].proxy_id == p);
    assert(i0 == p as int);
}

} // verus!
