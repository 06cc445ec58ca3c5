//! The processing step of the marketplace processor: the activities of a
//! batch of transactions, one per event key, in key order.
use crate::keyed_rows::{last_per_key_sorted, keys_increasing, views_of, KeyOrder, SortedRow};
use crate::models::transaction::{Transaction, TxnData};
use crate::models::Event;
use crate::processors::marketplace_config::{contracts_view, mappings_view, MarketplaceEventConfig};
use crate::processors::models::{
    activity_of, event_is_read, event_readable, opt_view, NftMarketplaceActivity, NftMarketplaceActivityView,
};
use crate::json::{json_parse, parse_json};
use crate::steps::reduction_step::reduced_to_last;
use crate::str_map::StrMap;
use crate::text::str_to_string;
use crate::utils::{lemma_block_timestamp_ext, naive_datetime_valid, BlockTimestamp};
use vstd::prelude::*;

verus! {

/// The name under which the processor records its progress.
pub const PROCESSOR_NAME: &'static str = "nft_marketplace_processor";

/// The rows written per statement.
pub const CHUNK_SIZE: usize = 200;

impl SortedRow for NftMarketplaceActivity {
    type Key = (i64, i64);

    open spec fn row_key(v: NftMarketplaceActivityView) -> (i64, i64) {
        (v.txn_version, v.index)
    }

    open spec fn key_less(a: (i64, i64), b: (i64, i64)) -> bool {
        a.0 < b.0 || (a.0 == b.0 && a.1 < b.1)
    }

    proof fn lemma_key_order(a: (i64, i64), b: (i64, i64), c: (i64, i64)) {
    }

    fn compare_key(&self, other: &Self) -> (r: KeyOrder) {
        if self.txn_version < other.txn_version || (self.txn_version == other.txn_version
            && self.index < other.index) {
            KeyOrder::Less
        } else if self.txn_version == other.txn_version && self.index == other.index {
            KeyOrder::Same
        } else {
            KeyOrder::Greater
        }
    }
}

/// The block time of `secs` whole seconds.
pub open spec fn block_time_at(secs: i64) -> BlockTimestamp {
    choose|t: BlockTimestamp| t.secs() == secs && t.nsecs() == 0
}

/// Whether a transaction can be processed: it has data, and a user
/// transaction has a request and a timestamp whose seconds chrono accepts.
pub open spec fn processable(txn: Transaction) -> bool {
    &&& txn.txn_data is Some
    &&& txn.txn_data matches Some(TxnData::User(u)) ==> {
        &&& u.request is Some
        &&& txn.timestamp matches Some(ts) && naive_datetime_valid(ts.seconds, 0)
        &&& u.events@.len() <= i64::MAX
    }
}

/// The activities of the first `k` events of a user transaction, in order.
pub open spec fn event_activities(
    events: Seq<Event>,
    k: int,
    txn_version: i64,
    ts: BlockTimestamp,
    entry: Option<Seq<char>>,
    mappings: Map<Seq<char>, Map<Seq<char>, crate::processors::marketplace_config::MarketplaceEventConfigView>>,
    contracts: Map<Seq<char>, Seq<char>>,
) -> Seq<NftMarketplaceActivityView>
    decreases k,
{
    if k <= 0 {
        Seq::empty()
    } else {
        let prev = event_activities(events, k - 1, txn_version, ts, entry, mappings, contracts);
        match activity_of(events[k - 1], txn_version, (k - 1) as i64, ts, entry, mappings, contracts) {
            Some(a) => prev.push(a),
            None => prev,
        }
    }
}

/// The activities of a transaction: those of its events for a user
/// transaction, none otherwise.
pub open spec fn txn_activities(
    txn: Transaction,
    mappings: Map<Seq<char>, Map<Seq<char>, crate::processors::marketplace_config::MarketplaceEventConfigView>>,
    contracts: Map<Seq<char>, Seq<char>>,
) -> Seq<NftMarketplaceActivityView> {
    match txn.txn_data {
        Some(TxnData::User(u)) => event_activities(
            u.events@,
            u.events@.len() as int,
            txn.version as i64,
            block_time_at(txn.timestamp.unwrap().seconds),
            opt_view(u.request.unwrap().entry_function_id_str),
            mappings,
            contracts,
        ),
        _ => Seq::empty(),
    }
}

/// The activities of a batch, transaction after transaction.
pub open spec fn batch_activities(
    txns: Seq<Transaction>,
    mappings: Map<Seq<char>, Map<Seq<char>, crate::processors::marketplace_config::MarketplaceEventConfigView>>,
    contracts: Map<Seq<char>, Seq<char>>,
) -> Seq<NftMarketplaceActivityView>
    decreases txns.len(),
{
    if txns.len() == 0 {
        Seq::empty()
    } else {
        batch_activities(txns.drop_last(), mappings, contracts) + txn_activities(txns.last(), mappings, contracts)
    }
}

/// `s` back to front.
pub open spec fn reversed_seq<A>(s: Seq<A>) -> Seq<A> {
    Seq::new(s.len(), |i: int| s[s.len() - 1 - i])
}

/// The step that reads marketplace activities from transactions and writes
/// them through the database pool `P`.
pub struct ProcessStep<P> {
    pub event_mappings: StrMap<StrMap<MarketplaceEventConfig>>,
    pub contract_to_marketplace_map: StrMap<String>,
    pub db_pool: P,
}

/// Whether every event of a user transaction can be read (see
/// `event_readable`).
pub open spec fn txn_events_readable(
    txn: Transaction,
    mappings: Map<Seq<char>, Map<Seq<char>, crate::processors::marketplace_config::MarketplaceEventConfigView>>,
    contracts: Map<Seq<char>, Seq<char>>,
) -> bool {
    match txn.txn_data {
        Some(TxnData::User(u)) => forall|j: int|
            0 <= j < u.events@.len() ==> event_readable(#[trigger] u.events@[j], mappings, contracts),
        _ => true,
    }
}

/// Whether the events of a batch can be read.
pub open spec fn batch_events_readable(
    txns: Seq<Transaction>,
    mappings: Map<Seq<char>, Map<Seq<char>, crate::processors::marketplace_config::MarketplaceEventConfigView>>,
    contracts: Map<Seq<char>, Seq<char>>,
) -> bool {
    forall|i: int| 0 <= i < txns.len() ==> txn_events_readable(#[trigger] txns[i], mappings, contracts)
}

impl<P> ProcessStep<P> {
    /// The name of the step.
    pub fn name(&self) -> (r: String)
        ensures
            r@ == "ProcessStep"@,
    {
        str_to_string("ProcessStep")
    }

    /// A step with the given mappings and pool.
    pub fn new(
        event_mappings: StrMap<StrMap<MarketplaceEventConfig>>,
        contract_to_marketplace_map: StrMap<String>,
        db_pool: P,
    ) -> (r: ProcessStep<P>)
        ensures
            r.event_mappings == event_mappings,
            r.contract_to_marketplace_map == contract_to_marketplace_map,
            r.db_pool == db_pool,
    {
        ProcessStep { event_mappings, contract_to_marketplace_map, db_pool }
    }

    /// The activities of a batch as written: every event of a configured
    /// marketplace becomes an activity, and of those with the same version
    /// and index the first is kept; the result is in order of version and
    /// index.
    pub fn process(&self, transactions: Vec<Transaction>) -> (r: Vec<NftMarketplaceActivity>)
        requires
            self.event_mappings.wf(),
            forall|k: Seq<char>| #[trigger] self.event_mappings.view_map().contains_key(k)
                ==> self.event_mappings.view_map()[k].wf(),
            self.contract_to_marketplace_map.wf(),
            forall|i: int| 0 <= i < transactions@.len() ==> processable(#[trigger] transactions@[i]),
            batch_events_readable(
                transactions@,
                mappings_view(self.event_mappings),
                contracts_view(self.contract_to_marketplace_map),
            ),
        ensures
            keys_increasing::<NftMarketplaceActivity>(views_of(r@)),
            reduced_to_last(
                views_of(r@),
                reversed_seq(
                    batch_activities(
                        transactions@,
                        mappings_view(self.event_mappings),
                        contracts_view(self.contract_to_marketplace_map),
                    ),
                ),
                |v: NftMarketplaceActivityView| NftMarketplaceActivity::row_key(v),
            ),
    {
        let ghost mv = mappings_view(self.event_mappings);
        let ghost cv = contracts_view(self.contract_to_marketplace_map);
        let ghost txns = transactions@;
        let mut activities: Vec<NftMarketplaceActivity> = Vec::new();
        let mut t: usize = 0;
        assert(txns.take(0) =~= Seq::<Transaction>::empty());
        assert(views_of(activities@) =~= Seq::<NftMarketplaceActivityView>::empty());
        while t < transactions.len()
            invariant
                txns == transactions@,
                t <= txns.len(),
                mv == mappings_view(self.event_mappings),
                cv == contracts_view(self.contract_to_marketplace_map),
                self.event_mappings.wf(),
                forall|k: Seq<char>| #[trigger] self.event_mappings.view_map().contains_key(k)
                    ==> self.event_mappings.view_map()[k].wf(),
                self.contract_to_marketplace_map.wf(),
                forall|i: int| 0 <= i < txns.len() ==> processable(#[trigger] txns[i]),
                batch_events_readable(txns, mv, cv),
                views_of(activities@) == batch_activities(txns.take(t as int), mv, cv),
            decreases txns.len() - t,
        {
            let txn = &transactions[t];
            proof {
                assert(txns.take(t + 1).drop_last() =~= txns.take(t as int));
                assert(txns.take(t + 1).last() == *txn);
            }
            let ghost before = views_of(activities@);
            let txn_data = match &txn.txn_data {
                Some(d) => d,
                None => {
                    assert(false);
                    return Vec::new();
                },
            };
            if let TxnData::User(tx_inner) = txn_data {
                assert(txn_events_readable(txns[t as int], mv, cv));
                let req = match &tx_inner.request {
                    Some(r) => r,
                    None => {
                        assert(false);
                        return Vec::new();
                    },
                };
                let entry_function_id = &req.entry_function_id_str;
                let seconds = match &txn.timestamp {
                    Some(ts) => ts.seconds,
                    None => {
                        assert(false);
                        return Vec::new();
                    },
                };
                let txn_timestamp = match BlockTimestamp::new(seconds, 0) {
                    Some(b) => b,
                    None => {
                        assert(false);
                        return Vec::new();
                    },
                };
                proof {
                    let c = block_time_at(seconds);
                    lemma_block_timestamp_ext(txn_timestamp, c);
                }
                let txn_version = #[verifier::truncate] (txn.version as i64);
                let events = &tx_inner.events;
                let mut i: usize = 0;
                while i < events.len()
                    invariant
                        events@.len() <= i64::MAX,
                        i <= events@.len(),
                        self.event_mappings.wf(),
                        forall|k: Seq<char>| #[trigger] self.event_mappings.view_map().contains_key(k)
                            ==> self.event_mappings.view_map()[k].wf(),
                        self.contract_to_marketplace_map.wf(),
                        mv == mappings_view(self.event_mappings),
                        cv == contracts_view(self.contract_to_marketplace_map),
                        forall|j: int| 0 <= j < events@.len() ==> event_readable(#[trigger] events@[j], mv, cv),
                        views_of(activities@) == before + event_activities(
                            events@,
                            i as int,
                            txn_version,
                            txn_timestamp,
                            opt_view(*entry_function_id),
                            mv,
                            cv,
                        ),
                    decreases events@.len() - i,
                {
                    let ghost prev = views_of(activities@);
                    match NftMarketplaceActivity::from_event(
                        &events[i],
                        txn_version,
                        i as i64,
                        txn_timestamp,
                        entry_function_id,
                        &self.event_mappings,
                        &self.contract_to_marketplace_map,
                    ) {
                        Some(a) => {
                            let ghost av = a@;
                            activities.push(a);
                            assert(views_of(activities@) =~= prev.push(av));
                        },
                        None => {},
                    }
                    i = i + 1;
                }
                proof {
                    assert(tx_inner.events@.len() <= i64::MAX);
                }
            }
            proof {
                assert(views_of(activities@) =~= before + txn_activities(*txn, mv, cv));
            }
            t = t + 1;
        }
        assert(txns.take(txns.len() as int) =~= txns);
        let ghost all = views_of(activities@);
        let reversed = reverse_activities(activities);
        assert(views_of(reversed@) =~= reversed_seq(all));
        last_per_key_sorted(reversed)
    }
}

/// Activities back to front.
fn reverse_activities(v: Vec<NftMarketplaceActivity>) -> (r: Vec<NftMarketplaceActivity>)
    ensures
        r@.len() == v@.len(),
        forall|i: int| 0 <= i < v@.len() ==> #[trigger] r@[i] == v@[v@.len() - 1 - i],
{
    let ghost all = v@;
    let mut v = v;
    let mut r: Vec<NftMarketplaceActivity> = Vec::new();
    while v.len() > 0
        invariant
            v@.len() + r@.len() == all.len(),
            forall|k: int| 0 <= k < v@.len() ==> v@[k] == all[k],
            forall|k: int| 0 <= k < r@.len() ==> #[trigger] r@[k] == all[all.len() - 1 - k],
        decreases v@.len(),
    {
        let x = v.pop().unwrap();
        r.push(x);
    }
    r
}

/// Whether the processor can read `txn`: it has data, and a user
/// transaction has a request and a timestamp whose seconds chrono accepts.
pub fn processable_txn(txn: &Transaction) -> (r: bool)
    ensures
        r == processable(*txn),
{
    match &txn.txn_data {
        None => false,
        Some(TxnData::Other) => true,
        Some(TxnData::User(u)) => {
            let timely = match &txn.timestamp {
                Some(ts) => BlockTimestamp::new(ts.seconds, 0).is_some(),
                None => false,
            };
            u.request.is_some() && timely && (u.events.len() as u64) <= (i64::MAX as u64)
        },
    }
}

impl<P> ProcessStep<P> {
    /// Whether every event of `txn` can be read: the data of every event the
    /// step reads is JSON, and the evaluator can run the paths it reads with.
    pub fn events_readable(&self, txn: &Transaction) -> (r: bool)
        requires
            self.event_mappings.wf(),
            forall|k: Seq<char>| #[trigger] self.event_mappings.view_map().contains_key(k)
                ==> self.event_mappings.view_map()[k].wf(),
            self.contract_to_marketplace_map.wf(),
        ensures
            r == txn_events_readable(
                *txn,
                mappings_view(self.event_mappings),
                contracts_view(self.contract_to_marketplace_map),
            ),
    {
        let ghost mv = mappings_view(self.event_mappings);
        let ghost cv = contracts_view(self.contract_to_marketplace_map);
        match &txn.txn_data {
            Some(TxnData::User(u)) => {
                let mut j: usize = 0;
                while j < u.events.len()
                    invariant
                        j <= u.events@.len(),
                        txn.txn_data == Some(TxnData::User(*u)),
                        self.event_mappings.wf(),
                        forall|k: Seq<char>| #[trigger] self.event_mappings.view_map().contains_key(k)
                            ==> self.event_mappings.view_map()[k].wf(),
                        self.contract_to_marketplace_map.wf(),
                        mv == mappings_view(self.event_mappings),
                        cv == contracts_view(self.contract_to_marketplace_map),
                        forall|k: int| 0 <= k < j ==> event_readable(#[trigger] u.events@[k], mv, cv),
                    decreases u.events@.len() - j,
                {
                    let e = &u.events[j];
                    let ok = match self.contract_to_marketplace_map.get(e.type_str.as_str()) {
                        Some(name) => match self.event_mappings.get(name.as_str()) {
                            Some(mapping) => {
                                if parse_json(e.data.as_str()).is_none() {
                                    false
                                } else {
                                    match mapping.get(e.type_str.as_str()) {
                                        Some(config) => config.can_read(),
                                        None => true,
                                    }
                                }
                            },
                            None => true,
                        },
                        None => true,
                    };
                    assert(ok == event_readable(*e, mv, cv));
                    if !ok {
                        assert(!event_readable(u.events@[j as int], mv, cv));
                        return false;
                    }
                    j = j + 1;
                }
                true
            },
            _ => true,
        }
    }

    /// The activities of a batch as `process` gives them, when every
    /// transaction and every event of it can be read; `None` for any other
    /// batch (where `process` would panic).
    pub fn process_checked(&self, transactions: Vec<Transaction>) -> (r: Option<Vec<NftMarketplaceActivity>>)
        requires
            self.event_mappings.wf(),
            forall|k: Seq<char>| #[trigger] self.event_mappings.view_map().contains_key(k)
                ==> self.event_mappings.view_map()[k].wf(),
            self.contract_to_marketplace_map.wf(),
        ensures
            r is Some <==> (forall|i: int| 0 <= i < transactions@.len() ==> processable(#[trigger] transactions@[i]))
                && batch_events_readable(
                transactions@,
                mappings_view(self.event_mappings),
                contracts_view(self.contract_to_marketplace_map),
            ),
            r matches Some(v) ==> keys_increasing::<NftMarketplaceActivity>(views_of(v@)) && reduced_to_last(
                views_of(v@),
                reversed_seq(
                    batch_activities(
                        transactions@,
                        mappings_view(self.event_mappings),
                        contracts_view(self.contract_to_marketplace_map),
                    ),
                ),
                |a: NftMarketplaceActivityView| NftMarketplaceActivity::row_key(a),
            ),
    {
        let mut i: usize = 0;
        while i < transactions.len()
            invariant
                i <= transactions@.len(),
                self.event_mappings.wf(),
                forall|k: Seq<char>| #[trigger] self.event_mappings.view_map().contains_key(k)
                    ==> self.event_mappings.view_map()[k].wf(),
                self.contract_to_marketplace_map.wf(),
                forall|j: int| 0 <= j < i ==> processable(#[trigger] transactions@[j]),
                forall|j: int|
                    0 <= j < i ==> txn_events_readable(
                        #[trigger] transactions@[j],
                        mappings_view(self.event_mappings),
                        contracts_view(self.contract_to_marketplace_map),
                    ),
            decreases transactions@.len() - i,
        {
            if !processable_txn(&transactions[i]) || !self.events_readable(&transactions[i]) {
                return None;
            }
            i = i + 1;
        }
        Some(self.process(transactions))
    }
}

} // verus!
