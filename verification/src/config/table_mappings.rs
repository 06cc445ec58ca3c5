//! Marketplace configuration by tables and columns: which event types a
//! marketplace emits, and where each column of each table is read from.
use crate::config::marketplace_config::{event_type_name, is_event_type_name, lemma_event_type_name_injective, MarketplaceEventType};
use crate::error::{IndexerError, IndexerErrorView};
use crate::models::nft_models::opt_view;
use crate::steps::{paths_error, HashableJsonPaths};
use crate::str_map::StrMap;
use crate::text::{concat_str, str_to_string};
use vstd::prelude::*;

verus! {

/// The column requirement that holds for every event type.
pub const ALL_EVENTS: &'static str = "all_events";

/// The source of a column read from the event itself.
pub const EVENTS: &'static str = "events";

/// The marketplaces to index.
#[derive(Clone, Debug)]
pub struct NFTMarketplaceConfigs {
    pub marketplaces: Vec<MarketplaceConfig>,
}

/// A marketplace: its name, its event types and its tables, each table
/// under its name.
#[derive(Clone, Debug)]
pub struct MarketplaceConfig {
    pub name: String,
    pub event_types: Vec<EventType>,
    pub tables: Vec<(String, TableConfig)>,
}

/// A Move resource type.
#[derive(Clone, Debug)]
pub struct ResourceType {
    pub move_type: String,
}

/// A field of a resource and the JSON paths it is read from.
#[derive(Clone, Debug)]
pub struct ResourceField {
    pub field_name: String,
    pub path: Vec<String>,
}

/// The three events of one kind of marketplace activity (`listing`,
/// `token_offer` or `collection_offer`).
#[derive(Clone, Debug)]
pub struct EventType {
    pub kind: String,
    pub cancel: String,
    pub fill: String,
    pub place: String,
}

/// The columns of a table, each under its name.
#[derive(Clone, Debug)]
pub struct TableConfig {
    pub columns: Vec<(String, ColumnConfig)>,
}

/// Where a column is read from: its source (the event, when not set), the
/// resource type for a write-set source, the JSON paths, and the event type
/// that needs it (every event type, when not set).
#[derive(Clone, Debug)]
pub struct ColumnConfig {
    pub source: Option<String>,
    pub resource_type: Option<String>,
    pub path: Vec<String>,
    pub event_type: Option<String>,
}

/// A column of a table mapping: column name, source, resource type, paths
/// and required event type.
pub type ColumnEntry = (String, String, Option<String>, HashableJsonPaths, String);

/// A column entry by content.
pub type ColumnEntryView = (Seq<char>, Seq<char>, Option<Seq<char>>, Seq<Seq<char>>, Seq<char>);

/// The content of a column entry.
pub open spec fn column_entry_view(e: ColumnEntry) -> ColumnEntryView {
    (e.0@, e.1@, opt_view(e.2), e.3.paths(), e.4@)
}

/// The paths of a column, as text.
pub open spec fn column_paths(c: ColumnConfig) -> Seq<Seq<char>> {
    c.path@.map_values(|p: String| p@)
}

/// The entry that the column `name` configured by `c` gives.
pub open spec fn column_entry(name: Seq<char>, c: ColumnConfig) -> ColumnEntryView {
    (
        name,
        match c.source {
            Some(s) => s@,
            None => EVENTS@,
        },
        opt_view(c.resource_type),
        column_paths(c),
        match c.event_type {
            Some(e) => e@,
            None => ALL_EVENTS@,
        },
    )
}

/// The entries of a table's columns, in order, or the error of the first
/// column whose paths do not all parse.
pub open spec fn columns_result(cols: Seq<(String, ColumnConfig)>) -> Result<Seq<ColumnEntryView>, IndexerErrorView>
    decreases cols.len(),
{
    if cols.len() == 0 {
        Ok(Seq::empty())
    } else {
        match columns_result(cols.drop_last()) {
            Err(e) => Err(e),
            Ok(s) => {
                let c = cols.last();
                match paths_error(column_paths(c.1)) {
                    Some(e) => Err(e),
                    None => Ok(s.push(column_entry(c.0@, c.1))),
                }
            },
        }
    }
}

/// The table mapping of a marketplace: for each table name, the entries of
/// every table configured under it, in order.
pub open spec fn table_mapping_result(tables: Seq<(String, TableConfig)>) -> Result<
    Map<Seq<char>, Seq<ColumnEntryView>>,
    IndexerErrorView,
>
    decreases tables.len(),
{
    if tables.len() == 0 {
        Ok(Map::empty())
    } else {
        match table_mapping_result(tables.drop_last()) {
            Err(e) => Err(e),
            Ok(m) => {
                let t = tables.last();
                match columns_result(t.1.columns@) {
                    Err(e) => Err(e),
                    Ok(s) => {
                        let before = if m.contains_key(t.0@) {
                            m[t.0@]
                        } else {
                            Seq::empty()
                        };
                        Ok(m.insert(t.0@, before + s))
                    },
                }
            },
        }
    }
}

/// The event type named `s`.
pub open spec fn named_event_type(s: Seq<char>) -> MarketplaceEventType {
    choose|t: MarketplaceEventType| event_type_name(t) == s
}

/// Whether the kind `k` names three event types, with the prefixes
/// `place_`, `cancel_` and `fill_`.
pub open spec fn kind_parses(k: Seq<char>) -> bool {
    &&& is_event_type_name("place_"@ + k)
    &&& is_event_type_name("cancel_"@ + k)
    &&& is_event_type_name("fill_"@ + k)
}

/// Whether every event type of every marketplace has a kind that parses.
pub open spec fn kinds_parse(ms: Seq<MarketplaceConfig>) -> bool {
    forall|i: int, j: int|
        0 <= i < ms.len() && 0 <= j < ms[i].event_types@.len() ==> kind_parses(
            #[trigger] ms[i].event_types@[j].kind@,
        )
}

/// The event mappings after the event types `ets` of the marketplace `name`
/// are added to `ev`: each place, cancel and fill event maps to the
/// marketplace and its event type.
pub open spec fn events_after(
    ev: Map<Seq<char>, (Seq<char>, MarketplaceEventType)>,
    name: Seq<char>,
    ets: Seq<EventType>,
) -> Map<Seq<char>, (Seq<char>, MarketplaceEventType)>
    decreases ets.len(),
{
    if ets.len() == 0 {
        ev
    } else {
        let e = ets.last();
        let k = e.kind@;
        events_after(ev, name, ets.drop_last()).insert(e.place@, (name, named_event_type("place_"@ + k))).insert(
            e.cancel@,
            (name, named_event_type("cancel_"@ + k)),
        ).insert(e.fill@, (name, named_event_type("fill_"@ + k)))
    }
}

/// Event mappings (event type to marketplace and standard event type) and
/// table mappings (marketplace to table mapping) of the marketplaces `ms`;
/// a marketplace without tables gets no table mapping.
pub open spec fn mappings_result(ms: Seq<MarketplaceConfig>) -> Result<
    (Map<Seq<char>, (Seq<char>, MarketplaceEventType)>, Map<Seq<char>, Map<Seq<char>, Seq<ColumnEntryView>>>),
    IndexerErrorView,
>
    decreases ms.len(),
{
    if ms.len() == 0 {
        Ok((Map::empty(), Map::empty()))
    } else {
        match mappings_result(ms.drop_last()) {
            Err(e) => Err(e),
            Ok(prev) => {
                let m = ms.last();
                let ev = events_after(prev.0, m.name@, m.event_types@);
                match table_mapping_result(m.tables@) {
                    Err(e) => Err(e),
                    Ok(t) => Ok(
                        (ev, if m.tables@.len() > 0 {
                            prev.1.insert(m.name@, t)
                        } else {
                            prev.1
                        }),
                    ),
                }
            },
        }
    }
}

/// The event mappings by content.
pub open spec fn events_view(m: StrMap<(String, MarketplaceEventType)>) -> Map<
    Seq<char>,
    (Seq<char>, MarketplaceEventType),
> {
    Map::new(
        |k: Seq<char>| m.view_map().contains_key(k),
        |k: Seq<char>| (m.view_map()[k].0@, m.view_map()[k].1),
    )
}

/// A table mapping by content.
pub open spec fn table_view(m: StrMap<Vec<ColumnEntry>>) -> Map<Seq<char>, Seq<ColumnEntryView>> {
    Map::new(
        |k: Seq<char>| m.view_map().contains_key(k),
        |k: Seq<char>| m.view_map()[k]@.map_values(|e: ColumnEntry| column_entry_view(e)),
    )
}

/// The table mappings by content.
pub open spec fn tables_view(m: StrMap<StrMap<Vec<ColumnEntry>>>) -> Map<
    Seq<char>,
    Map<Seq<char>, Seq<ColumnEntryView>>,
> {
    Map::new(|k: Seq<char>| m.view_map().contains_key(k), |k: Seq<char>| table_view(m.view_map()[k]))
}

/// Whether the table mappings and each of them are well formed.
pub open spec fn tables_wf(m: StrMap<StrMap<Vec<ColumnEntry>>>) -> bool {
    &&& m.wf()
    &&& forall|k: Seq<char>| #[trigger] m.view_map().contains_key(k) ==> m.view_map()[k].wf()
}

/// An error of the columns of a table stays the error of the longer list.
proof fn lemma_columns_error_persists(cols: Seq<(String, ColumnConfig)>, n: int)
    requires
        0 <= n <= cols.len(),
        columns_result(cols.take(n)) is Err,
    ensures
        columns_result(cols) == columns_result(cols.take(n)),
    decreases cols.len() - n,
{
    if n < cols.len() {
        assert(cols.take(n + 1).drop_last() =~= cols.take(n));
        lemma_columns_error_persists(cols, n + 1);
    } else {
        assert(cols.take(n) =~= cols);
    }
}

/// An error of the tables of a marketplace stays the error of the longer
/// list.
proof fn lemma_tables_error_persists(tables: Seq<(String, TableConfig)>, n: int)
    requires
        0 <= n <= tables.len(),
        table_mapping_result(tables.take(n)) is Err,
    ensures
        table_mapping_result(tables) == table_mapping_result(tables.take(n)),
    decreases tables.len() - n,
{
    if n < tables.len() {
        assert(tables.take(n + 1).drop_last() =~= tables.take(n));
        lemma_tables_error_persists(tables, n + 1);
    } else {
        assert(tables.take(n) =~= tables);
    }
}

/// An error of the marketplaces stays the error of the longer list.
proof fn lemma_mappings_error_persists(ms: Seq<MarketplaceConfig>, n: int)
    requires
        0 <= n <= ms.len(),
        mappings_result(ms.take(n)) is Err,
    ensures
        mappings_result(ms) == mappings_result(ms.take(n)),
    decreases ms.len() - n,
{
    if n < ms.len() {
        assert(ms.take(n + 1).drop_last() =~= ms.take(n));
        lemma_mappings_error_persists(ms, n + 1);
    } else {
        assert(ms.take(n) =~= ms);
    }
}

/// The standard event type named by `prefix` and `kind`, for a name known
/// to parse.
fn event_type_of(prefix: &str, kind: &str) -> (r: MarketplaceEventType)
    requires
        is_event_type_name(prefix@ + kind@),
    ensures
        r == named_event_type(prefix@ + kind@),
{
    let name = concat_str(prefix, kind);
    match MarketplaceEventType::from_str(name.as_str()) {
        Ok(t) => {
            proof {
                let c = named_event_type(prefix@ + kind@);
                assert(event_type_name(t) == prefix@ + kind@);
                lemma_event_type_name_injective(t, c);
            }
            t
        },
        Err(_) => {
            assert(false);
            MarketplaceEventType::Unknown
        },
    }
}

/// The entries of the columns `cols`, or the error of the first column whose
/// paths do not all parse.
fn column_entries(cols: &Vec<(String, ColumnConfig)>) -> (r: Result<Vec<ColumnEntry>, IndexerError>)
    ensures
        r matches Ok(v) ==> columns_result(cols@) == Ok::<Seq<ColumnEntryView>, IndexerErrorView>(
            v@.map_values(|e: ColumnEntry| column_entry_view(e)),
        ),
        r matches Err(e) ==> columns_result(cols@) == Err::<Seq<ColumnEntryView>, IndexerErrorView>(e@),
{
    let mut out: Vec<ColumnEntry> = Vec::new();
    let mut i: usize = 0;
    assert(cols@.take(0) =~= Seq::<(String, ColumnConfig)>::empty());
    assert(out@.map_values(|e: ColumnEntry| column_entry_view(e)) =~= Seq::<ColumnEntryView>::empty());
    while i < cols.len()
        invariant
            i <= cols@.len(),
            columns_result(cols@.take(i as int)) == Ok::<Seq<ColumnEntryView>, IndexerErrorView>(
                out@.map_values(|e: ColumnEntry| column_entry_view(e)),
            ),
        decreases cols@.len() - i,
    {
        let (name, c) = &cols[i];
        proof {
            assert(cols@.take(i + 1).drop_last() =~= cols@.take(i as int));
            assert(cols@.take(i + 1).last() == cols@[i as int]);
        }
        let paths = match HashableJsonPaths::new(c.path.clone()) {
            Ok(p) => p,
            Err(e) => {
                proof {
                    lemma_columns_error_persists(cols@, i + 1);
                }
                return Err(e);
            },
        };
        let source = match &c.source {
            Some(s) => s.clone(),
            None => str_to_string(EVENTS),
        };
        let required = match &c.event_type {
            Some(e) => e.clone(),
            None => str_to_string(ALL_EVENTS),
        };
        let entry: ColumnEntry = (name.clone(), source, c.resource_type.clone(), paths, required);
        let ghost before = out@;
        out.push(entry);
        proof {
            assert(column_entry_view(entry) == column_entry(name@, *c));
            assert(out@.map_values(|e: ColumnEntry| column_entry_view(e)) =~= before.map_values(
                |e: ColumnEntry| column_entry_view(e),
            ).push(column_entry_view(entry)));
        }
        i = i + 1;
    }
    assert(cols@.take(i as int) =~= cols@);
    Ok(out)
}

/// The table mapping of the tables `tables`: the column entries of every
/// table under its name, those of a repeated name appended in order.
fn table_mapping(tables: &Vec<(String, TableConfig)>) -> (r: Result<StrMap<Vec<ColumnEntry>>, IndexerError>)
    ensures
        r matches Ok(m) ==> m.wf() && (m.key_seq().len() > 0) == (tables@.len() > 0)
            && table_mapping_result(tables@) == Ok::<
            Map<Seq<char>, Seq<ColumnEntryView>>,
            IndexerErrorView,
        >(table_view(m)),
        r matches Err(e) ==> table_mapping_result(tables@) == Err::<
            Map<Seq<char>, Seq<ColumnEntryView>>,
            IndexerErrorView,
        >(e@),
{
    let mut m: StrMap<Vec<ColumnEntry>> = StrMap::new();
    let mut i: usize = 0;
    assert(tables@.take(0) =~= Seq::<(String, TableConfig)>::empty());
    assert(table_view(m) =~= Map::<Seq<char>, Seq<ColumnEntryView>>::empty());
    while i < tables.len()
        invariant
            i <= tables@.len(),
            m.wf(),
            (m.key_seq().len() > 0) == (i > 0),
            table_mapping_result(tables@.take(i as int)) == Ok::<
                Map<Seq<char>, Seq<ColumnEntryView>>,
                IndexerErrorView,
            >(table_view(m)),
        decreases tables@.len() - i,
    {
        let (name, t) = &tables[i];
        proof {
            assert(tables@.take(i + 1).drop_last() =~= tables@.take(i as int));
            assert(tables@.take(i + 1).last() == tables@[i as int]);
        }
        let entries = match column_entries(&t.columns) {
            Ok(v) => v,
            Err(e) => {
                proof {
                    lemma_tables_error_persists(tables@, i + 1);
                }
                return Err(e);
            },
        };
        let ghost prev = table_view(m);
        let ghost added = entries@.map_values(|e: ColumnEntry| column_entry_view(e));
        proof {
            m.lemma_wf_facts();
        }
        match m.position(name.as_str()) {
            Some(p) => {
                let ghost m0 = m;
                let mut existing = m.replace_at(p, Vec::new());
                let ghost old_entries = existing@;
                assert(old_entries == m0.view_map()[name@]@) by {
                    m0.lemma_wf_facts();
                }
                let mut more = entries;
                existing.append(&mut more);
                m.set_at(p, existing);
                proof {
                    assert(existing@.map_values(|e: ColumnEntry| column_entry_view(e)) =~= old_entries.map_values(
                        |e: ColumnEntry| column_entry_view(e),
                    ) + added);
                    assert(table_view(m) =~= prev.insert(name@, prev[name@] + added));
                }
            },
            None => {
                m.insert(name.clone(), entries);
                proof {
                    assert(Seq::<ColumnEntryView>::empty() + added =~= added);
                    assert(table_view(m) =~= prev.insert(name@, Seq::<ColumnEntryView>::empty() + added));
                }
            },
        }
        i = i + 1;
    }
    assert(tables@.take(i as int) =~= tables@);
    Ok(m)
}

impl NFTMarketplaceConfigs {
    /// The event mappings (each place, cancel and fill event type to its
    /// marketplace and standard event type, a later marketplace winning) and
    /// the table mappings (each marketplace with tables to its table
    /// mapping); the error of the first column whose paths do not parse.
    pub fn get_mappings(&self) -> (r: Result<
        (StrMap<(String, MarketplaceEventType)>, StrMap<StrMap<Vec<ColumnEntry>>>),
        IndexerError,
    >)
        requires
            kinds_parse(self.marketplaces@),
        ensures
            r matches Ok(v) ==> v.0.wf() && tables_wf(v.1) && mappings_result(self.marketplaces@) == Ok::<
                (
                    Map<Seq<char>, (Seq<char>, MarketplaceEventType)>,
                    Map<Seq<char>, Map<Seq<char>, Seq<ColumnEntryView>>>,
                ),
                IndexerErrorView,
            >((events_view(v.0), tables_view(v.1))),
            r matches Err(e) ==> mappings_result(self.marketplaces@) == Err::<
                (
                    Map<Seq<char>, (Seq<char>, MarketplaceEventType)>,
                    Map<Seq<char>, Map<Seq<char>, Seq<ColumnEntryView>>>,
                ),
                IndexerErrorView,
            >(e@),
    {
        let ghost ms = self.marketplaces@;
        let mut event_mappings: StrMap<(String, MarketplaceEventType)> = StrMap::new();
        let mut table_mappings: StrMap<StrMap<Vec<ColumnEntry>>> = StrMap::new();
        let mut i: usize = 0;
        assert(ms.take(0) =~= Seq::<MarketplaceConfig>::empty());
        assert(events_view(event_mappings) =~= Map::<Seq<char>, (Seq<char>, MarketplaceEventType)>::empty());
        assert(tables_view(table_mappings) =~= Map::<Seq<char>, Map<Seq<char>, Seq<ColumnEntryView>>>::empty());
        while i < self.marketplaces.len()
            invariant
                ms == self.marketplaces@,
                kinds_parse(ms),
                i <= ms.len(),
                event_mappings.wf(),
                tables_wf(table_mappings),
                mappings_result(ms.take(i as int)) == Ok::<
                    (
                        Map<Seq<char>, (Seq<char>, MarketplaceEventType)>,
                        Map<Seq<char>, Map<Seq<char>, Seq<ColumnEntryView>>>,
                    ),
                    IndexerErrorView,
                >((events_view(event_mappings), tables_view(table_mappings))),
            decreases ms.len() - i,
        {
            let marketplace = &self.marketplaces[i];
            proof {
                assert(ms.take(i + 1).drop_last() =~= ms.take(i as int));
                assert(ms.take(i + 1).last() == ms[i as int]);
            }
            let ghost ev0 = events_view(event_mappings);
            let ghost name = marketplace.name@;
            let ghost ets = marketplace.event_types@;
            let mut j: usize = 0;
            assert(ets.take(0) =~= Seq::<EventType>::empty());
            while j < marketplace.event_types.len()
                invariant
                    ms == self.marketplaces@,
                    kinds_parse(ms),
                    i < ms.len(),
                    marketplace == ms[i as int],
                    ets == marketplace.event_types@,
                    name == marketplace.name@,
                    j <= ets.len(),
                    event_mappings.wf(),
                    events_view(event_mappings) == events_after(ev0, name, ets.take(j as int)),
                decreases ets.len() - j,
            {
                let et = &marketplace.event_types[j];
                proof {
                    assert(ets.take(j + 1).drop_last() =~= ets.take(j as int));
                    assert(ets.take(j + 1).last() == ets[j as int]);
                    assert(kind_parses(ms[i as int].event_types@[j as int].kind@));
                }
                let kind = et.kind.as_str();
                let place = event_type_of("place_", kind);
                let cancel = event_type_of("cancel_", kind);
                let fill = event_type_of("fill_", kind);
                let ghost e0 = events_view(event_mappings);
                event_mappings.insert(et.place.clone(), (marketplace.name.clone(), place));
                let ghost e1 = events_view(event_mappings);
                assert(e1 =~= e0.insert(et.place@, (name, place)));
                event_mappings.insert(et.cancel.clone(), (marketplace.name.clone(), cancel));
                let ghost e2 = events_view(event_mappings);
                assert(e2 =~= e1.insert(et.cancel@, (name, cancel)));
                event_mappings.insert(et.fill.clone(), (marketplace.name.clone(), fill));
                assert(events_view(event_mappings) =~= e2.insert(et.fill@, (name, fill)));
                j = j + 1;
            }
            assert(ets.take(j as int) =~= ets);
            let tm = match table_mapping(&marketplace.tables) {
                Ok(t) => t,
                Err(e) => {
                    proof {
                        lemma_mappings_error_persists(ms, i + 1);
                    }
                    return Err(e);
                },
            };
            if tm.len() > 0 {
                let ghost before = tables_view(table_mappings);
                let ghost tv = table_view(tm);
                table_mappings.insert(marketplace.name.clone(), tm);
                proof {
                    assert(tables_view(table_mappings) =~= before.insert(name, tv));
                }
            }
            i = i + 1;
        }
        assert(ms.take(i as int) =~= ms);
        Ok((event_mappings, table_mappings))
    }
}

} // verus!
