//! Remapping of written resources: each resource of a configured type gives
//! column values, gathered per resource address.
use crate::config::marketplace_config::{DbColumn, NFTMarketplaceConfig, ResourceRemapping};
use crate::convert::{standardize_address, standardized};
use crate::error::{IndexerError, IndexerErrorView};
use crate::json::{json_parse, json_path_first, json_text, parse_json, JsonData, JsonValue};
use crate::models::transaction::{Change, Transaction, TxnData, WriteSetChange};
use crate::steps::reduction_step::{update_pairs, updates_wf};
use crate::steps::remappers::event_remapper::{
    db_col, first_bad_path, lemma_first_bad_path, remapping_fields_view,
};
use crate::steps::HashableJsonPath;
use crate::str_map::{
    assoc_get, assoc_insert, entries_by, lemma_entries_insert, lemma_entries_pos, StrMap,
};
use crate::path_syntax::path_evaluable;
use crate::text::str_to_string;
use vstd::prelude::*;

verus! {

/// The source name of columns filled from written resources.
pub const WRITE_SET_CHANGES: &'static str = "write_set_changes";

/// JSON paths of a resource with the columns each fills.
pub open spec fn resource_fields_view(r: ResourceRemapping) -> Seq<(Seq<char>, Seq<(Seq<char>, Seq<char>)>)> {
    Seq::new(
        r.resource_fields.key_seq().len(),
        |j: int|
            (
                r.resource_fields.key_seq()[j],
                r.resource_fields.val_seq()[j]@.map_values(|d: DbColumn| db_col(d)),
            ),
    )
}

/// The remappings a configuration gives, by resource type (a later entry
/// for the same type replaces an earlier one); the first JSON path that does
/// not parse is the error.
pub open spec fn build_resource_remappings(keys: Seq<Seq<char>>, vals: Seq<ResourceRemapping>) -> Result<
    Map<Seq<char>, Seq<(Seq<char>, Seq<(Seq<char>, Seq<char>)>)>>,
    IndexerErrorView,
>
    decreases keys.len(),
{
    if keys.len() == 0 || vals.len() == 0 {
        Ok(Map::empty())
    } else {
        match build_resource_remappings(keys.drop_last(), vals.drop_last()) {
            Err(e) => Err(e),
            Ok(prev) => match first_bad_path(resource_fields_view(vals.last())) {
                Some(p) => Err(IndexerErrorView::InvalidJsonPath(p)),
                None => Ok(prev.insert(keys.last(), resource_fields_view(vals.last()))),
            },
        }
    }
}

/// The column updates gathered so far, per resource address, in order.
pub open spec fn updates_assoc(m: StrMap<StrMap<String>>) -> Seq<(Seq<char>, Seq<(Seq<char>, Seq<char>)>)> {
    entries_by(m, |inner: StrMap<String>| update_pairs(inner))
}

/// `u` with column `column` of resource `address` set to `value`.
pub open spec fn set_update(
    u: Seq<(Seq<char>, Seq<(Seq<char>, Seq<char>)>)>,
    address: Seq<char>,
    column: Seq<char>,
    value: Seq<char>,
) -> Seq<(Seq<char>, Seq<(Seq<char>, Seq<char>)>)> {
    let current = match assoc_get(u, address) {
        Some(x) => x,
        None => Seq::empty(),
    };
    assoc_insert(u, address, assoc_insert(current, column, value))
}

/// The value a JSON path gives a resource column: the string it finds,
/// else empty.
pub open spec fn resource_value(path: Seq<char>, data: JsonData) -> Seq<char> {
    match json_path_first(path, json_text(data)) {
        Some(m) => match m.str_value {
            Some(s) => s,
            None => Seq::empty(),
        },
        None => Seq::empty(),
    }
}

/// The data of a resource: its JSON, or null when it is not JSON.
pub open spec fn resource_data(text: Seq<char>) -> JsonData {
    match json_parse(text) {
        Some(d) => d,
        None => JsonData::Null,
    }
}

/// `u` after `value` is set in each of `columns` of resource `address`.
pub open spec fn apply_resource_columns(
    u: Seq<(Seq<char>, Seq<(Seq<char>, Seq<char>)>)>,
    address: Seq<char>,
    value: Seq<char>,
    columns: Seq<(Seq<char>, Seq<char>)>,
) -> Seq<(Seq<char>, Seq<(Seq<char>, Seq<char>)>)>
    decreases columns.len(),
{
    if columns.len() == 0 {
        u
    } else {
        set_update(
            apply_resource_columns(u, address, value, columns.drop_last()),
            address,
            columns.last().1,
            value,
        )
    }
}

/// `u` after every remapping of `fields` for resource `address`.
pub open spec fn apply_resource_fields(
    u: Seq<(Seq<char>, Seq<(Seq<char>, Seq<char>)>)>,
    address: Seq<char>,
    data: JsonData,
    fields: Seq<(Seq<char>, Seq<(Seq<char>, Seq<char>)>)>,
) -> Seq<(Seq<char>, Seq<(Seq<char>, Seq<char>)>)>
    decreases fields.len(),
{
    if fields.len() == 0 {
        u
    } else {
        let prev = apply_resource_fields(u, address, data, fields.drop_last());
        apply_resource_columns(prev, address, resource_value(fields.last().0, data), fields.last().1)
    }
}

/// The column updates of the written resources `changes`, in order.
pub open spec fn resource_changes(
    remappings: Map<Seq<char>, Seq<(Seq<char>, Seq<(Seq<char>, Seq<char>)>)>>,
    changes: Seq<WriteSetChange>,
) -> Seq<(Seq<char>, Seq<(Seq<char>, Seq<char>)>)>
    decreases changes.len(),
{
    if changes.len() == 0 {
        Seq::empty()
    } else {
        let prev = resource_changes(remappings, changes.drop_last());
        match changes.last().change {
            Some(Change::WriteResource(wr)) => if remappings.contains_key(wr.type_str@) {
                apply_resource_fields(
                    prev,
                    standardized(wr.address@),
                    resource_data(wr.data@),
                    remappings[wr.type_str@],
                )
            } else {
                prev
            },
            _ => prev,
        }
    }
}

/// The JSON paths of the remapping fields `fields`, in order.
pub open spec fn field_paths(fields: Seq<(Seq<char>, Seq<(Seq<char>, Seq<char>)>)>) -> Seq<Seq<char>> {
    fields.map_values(|f: (Seq<char>, Seq<(Seq<char>, Seq<char>)>)| f.0)
}

/// The JSON paths that remapping the write set `changes` evaluates, in
/// order: for each written resource of a configured type, the paths of its
/// remapping.
pub open spec fn resource_paths_used(
    remappings: Map<Seq<char>, Seq<(Seq<char>, Seq<(Seq<char>, Seq<char>)>)>>,
    changes: Seq<WriteSetChange>,
) -> Seq<Seq<char>>
    decreases changes.len(),
{
    if changes.len() == 0 {
        Seq::empty()
    } else {
        let here = match changes[0].change {
            Some(Change::WriteResource(wr)) => if remappings.contains_key(wr.type_str@) {
                field_paths(remappings[wr.type_str@])
            } else {
                Seq::empty()
            },
            _ => Seq::empty(),
        };
        here + resource_paths_used(remappings, changes.drop_first())
    }
}

/// The first of `paths` that the evaluator cannot run.
pub open spec fn first_unevaluable(paths: Seq<Seq<char>>) -> Option<Seq<char>>
    decreases paths.len(),
{
    if paths.len() == 0 {
        None
    } else if !path_evaluable(paths[0]) {
        Some(paths[0])
    } else {
        first_unevaluable(paths.drop_first())
    }
}

/// In a sequence of paths one after the other, the first that cannot be
/// run is the first of the former, if any, else that of the latter.
proof fn lemma_first_unevaluable_concat(a: Seq<Seq<char>>, b: Seq<Seq<char>>)
    ensures
        first_unevaluable(a + b) == (match first_unevaluable(a) {
            Some(p) => Some(p),
            None => first_unevaluable(b),
        }),
    decreases a.len(),
{
    if a.len() == 0 {
        assert(a + b =~= b);
    } else {
        assert((a + b).drop_first() =~= a.drop_first() + b);
        assert((a + b)[0] == a[0]);
        lemma_first_unevaluable_concat(a.drop_first(), b);
    }
}

/// With no path that cannot be run, every path can be.
proof fn lemma_first_unevaluable_none(a: Seq<Seq<char>>)
    requires
        first_unevaluable(a) is None,
    ensures
        forall|k: int| 0 <= k < a.len() ==> path_evaluable(#[trigger] a[k]),
    decreases a.len(),
{
    if a.len() > 0 {
        lemma_first_unevaluable_none(a.drop_first());
        assert forall|k: int| 0 <= k < a.len() implies path_evaluable(#[trigger] a[k]) by {
            if k > 0 {
                assert(a[k] == a.drop_first()[k - 1]);
            }
        }
    }
}

/// What remapping the resources of a transaction gives: an error for a
/// transaction without data, or a user transaction without info, or when a
/// path it comes to evaluate cannot be run (the first such); nothing for
/// other transactions.
pub open spec fn remap_resources_of(
    remappings: Map<Seq<char>, Seq<(Seq<char>, Seq<(Seq<char>, Seq<char>)>)>>,
    txn: Transaction,
) -> Result<Seq<(Seq<char>, Seq<(Seq<char>, Seq<char>)>)>, IndexerErrorView> {
    match txn.txn_data {
        None => Err(IndexerErrorView::MissingTransactionData),
        Some(TxnData::User(_)) => match txn.info {
            None => Err(IndexerErrorView::MissingTransactionInfo),
            Some(info) => match first_unevaluable(resource_paths_used(remappings, info.changes@)) {
                Some(p) => Err(IndexerErrorView::UnevaluableJsonPath(p)),
                None => Ok(resource_changes(remappings, info.changes@)),
            },
        },
        Some(TxnData::Other) => Ok(Seq::empty()),
    }
}

/// Sets column `column` of resource `address` to `value`.
pub(crate) fn set_resource_update(updates: &mut StrMap<StrMap<String>>, address: &String, column: &str, value: String)
    requires
        updates_wf(*old(updates)),
    ensures
        updates_wf(*final(updates)),
        updates_assoc(*final(updates)) == set_update(updates_assoc(*old(updates)), address@, column@, value@),
{
    let ghost g = |inner: StrMap<String>| update_pairs(inner);
    let ghost f = |s: String| s@;
    proof {
        updates.lemma_wf_facts();
        lemma_entries_pos(*updates, g, address@);
    }
    match updates.position(address.as_str()) {
        Some(p) => {
            let ghost before = *updates;
            assert(updates.view_map().contains_key(address@));
            let mut inner = updates.replace_at(p, StrMap::new());
            assert(inner == before.view_map()[address@]);
            let ghost inner0 = inner;
            inner.insert(str_to_string(column), value);
            proof {
                lemma_entries_insert(inner0, inner, column@, value, f);
            }
            let ghost mid = *updates;
            let _ = updates.replace_at(p, inner);
            proof {
                before.lemma_wf_facts();
                assert(before.key_seq()[before.pos_of(address@)] == address@);
                assert(before.key_seq()[p as int] == address@);
                assert(before.pos_of(address@) == p);
                assert(updates.val_seq() =~= before.val_seq().update(p as int, inner));
                lemma_entries_insert(before, *updates, address@, inner, g);
                assert(assoc_get(updates_assoc(before), address@) == Some(update_pairs(inner0)));
                assert forall|k: Seq<char>| #[trigger] updates.view_map().contains_key(k) implies updates.view_map()[k].wf() by {
                    if k != address@ {
                        assert(updates.view_map()[k] == before.view_map()[k]);
                    }
                }
            }
        },
        None => {
            let ghost before = *updates;
            let mut inner: StrMap<String> = StrMap::new();
            let ghost inner0 = inner;
            inner.insert(str_to_string(column), value);
            proof {
                lemma_entries_insert(inner0, inner, column@, value, f);
                assert(update_pairs(inner0) =~= Seq::<(Seq<char>, Seq<char>)>::empty());
            }
            updates.insert(address.clone(), inner);
            proof {
                lemma_entries_insert(before, *updates, address@, inner, g);
                assert forall|k: Seq<char>| #[trigger] updates.view_map().contains_key(k) implies updates.view_map()[k].wf() by {
                    if k != address@ {
                        assert(updates.view_map()[k] == before.view_map()[k]);
                    }
                }
            }
        },
    }
}

/// The remappings held in `m`, by resource type.
pub open spec fn remappings_of(m: StrMap<Vec<(HashableJsonPath, Vec<DbColumn>)>>) -> Map<
    Seq<char>,
    Seq<(Seq<char>, Seq<(Seq<char>, Seq<char>)>)>,
> {
    Map::new(
        |k: Seq<char>| m.view_map().contains_key(k),
        |k: Seq<char>| remapping_fields_view(m.view_map()[k]@),
    )
}

/// Remaps written resources of the configured types into column values per
/// resource address.
pub struct ResourceMapper {
    field_remappings: StrMap<Vec<(HashableJsonPath, Vec<DbColumn>)>>,
}

impl ResourceMapper {
    /// The remappings by resource type.
    pub closed spec fn remappings(&self) -> Map<Seq<char>, Seq<(Seq<char>, Seq<(Seq<char>, Seq<char>)>)>> {
        remappings_of(self.field_remappings)
    }

    #[verifier::type_invariant]
    spec fn inv(self) -> bool {
        self.field_remappings.wf()
    }

    /// The mapper of marketplace `config`: each JSON path of each configured
    /// resource is checked; the first that does not parse is the error.
    pub fn new(config: &NFTMarketplaceConfig) -> (r: Result<ResourceMapper, IndexerError>)
        requires
            config.wf(),
        ensures
            r matches Ok(m) ==> build_resource_remappings(
                config.resources.key_seq(),
                config.resources.val_seq(),
            ) == Ok::<Map<Seq<char>, Seq<(Seq<char>, Seq<(Seq<char>, Seq<char>)>)>>, IndexerErrorView>(
                m.remappings(),
            ),
            r matches Err(e) ==> build_resource_remappings(
                config.resources.key_seq(),
                config.resources.val_seq(),
            ) == Err::<Map<Seq<char>, Seq<(Seq<char>, Seq<(Seq<char>, Seq<char>)>)>>, IndexerErrorView>(e@),
    {
        let ghost keys = config.resources.key_seq();
        let ghost vals = config.resources.val_seq();
        proof {
            config.resources.lemma_wf_facts();
        }
        let n = config.resources.len();
        let mut field_remappings: StrMap<Vec<(HashableJsonPath, Vec<DbColumn>)>> = StrMap::new();
        let mut i: usize = 0;
        assert(keys.take(0) =~= Seq::<Seq<char>>::empty());
        assert(remappings_of(field_remappings) =~= Map::<Seq<char>, Seq<(Seq<char>, Seq<(Seq<char>, Seq<char>)>)>>::empty());
        while i < n
            invariant
                config.wf(),
                keys == config.resources.key_seq(),
                vals == config.resources.val_seq(),
                keys.len() == vals.len(),
                n == keys.len(),
                i <= n,
                field_remappings.wf(),
                build_resource_remappings(keys.take(i as int), vals.take(i as int)) == Ok::<
                    Map<Seq<char>, Seq<(Seq<char>, Seq<(Seq<char>, Seq<char>)>)>>,
                    IndexerErrorView,
                >(remappings_of(field_remappings)),
            decreases n - i,
        {
            proof {
                assert(keys.take(i + 1).drop_last() =~= keys.take(i as int));
                assert(vals.take(i + 1).drop_last() =~= vals.take(i as int));
                assert(keys.take(i + 1).last() == keys[i as int]);
                assert(vals.take(i + 1).last() == vals[i as int]);
            }
            let key = config.resources.key_at(i);
            let remapping = config.resources.value_at(i);
            let fields_map = &remapping.resource_fields;
            let ghost fv = resource_fields_view(*remapping);
            proof {
                fields_map.lemma_wf_facts();
            }
            let mut fields: Vec<(HashableJsonPath, Vec<DbColumn>)> = Vec::new();
            let mut j: usize = 0;
            while j < fields_map.len()
                invariant
                    fields_map.wf(),
                    *fields_map == remapping.resource_fields,
                    fv == resource_fields_view(*remapping),
                    keys == config.resources.key_seq(),
                    vals == config.resources.val_seq(),
                    i < n,
                    n == keys.len(),
                    keys.len() == vals.len(),
                    *remapping == vals[i as int],
                    build_resource_remappings(keys.take(i as int), vals.take(i as int)) is Ok,
                    keys.take(i + 1).drop_last() == keys.take(i as int),
                    vals.take(i + 1).drop_last() == vals.take(i as int),
                    vals.take(i + 1).last() == vals[i as int],
                    fv.len() == fields_map.key_seq().len(),
                    j <= fv.len(),
                    forall|k: int| 0 <= k < j ==> json_path_parses_at(fv, k),
                    remapping_fields_view(fields@) == fv.take(j as int),
                    fields@.len() == j,
                decreases fv.len() - j,
            {
                let path_text = fields_map.key_at(j);
                let path = match HashableJsonPath::new(path_text.as_str()) {
                    Ok(p) => p,
                    Err(e) => {
                        proof {
                            assert(fv[j as int].0 == path_text@);
                            assert forall|k: int| 0 <= k < j implies crate::json::json_path_parses(#[trigger] fv[k].0) by {
                                assert(json_path_parses_at(fv, k));
                            }
                            lemma_first_bad_path(fv, j as int);
                            lemma_resource_build_error_persists(keys, vals, i + 1);
                        }
                        return Err(e);
                    },
                };
                let columns = copy_columns(fields_map.value_at(j));
                let ghost prev = fields@;
                proof {
                    assert(fv[j as int] == (path.path(), columns@.map_values(|d: DbColumn| db_col(d))));
                }
                fields.push((path, columns));
                proof {
                    assert(remapping_fields_view(fields@) =~= remapping_fields_view(prev).push(fv[j as int]));
                    assert(fv.take(j + 1) =~= fv.take(j as int).push(fv[j as int]));
                }
                j = j + 1;
            }
            proof {
                assert forall|k: int| 0 <= k < fv.len() implies crate::json::json_path_parses(#[trigger] fv[k].0) by {
                    assert(json_path_parses_at(fv, k));
                }
                lemma_first_bad_path(fv, fv.len() as int);
                assert(fv.take(fv.len() as int) =~= fv);
            }
            let ghost before = remappings_of(field_remappings);
            field_remappings.insert(key.clone(), fields);
            proof {
                assert(remappings_of(field_remappings) =~= before.insert(keys[i as int], fv));
            }
            i = i + 1;
        }
        assert(keys.take(n as int) =~= keys);
        assert(vals.take(n as int) =~= vals);
        Ok(ResourceMapper { field_remappings })
    }

    /// The first JSON path, in the order remapping `changes` evaluates them,
    /// that the evaluator cannot run.
    fn first_unevaluable_path(&self, changes: &Vec<WriteSetChange>) -> (r: Option<String>)
        ensures
            r matches Some(p) ==> first_unevaluable(resource_paths_used(self.remappings(), changes@)) == Some(p@),
            r is None ==> first_unevaluable(resource_paths_used(self.remappings(), changes@)) is None,
    {
        proof {
            use_type_invariant(self);
        }
        let ghost rm = self.remappings();
        let mut i: usize = 0;
        assert(changes@.skip(0) =~= changes@);
        while i < changes.len()
            invariant
                self.field_remappings.wf(),
                rm == self.remappings(),
                i <= changes@.len(),
                first_unevaluable(resource_paths_used(rm, changes@)) == first_unevaluable(
                    resource_paths_used(rm, changes@.skip(i as int)),
                ),
            decreases changes@.len() - i,
        {
            let ghost rest = changes@.skip(i as int);
            let ghost tail = resource_paths_used(rm, changes@.skip(i + 1));
            proof {
                assert(rest[0] == changes@[i as int]);
                assert(rest.drop_first() =~= changes@.skip(i + 1));
            }
            match &changes[i].change {
                Some(Change::WriteResource(wr)) => {
                    match self.field_remappings.get(wr.type_str.as_str()) {
                        Some(fields) => {
                            let ghost here = field_paths(rm[wr.type_str@]);
                            proof {
                                assert(rm[wr.type_str@] == remapping_fields_view(fields@));
                                assert(resource_paths_used(rm, rest) == here + tail);
                            }
                            let mut k: usize = 0;
                            assert(here.skip(0) =~= here);
                            while k < fields.len()
                                invariant
                                    rm == self.remappings(),
                                    here == field_paths(remapping_fields_view(fields@)),
                                    k <= fields@.len(),
                                    first_unevaluable(resource_paths_used(rm, changes@)) == first_unevaluable(
                                        here.skip(k as int) + tail,
                                    ),
                                decreases fields@.len() - k,
                            {
                                proof {
                                    assert(here.skip(k as int)[0] == fields@[k as int].0.path());
                                    assert((here.skip(k as int) + tail)[0] == here.skip(k as int)[0]);
                                    assert((here.skip(k as int) + tail).drop_first() =~= here.skip(k + 1) + tail);
                                }
                                if !fields[k].0.is_evaluable() {
                                    let bad = str_to_string(fields[k].0.raw());
                                    assert(first_unevaluable(here.skip(k as int) + tail) == Some(bad@));
                                    return Some(bad);
                                }
                                k = k + 1;
                            }
                            assert(here.skip(k as int) + tail =~= tail);
                        },
                        None => {
                            assert(resource_paths_used(rm, rest) =~= tail);
                        },
                    }
                },
                _ => {
                    assert(resource_paths_used(rm, rest) =~= tail);
                },
            }
            i = i + 1;
        }
        assert(resource_paths_used(rm, changes@.skip(i as int)) =~= Seq::<Seq<char>>::empty());
        None
    }

    /// Gathers, per standardized resource address, the column values of the
    /// resources of configured types that a user transaction wrote; a value
    /// is the string its path finds, or empty. Data that is not JSON reads as
    /// null. A transaction without data, or a user transaction without info,
    /// is an error.
    pub fn remap_resources(&self, txn: &Transaction) -> (r: Result<StrMap<StrMap<String>>, IndexerError>)
        ensures
            r matches Ok(m) ==> updates_wf(m) && remap_resources_of(self.remappings(), *txn) == Ok::<
                Seq<(Seq<char>, Seq<(Seq<char>, Seq<char>)>)>,
                IndexerErrorView,
            >(updates_assoc(m)),
            r matches Err(e) ==> remap_resources_of(self.remappings(), *txn) == Err::<
                Seq<(Seq<char>, Seq<(Seq<char>, Seq<char>)>)>,
                IndexerErrorView,
            >(e@),
    {
        proof {
            use_type_invariant(self);
        }
        let txn_data = match &txn.txn_data {
            Some(d) => d,
            None => {
                return Err(IndexerError::MissingTransactionData);
            },
        };
        let mut updates: StrMap<StrMap<String>> = StrMap::new();
        assert(updates_assoc(updates) =~= Seq::<(Seq<char>, Seq<(Seq<char>, Seq<char>)>)>::empty());
        match txn_data {
            TxnData::User(_) => {
                let info = match &txn.info {
                    Some(info) => info,
                    None => {
                        return Err(IndexerError::MissingTransactionInfo);
                    },
                };
                let ghost changes = info.changes@;
                match self.first_unevaluable_path(&info.changes) {
                    Some(p) => {
                        return Err(IndexerError::UnevaluableJsonPath(p));
                    },
                    None => {},
                }
                let mut i: usize = 0;
                assert(changes.take(0) =~= Seq::<WriteSetChange>::empty());
                assert(changes.skip(0) =~= changes);
                while i < info.changes.len()
                    invariant
                        self.field_remappings.wf(),
                        changes == info.changes@,
                        i <= changes.len(),
                        first_unevaluable(resource_paths_used(self.remappings(), changes.skip(i as int))) is None,
                        updates_wf(updates),
                        updates_assoc(updates) == resource_changes(self.remappings(), changes.take(i as int)),
                    decreases changes.len() - i,
                {
                    proof {
                        assert(changes.take(i + 1).drop_last() =~= changes.take(i as int));
                        assert(changes.take(i + 1).last() == changes[i as int]);
                        let rest = changes.skip(i as int);
                        assert(rest[0] == changes[i as int]);
                        assert(rest.drop_first() =~= changes.skip(i + 1));
                        let here = match rest[0].change {
                            Some(Change::WriteResource(wr)) => if self.remappings().contains_key(wr.type_str@) {
                                field_paths(self.remappings()[wr.type_str@])
                            } else {
                                Seq::empty()
                            },
                            _ => Seq::empty(),
                        };
                        lemma_first_unevaluable_concat(here, resource_paths_used(self.remappings(), changes.skip(i + 1)));
                        lemma_first_unevaluable_none(here);
                    }
                    match &info.changes[i].change {
                        Some(Change::WriteResource(wr)) => {
                            let data = match parse_json(wr.data.as_str()) {
                                Some(d) => d,
                                None => JsonValue::Null,
                            };
                            let address = standardize_address(wr.address.as_str());
                            match self.field_remappings.get(wr.type_str.as_str()) {
                                Some(fields) => {
                                    proof {
                                        let fv = remapping_fields_view(fields@);
                                        assert(self.remappings()[wr.type_str@] == fv);
                                        assert forall|k: int| 0 <= k < fields@.len() implies path_evaluable(
                                            #[trigger] fields@[k].0.path(),
                                        ) by {
                                            assert(field_paths(fv)[k] == fields@[k].0.path());
                                        }
                                    }
                                    apply_resource_field_list(&mut updates, &address, &data, fields);
                                },
                                None => {},
                            }
                        },
                        _ => {},
                    }
                    i = i + 1;
                }
                assert(changes.take(changes.len() as int) =~= changes);
                Ok(updates)
            },
            TxnData::Other => Ok(updates),
        }
    }
}

/// Sets, for resource `address`, the values of every remapping of `fields`.
fn apply_resource_field_list(
    updates: &mut StrMap<StrMap<String>>,
    address: &String,
    data: &JsonValue,
    fields: &Vec<(HashableJsonPath, Vec<DbColumn>)>,
)
    requires
        updates_wf(*old(updates)),
        forall|k: int| 0 <= k < fields@.len() ==> path_evaluable(#[trigger] fields@[k].0.path()),
    ensures
        updates_wf(*final(updates)),
        updates_assoc(*final(updates)) == apply_resource_fields(
            updates_assoc(*old(updates)),
            address@,
            data@,
            remapping_fields_view(fields@),
        ),
{
    let ghost fv = remapping_fields_view(fields@);
    let mut i: usize = 0;
    assert(fv.take(0) =~= Seq::<(Seq<char>, Seq<(Seq<char>, Seq<char>)>)>::empty());
    while i < fields.len()
        invariant
            fv == remapping_fields_view(fields@),
            i <= fields@.len(),
            forall|k: int| 0 <= k < fields@.len() ==> path_evaluable(#[trigger] fields@[k].0.path()),
            updates_wf(*updates),
            updates_assoc(*updates) == apply_resource_fields(
                updates_assoc(*old(updates)),
                address@,
                data@,
                fv.take(i as int),
            ),
        decreases fields@.len() - i,
    {
        proof {
            assert(fv.take(i + 1).drop_last() =~= fv.take(i as int));
            assert(fv.take(i + 1).last() == fv[i as int]);
        }
        let path = &fields[i].0;
        let columns = &fields[i].1;
        let value = match path.extract_string(data) {
            Some(s) => s,
            None => String::new(),
        };
        let ghost cols = columns@.map_values(|d: DbColumn| db_col(d));
        let ghost start = updates_assoc(*updates);
        let mut j: usize = 0;
        assert(cols.take(0) =~= Seq::<(Seq<char>, Seq<char>)>::empty());
        while j < columns.len()
            invariant
                cols == columns@.map_values(|d: DbColumn| db_col(d)),
                j <= columns@.len(),
                updates_wf(*updates),
                updates_assoc(*updates) == apply_resource_columns(start, address@, value@, cols.take(j as int)),
            decreases columns@.len() - j,
        {
            proof {
                assert(cols.take(j + 1).drop_last() =~= cols.take(j as int));
                assert(cols.take(j + 1).last() == db_col(columns@[j as int]));
            }
            set_resource_update(updates, address, columns[j].column.as_str(), value.clone());
            j = j + 1;
        }
        assert(cols.take(columns@.len() as int) =~= cols);
        i = i + 1;
    }
    assert(fv.take(fields@.len() as int) =~= fv);
}


/// Whether the path of entry `k` of `fields` parses.
pub open spec fn json_path_parses_at(fields: Seq<(Seq<char>, Seq<(Seq<char>, Seq<char>)>)>, k: int) -> bool {
    crate::json::json_path_parses(fields[k].0)
}

/// Once building the remappings of a prefix of the configuration fails,
/// building all of them fails the same way.
pub proof fn lemma_resource_build_error_persists(keys: Seq<Seq<char>>, vals: Seq<ResourceRemapping>, k: int)
    requires
        keys.len() == vals.len(),
        0 <= k <= keys.len(),
        build_resource_remappings(keys.take(k), vals.take(k)) is Err,
    ensures
        build_resource_remappings(keys, vals) == build_resource_remappings(keys.take(k), vals.take(k)),
    decreases keys.len() - k,
{
    if k == keys.len() {
        assert(keys.take(k) =~= keys);
        assert(vals.take(k) =~= vals);
    } else {
        assert(keys.take(k + 1).drop_last() =~= keys.take(k));
        assert(vals.take(k + 1).drop_last() =~= vals.take(k));
        lemma_resource_build_error_persists(keys, vals, k + 1);
    }
}

/// Copies of the columns of a remapping.
fn copy_columns(columns: &Vec<DbColumn>) -> (r: Vec<DbColumn>)
    ensures
        r@.map_values(|d: DbColumn| db_col(d)) == columns@.map_values(|d: DbColumn| db_col(d)),
{
    let mut out: Vec<DbColumn> = Vec::new();
    let mut i: usize = 0;
    while i < columns.len()
        invariant
            i <= columns@.len(),
            out@.len() == i,
            forall|k: int| 0 <= k < i ==> db_col(#[trigger] out@[k]) == db_col(columns@[k]),
        decreases columns@.len() - i,
    {
        out.push(columns[i].copy());
        i = i + 1;
    }
    assert(out@.map_values(|d: DbColumn| db_col(d)) =~= columns@.map_values(|d: DbColumn| db_col(d)));
    out
}

} // verus!
