//! The remapping step: events and resources of a batch of transactions
//! turned into rows, with the activities grouped by transaction version.
use crate::config::marketplace_config::{EventTypeView, NFTMarketplaceConfig};
use crate::error::{IndexerError, IndexerErrorView};
use crate::models::nft_models::{
    CurrentNFTMarketplaceCollectionOffer, CurrentNFTMarketplaceCollectionOfferView,
    CurrentNFTMarketplaceListing, CurrentNFTMarketplaceListingView,
    CurrentNFTMarketplaceTokenOffer, CurrentNFTMarketplaceTokenOfferView, MarketplaceModel,
    NftMarketplaceActivity, NftMarketplaceActivityView,
};
use crate::models::transaction::Transaction;
use crate::steps::reduction_step::{update_pairs, updates_wf};
use crate::steps::remappers::event_remapper::{
    build_remappings, remap_transaction, remappable, remappable_txn, EventRemapper, RemappedRows,
};
use crate::steps::remappers::resource_remapper::{
    build_resource_remappings, remap_resources_of, set_update, updates_assoc, ResourceMapper,
};
use crate::str_map::StrMap;
use crate::text::str_to_string;
use vstd::prelude::*;

verus! {

/// The contents of a sequence of activities.
pub open spec fn activity_views(acts: Seq<NftMarketplaceActivity>) -> Seq<NftMarketplaceActivityView> {
    acts.map_values(|a: NftMarketplaceActivity| a@)
}

/// The concatenation of groups, in order.
pub open spec fn flatten_groups(groups: Seq<Seq<NftMarketplaceActivityView>>) -> Seq<NftMarketplaceActivityView>
    decreases groups.len(),
{
    if groups.len() == 0 {
        Seq::empty()
    } else {
        flatten_groups(groups.drop_last()) + groups.last()
    }
}

/// The position of the first activity of `acts` that `row` matches;
/// `acts.len()` when none does.
pub open spec fn first_match<T: MarketplaceModel>(row: T::V, acts: Seq<NftMarketplaceActivityView>) -> int
    decreases acts.len(),
{
    if acts.len() == 0 {
        0
    } else if T::row_matches(row, acts[0]) {
        0
    } else {
        1 + first_match::<T>(row, acts.drop_first())
    }
}

/// `first_match` is a position of the sequence or its length, and no
/// activity before it matches.
pub proof fn lemma_first_match<T: MarketplaceModel>(row: T::V, acts: Seq<NftMarketplaceActivityView>)
    ensures
        0 <= first_match::<T>(row, acts) <= acts.len(),
        first_match::<T>(row, acts) < acts.len() ==> T::row_matches(
            row,
            acts[first_match::<T>(row, acts)],
        ),
        forall|j: int| 0 <= j < first_match::<T>(row, acts) ==> !T::row_matches(row, #[trigger] acts[j]),
    decreases acts.len(),
{
    if acts.len() > 0 && !T::row_matches(row, acts[0]) {
        lemma_first_match::<T>(row, acts.drop_first());
        assert forall|j: int| 0 <= j < first_match::<T>(row, acts) implies !T::row_matches(
            row,
            #[trigger] acts[j],
        ) by {
            if j > 0 {
                assert(acts[j] == acts.drop_first()[j - 1]);
            }
        }
    }
}

/// Activities grouped by the version of their transaction: the versions in
/// order of first appearance, each once, and each group in arrival order.
pub struct ActivityGroups {
    versions: Vec<i64>,
    groups: Vec<Vec<NftMarketplaceActivity>>,
}

impl ActivityGroups {
    /// The versions, in order of first appearance.
    pub closed spec fn versions(&self) -> Seq<i64> {
        self.versions@
    }

    /// The groups, in the order of their versions.
    pub closed spec fn group_views(&self) -> Seq<Seq<NftMarketplaceActivityView>> {
        self.groups@.map_values(|g: Vec<NftMarketplaceActivity>| activity_views(g@))
    }

    /// Each version once, one group per version, every activity of a group
    /// of that version.
    pub open spec fn wf(&self) -> bool {
        &&& self.versions().len() == self.group_views().len()
        &&& self.versions().no_duplicates()
        &&& forall|i: int, j: int|
            0 <= i < self.group_views().len() && 0 <= j < self.group_views()[i].len()
                ==> #[trigger] self.group_views()[i][j].txn_version == self.versions()[i]
    }

    /// No activities.
    pub fn new() -> (r: ActivityGroups)
        ensures
            r.wf(),
            r.versions() == Seq::<i64>::empty(),
            r.group_views() == Seq::<Seq<NftMarketplaceActivityView>>::empty(),
    {
        let r = ActivityGroups { versions: Vec::new(), groups: Vec::new() };
        assert(r.group_views() =~= Seq::<Seq<NftMarketplaceActivityView>>::empty());
        r
    }

    /// The position of the group of `version`, if there is one.
    pub fn position(&self, version: i64) -> (r: Option<usize>)
        requires
            self.wf(),
        ensures
            r matches Some(i) ==> i < self.versions().len() && self.versions()[i as int] == version,
            r is None ==> !self.versions().contains(version),
    {
        let mut i: usize = 0;
        while i < self.versions.len()
            invariant
                i <= self.versions@.len(),
                forall|k: int| 0 <= k < i ==> self.versions@[k] != version,
            decreases self.versions@.len() - i,
        {
            if self.versions[i] == version {
                return Some(i);
            }
            i = i + 1;
        }
        None
    }

    /// Adds `activity` to the group of its version, opening the group if it
    /// is the first of that version.
    pub fn push(&mut self, activity: NftMarketplaceActivity)
        requires
            old(self).wf(),
        ensures
            final(self).wf(),
            old(self).versions().contains(activity.txn_version) ==> final(self).versions()
                == old(self).versions() && final(self).group_views() == old(self).group_views().update(
                old(self).versions().index_of(activity.txn_version),
                old(self).group_views()[old(self).versions().index_of(activity.txn_version)].push(
                    activity@,
                ),
            ),
            !old(self).versions().contains(activity.txn_version) ==> final(self).versions()
                == old(self).versions().push(activity.txn_version) && final(self).group_views()
                == old(self).group_views().push(seq![activity@]),
    {
        let ghost a = activity@;
        let version = activity.txn_version;
        match self.position(version) {
            Some(i) => {
                proof {
                    assert(self.versions@[i as int] == version);
                    let j = self.versions@.index_of(version);
                    assert(self.versions@[j] == version);
                    assert(j == i);
                }
                let ghost before = self.groups@[i as int];
                self.groups[i].push(activity);
                proof {
                    assert(activity_views(self.groups@[i as int]@) =~= activity_views(before@).push(a));
                    assert(self.group_views() =~= old(self).group_views().update(
                        i as int,
                        old(self).group_views()[i as int].push(a),
                    ));
                }
            },
            None => {
                self.versions.push(version);
                let mut g: Vec<NftMarketplaceActivity> = Vec::new();
                g.push(activity);
                self.groups.push(g);
                proof {
                    assert(activity_views(g@) =~= seq![a]);
                    assert(self.group_views() =~= old(self).group_views().push(seq![a]));
                    assert forall|x: int, y: int|
                        0 <= x < self.versions@.len() && 0 <= y < self.versions@.len() && x != y implies self.versions@[x]
                        != self.versions@[y] by {
                        if x < old(self).versions@.len() && y < old(self).versions@.len() {
                            assert(old(self).versions().no_duplicates());
                        } else if x < old(self).versions@.len() {
                            assert(old(self).versions@[x] != version);
                        } else if y < old(self).versions@.len() {
                            assert(old(self).versions@[y] != version);
                        }
                    }
                }
            },
        }
    }

    /// The position in group `gi` of the first activity that `row` matches,
    /// if any does.
    pub fn find_match<T: MarketplaceModel>(&self, gi: usize, row: &T) -> (r: Option<usize>)
        requires
            self.wf(),
            gi < self.versions().len(),
        ensures
            r matches Some(j) ==> j == first_match::<T>(row@, self.group_views()[gi as int]) && j
                < self.group_views()[gi as int].len(),
            r is None ==> first_match::<T>(row@, self.group_views()[gi as int])
                == self.group_views()[gi as int].len(),
    {
        let ghost acts = self.group_views()[gi as int];
        proof {
            lemma_first_match::<T>(row@, acts);
        }
        let g = &self.groups[gi];
        assert(acts == activity_views(g@));
        let mut j: usize = 0;
        while j < g.len()
            invariant
                acts == activity_views(g@),
                acts == self.group_views()[gi as int],
                j <= g@.len(),
                j <= first_match::<T>(row@, acts),
                0 <= first_match::<T>(row@, acts) <= acts.len(),
                first_match::<T>(row@, acts) < acts.len() ==> T::row_matches(
                    row@,
                    acts[first_match::<T>(row@, acts)],
                ),
                forall|k: int| 0 <= k < first_match::<T>(row@, acts) ==> !T::row_matches(row@, #[trigger] acts[k]),
            decreases g@.len() - j,
        {
            if row.matches_activity(&g[j]) {
                assert(acts[j as int] == g@[j as int]@);
                proof {
                    if (j as int) < first_match::<T>(row@, acts) {
                        assert(!T::row_matches(row@, acts[j as int]));
                    }
                }
                return Some(j);
            }
            assert(acts[j as int] == g@[j as int]@);
            j = j + 1;
        }
        None
    }

    /// Sets `column` of activity `ai` of group `gi` from `value`.
    pub fn set_activity_field(&mut self, gi: usize, ai: usize, column: &str, value: String)
        requires
            old(self).wf(),
            gi < old(self).versions().len(),
            ai < old(self).group_views()[gi as int].len(),
        ensures
            final(self).wf(),
            final(self).versions() == old(self).versions(),
            final(self).group_views() == old(self).group_views().update(
                gi as int,
                old(self).group_views()[gi as int].update(
                    ai as int,
                    NftMarketplaceActivity::with_column(
                        old(self).group_views()[gi as int][ai as int],
                        column@,
                        value@,
                    ),
                ),
            ),
    {
        let ghost g0 = self.groups@[gi as int];
        let ghost a0 = g0@[ai as int]@;
        self.groups[gi][ai].set_field(column, value);
        proof {
            let g1 = self.groups@[gi as int];
            assert(g1@ == g0@.update(ai as int, g1@[ai as int]));
            assert(activity_views(g1@) =~= activity_views(g0@).update(ai as int, g1@[ai as int]@));
            assert(self.group_views() =~= old(self).group_views().update(
                gi as int,
                old(self).group_views()[gi as int].update(ai as int, g1@[ai as int]@),
            ));
            assert(g1@[ai as int]@.txn_version == a0.txn_version);
            let gv = self.group_views();
            assert forall|i: int, j: int|
                0 <= i < gv.len() && 0 <= j < gv[i].len() implies #[trigger] gv[i][j].txn_version
                == self.versions()[i] by {
                if i == gi && j == ai {
                    assert(gv[i][j] == g1@[ai as int]@);
                    assert(old(self).group_views()[i][j] == a0);
                } else {
                    assert(gv[i][j] == old(self).group_views()[i][j]);
                }
            }
        }
    }

    /// All activities, group after group.
    pub fn into_activities(self) -> (r: Vec<NftMarketplaceActivity>)
        ensures
            activity_views(r@) == flatten_groups(self.group_views()),
    {
        let ghost gv = self.group_views();
        let mut groups = self.groups;
        let ghost all = groups@;
        let mut out: Vec<NftMarketplaceActivity> = Vec::new();
        let mut i: usize = 0;
        while i < groups.len()
            invariant
                gv == all.map_values(|g: Vec<NftMarketplaceActivity>| activity_views(g@)),
                groups@.len() == all.len(),
                i <= all.len(),
                forall|k: int| i <= k < all.len() ==> groups@[k] == all[k],
                activity_views(out@) == flatten_groups(gv.take(i as int)),
            decreases all.len() - i,
        {
            let mut g: Vec<NftMarketplaceActivity> = Vec::new();
            std::mem::swap(&mut g, &mut groups[i]);
            let ghost before = out@;
            let ghost moved = g@;
            assert(moved == all[i as int]@);
            out.append(&mut g);
            proof {
                assert(gv.take(i + 1).drop_last() =~= gv.take(i as int));
                assert(gv.take(i + 1).last() == activity_views(moved));
                assert(activity_views(out@) =~= activity_views(before) + activity_views(moved));
            }
            i = i + 1;
        }
        assert(gv.take(all.len() as int) =~= gv);
        out
    }
}

/// Versions and groups after one more activity, as `ActivityGroups::push`
/// leaves them.
pub open spec fn push_to_groups(
    state: (Seq<i64>, Seq<Seq<NftMarketplaceActivityView>>),
    a: NftMarketplaceActivityView,
) -> (Seq<i64>, Seq<Seq<NftMarketplaceActivityView>>) {
    if state.0.contains(a.txn_version) {
        let i = state.0.index_of(a.txn_version);
        (state.0, state.1.update(i, state.1[i].push(a)))
    } else {
        (state.0.push(a.txn_version), state.1.push(seq![a]))
    }
}

/// The activities grouped by transaction version: versions in order of
/// first appearance, each group in arrival order.
pub open spec fn group_activities(acts: Seq<NftMarketplaceActivityView>) -> (Seq<i64>, Seq<Seq<NftMarketplaceActivityView>>)
    decreases acts.len(),
{
    if acts.len() == 0 {
        (Seq::empty(), Seq::empty())
    } else {
        push_to_groups(group_activities(acts.drop_last()), acts.last())
    }
}

/// `acc` with the column updates `pairs` of resource `key` set in order.
pub open spec fn merge_resource_pairs(
    acc: Seq<(Seq<char>, Seq<(Seq<char>, Seq<char>)>)>,
    key: Seq<char>,
    pairs: Seq<(Seq<char>, Seq<char>)>,
) -> Seq<(Seq<char>, Seq<(Seq<char>, Seq<char>)>)>
    decreases pairs.len(),
{
    if pairs.len() == 0 {
        acc
    } else {
        set_update(merge_resource_pairs(acc, key, pairs.drop_last()), key, pairs.last().0, pairs.last().1)
    }
}

/// `acc` with every update of `u` merged in, resource by resource; a later
/// value of a column replaces an earlier one.
pub open spec fn merge_resource_updates(
    acc: Seq<(Seq<char>, Seq<(Seq<char>, Seq<char>)>)>,
    u: Seq<(Seq<char>, Seq<(Seq<char>, Seq<char>)>)>,
) -> Seq<(Seq<char>, Seq<(Seq<char>, Seq<char>)>)>
    decreases u.len(),
{
    if u.len() == 0 {
        acc
    } else {
        merge_resource_pairs(merge_resource_updates(acc, u.drop_last()), u.last().0, u.last().1)
    }
}

/// What the remapping step gives for a batch: the activities, listings
/// and offers of its transactions in order, and their resource updates
/// merged; the first transaction whose events, or then resources, fail to
/// remap gives the error.
pub open spec fn process_batch(
    remappings: Seq<(EventTypeView, Seq<(Seq<char>, Seq<(Seq<char>, Seq<char>)>)>)>,
    name: Seq<char>,
    resource_remappings: Map<Seq<char>, Seq<(Seq<char>, Seq<(Seq<char>, Seq<char>)>)>>,
    txns: Seq<Transaction>,
) -> Result<(RemappedRows, Seq<(Seq<char>, Seq<(Seq<char>, Seq<char>)>)>), IndexerErrorView>
    decreases txns.len(),
{
    if txns.len() == 0 {
        Ok(
            (
                RemappedRows {
                    activities: Seq::empty(),
                    listings: Seq::empty(),
                    token_offers: Seq::empty(),
                    collection_offers: Seq::empty(),
                },
                Seq::empty(),
            ),
        )
    } else {
        match process_batch(remappings, name, resource_remappings, txns.drop_last()) {
            Err(e) => Err(e),
            Ok(prev) => match remap_transaction(remappings, name, txns.last()) {
                Err(e) => Err(e),
                Ok(rows) => match remap_resources_of(resource_remappings, txns.last()) {
                    Err(e) => Err(e),
                    Ok(u) => Ok(
                        (
                            RemappedRows {
                                activities: prev.0.activities + rows.activities,
                                listings: prev.0.listings + rows.listings,
                                token_offers: prev.0.token_offers + rows.token_offers,
                                collection_offers: prev.0.collection_offers + rows.collection_offers,
                            },
                            merge_resource_updates(prev.1, u),
                        ),
                    ),
                },
            },
        }
    }
}

/// The remapped activities of a batch and the errors met.
pub struct RemapResult {
    pub activities: Vec<NftMarketplaceActivity>,
    pub errors: Vec<String>,
}

/// The step that remaps the events and resources of each transaction.
pub struct ProcessStep {
    event_remapper: EventRemapper,
    resource_remapper: ResourceMapper,
}

impl ProcessStep {
    /// The event remappings of the step.
    pub closed spec fn remappings(&self) -> Seq<(EventTypeView, Seq<(Seq<char>, Seq<(Seq<char>, Seq<char>)>)>)> {
        self.event_remapper.remappings()
    }

    /// The marketplace name of the step.
    pub closed spec fn marketplace_name(&self) -> Seq<char> {
        self.event_remapper.name()
    }

    /// The resource remappings of the step.
    pub closed spec fn resource_remappings(&self) -> Map<Seq<char>, Seq<(Seq<char>, Seq<(Seq<char>, Seq<char>)>)>> {
        self.resource_remapper.remappings()
    }

    /// The step for marketplace `config`; fails as building the event
    /// remapper, then the resource mapper, fails.
    pub fn new(config: NFTMarketplaceConfig) -> (r: Result<ProcessStep, IndexerError>)
        requires
            config.wf(),
        ensures
            r matches Ok(s) ==> s.marketplace_name() == config.name@ && build_remappings(
                config.events.key_seq(),
                config.events.val_seq(),
            ) == Ok::<Seq<(EventTypeView, Seq<(Seq<char>, Seq<(Seq<char>, Seq<char>)>)>)>, IndexerErrorView>(
                s.remappings(),
            ) && build_resource_remappings(config.resources.key_seq(), config.resources.val_seq())
                == Ok::<Map<Seq<char>, Seq<(Seq<char>, Seq<(Seq<char>, Seq<char>)>)>>, IndexerErrorView>(
                s.resource_remappings(),
            ),
            r matches Err(e) ==> build_remappings(config.events.key_seq(), config.events.val_seq())
                == Err::<Seq<(EventTypeView, Seq<(Seq<char>, Seq<(Seq<char>, Seq<char>)>)>)>, IndexerErrorView>(
                e@,
            ) || (build_remappings(config.events.key_seq(), config.events.val_seq()) is Ok
                && build_resource_remappings(config.resources.key_seq(), config.resources.val_seq())
                == Err::<Map<Seq<char>, Seq<(Seq<char>, Seq<(Seq<char>, Seq<char>)>)>>, IndexerErrorView>(
                e@,
            )),
    {
        let event_remapper = match EventRemapper::new(&config) {
            Ok(m) => m,
            Err(e) => {
                return Err(e);
            },
        };
        let resource_remapper = match ResourceMapper::new(&config) {
            Ok(m) => m,
            Err(e) => {
                return Err(e);
            },
        };
        Ok(ProcessStep { event_remapper, resource_remapper })
    }

    /// Remaps a batch of transactions, each of which must carry a timestamp
    /// that chrono accepts: the activities grouped by transaction version,
    /// the listings and offers in order, and the resource updates merged by
    /// resource address.
    pub fn process(&mut self, transactions: Vec<Transaction>) -> (r: Result<
        (
            ActivityGroups,
            Vec<CurrentNFTMarketplaceListing>,
            Vec<CurrentNFTMarketplaceTokenOffer>,
            Vec<CurrentNFTMarketplaceCollectionOffer>,
            StrMap<StrMap<String>>,
        ),
        IndexerError,
    >)
        requires
            forall|i: int| 0 <= i < transactions@.len() ==> remappable(#[trigger] transactions@[i]),
        ensures
            r matches Ok(out) ==> out.0.wf() && updates_wf(out.4),
            r is Ok ==> process_batch(old(self).remappings(), old(self).marketplace_name(), old(self).resource_remappings(), transactions@) is Ok,
            r matches Ok(out) ==> (out.0.versions(), out.0.group_views()) == group_activities(
                process_batch(old(self).remappings(), old(self).marketplace_name(), old(self).resource_remappings(), transactions@)->Ok_0.0.activities,
            ),
            r matches Ok(out) ==> out.1@.map_values(|l: CurrentNFTMarketplaceListing| l@)
                == process_batch(old(self).remappings(), old(self).marketplace_name(), old(self).resource_remappings(), transactions@)->Ok_0.0.listings,
            r matches Ok(out) ==> out.2@.map_values(|t: CurrentNFTMarketplaceTokenOffer| t@)
                == process_batch(old(self).remappings(), old(self).marketplace_name(), old(self).resource_remappings(), transactions@)->Ok_0.0.token_offers,
            r matches Ok(out) ==> out.3@.map_values(|c: CurrentNFTMarketplaceCollectionOffer| c@)
                == process_batch(old(self).remappings(), old(self).marketplace_name(), old(self).resource_remappings(), transactions@)->Ok_0.0.collection_offers,
            r matches Ok(out) ==> updates_assoc(out.4) == process_batch(old(self).remappings(), old(self).marketplace_name(), old(self).resource_remappings(), transactions@)->Ok_0.1,
            r matches Err(e) ==> process_batch(
                old(self).remappings(),
                old(self).marketplace_name(),
                old(self).resource_remappings(),
                transactions@,
            ) == Err::<(RemappedRows, Seq<(Seq<char>, Seq<(Seq<char>, Seq<char>)>)>), IndexerErrorView>(e@),
            final(self).remappings() == old(self).remappings(),
            final(self).marketplace_name() == old(self).marketplace_name(),
            final(self).resource_remappings() == old(self).resource_remappings(),
    {
        let ghost txns = transactions@;
        let ghost rm = self.remappings();
        let ghost name = self.marketplace_name();
        let ghost rr = self.resource_remappings();
        let n = transactions.len();
        let mut rev = crate::steps::remapper_step::reversed_txns(transactions);
        let mut activities: Vec<NftMarketplaceActivity> = Vec::new();
        let mut listings: Vec<CurrentNFTMarketplaceListing> = Vec::new();
        let mut token_offers: Vec<CurrentNFTMarketplaceTokenOffer> = Vec::new();
        let mut collection_offers: Vec<CurrentNFTMarketplaceCollectionOffer> = Vec::new();
        let mut updates: StrMap<StrMap<String>> = StrMap::new();
        let mut i: usize = 0;
        assert(txns.take(0) =~= Seq::<Transaction>::empty());
        assert(activities@.map_values(|a: NftMarketplaceActivity| a@) =~= Seq::<NftMarketplaceActivityView>::empty());
        assert(listings@.map_values(|l: CurrentNFTMarketplaceListing| l@) =~= Seq::<CurrentNFTMarketplaceListingView>::empty());
        assert(token_offers@.map_values(|t: CurrentNFTMarketplaceTokenOffer| t@) =~= Seq::<CurrentNFTMarketplaceTokenOfferView>::empty());
        assert(collection_offers@.map_values(|c: CurrentNFTMarketplaceCollectionOffer| c@) =~= Seq::<CurrentNFTMarketplaceCollectionOfferView>::empty());
        assert(updates_assoc(updates) =~= Seq::<(Seq<char>, Seq<(Seq<char>, Seq<char>)>)>::empty());
        while i < n
            invariant
                n == txns.len(),
                txns == transactions@,
                i <= n,
                rev@.len() == n - i,
                forall|k: int| 0 <= k < rev@.len() ==> #[trigger] rev@[k] == txns[n - 1 - k],
                forall|k: int| 0 <= k < txns.len() ==> remappable(#[trigger] txns[k]),
                rm == self.remappings(),
                name == self.marketplace_name(),
                rr == self.resource_remappings(),
                rm == old(self).remappings(),
                name == old(self).marketplace_name(),
                rr == old(self).resource_remappings(),
                updates_wf(updates),
                process_batch(rm, name, rr, txns.take(i as int)) == Ok::<
                    (RemappedRows, Seq<(Seq<char>, Seq<(Seq<char>, Seq<char>)>)>),
                    IndexerErrorView,
                >(
                    (
                        RemappedRows {
                            activities: activities@.map_values(|a: NftMarketplaceActivity| a@),
                            listings: listings@.map_values(|l: CurrentNFTMarketplaceListing| l@),
                            token_offers: token_offers@.map_values(|t: CurrentNFTMarketplaceTokenOffer| t@),
                            collection_offers: collection_offers@.map_values(
                                |c: CurrentNFTMarketplaceCollectionOffer| c@,
                            ),
                        },
                        updates_assoc(updates),
                    ),
                ),
            decreases n - i,
        {
            let txn = rev.pop().unwrap();
            proof {
                assert(txn == txns[i as int]);
                assert(txns.take(i + 1).drop_last() =~= txns.take(i as int));
                assert(txns.take(i + 1).last() == txn);
            }
            let ghost the_txn = txn;
            let resources = self.resource_remapper.remap_resources(&txn);
            let remapped = self.event_remapper.remap_events(txn);
            let ghost prefix = process_batch(rm, name, rr, txns.take(i as int));
            assert(prefix is Ok);
            let (mut a, mut l, mut t, mut c) = match remapped {
                Ok(v) => v,
                Err(e) => {
                    proof {
                        assert(remap_transaction(rm, name, the_txn) == Err::<RemappedRows, IndexerErrorView>(e@));
                        assert(process_batch(rm, name, rr, txns.take(i + 1)) == Err::<
                            (RemappedRows, Seq<(Seq<char>, Seq<(Seq<char>, Seq<char>)>)>),
                            IndexerErrorView,
                        >(e@));
                        lemma_batch_error_persists(rm, name, rr, txns, i + 1);
                    }
                    return Err(e);
                },
            };
            let u = match resources {
                Ok(u) => u,
                Err(e) => {
                    proof {
                        assert(remap_resources_of(rr, the_txn) == Err::<Seq<(Seq<char>, Seq<(Seq<char>, Seq<char>)>)>, IndexerErrorView>(e@));
                        assert(process_batch(rm, name, rr, txns.take(i + 1)) == Err::<
                            (RemappedRows, Seq<(Seq<char>, Seq<(Seq<char>, Seq<char>)>)>),
                            IndexerErrorView,
                        >(e@));
                        lemma_batch_error_persists(rm, name, rr, txns, i + 1);
                    }
                    return Err(e);
                },
            };
            let ghost pa = activities@.map_values(|x: NftMarketplaceActivity| x@);
            let ghost pl = listings@.map_values(|x: CurrentNFTMarketplaceListing| x@);
            let ghost pt = token_offers@.map_values(|x: CurrentNFTMarketplaceTokenOffer| x@);
            let ghost pc = collection_offers@.map_values(|x: CurrentNFTMarketplaceCollectionOffer| x@);
            let ghost na = a@.map_values(|x: NftMarketplaceActivity| x@);
            let ghost nl = l@.map_values(|x: CurrentNFTMarketplaceListing| x@);
            let ghost nt = t@.map_values(|x: CurrentNFTMarketplaceTokenOffer| x@);
            let ghost nc = c@.map_values(|x: CurrentNFTMarketplaceCollectionOffer| x@);
            activities.append(&mut a);
            listings.append(&mut l);
            token_offers.append(&mut t);
            collection_offers.append(&mut c);
            proof {
                assert(activities@.map_values(|x: NftMarketplaceActivity| x@) =~= pa + na);
                assert(listings@.map_values(|x: CurrentNFTMarketplaceListing| x@) =~= pl + nl);
                assert(token_offers@.map_values(|x: CurrentNFTMarketplaceTokenOffer| x@) =~= pt + nt);
                assert(collection_offers@.map_values(|x: CurrentNFTMarketplaceCollectionOffer| x@) =~= pc + nc);
            }
            merge_updates_into(&mut updates, u);
            i = i + 1;
        }
        assert(txns.take(n as int) =~= txns);
        let ghost acts = activities@.map_values(|x: NftMarketplaceActivity| x@);
        let groups = group_by_version(activities);
        Ok((groups, listings, token_offers, collection_offers, updates))
    }
}

/// Once a prefix of a batch fails, the batch fails the same way.
pub proof fn lemma_batch_error_persists(
    remappings: Seq<(EventTypeView, Seq<(Seq<char>, Seq<(Seq<char>, Seq<char>)>)>)>,
    name: Seq<char>,
    resource_remappings: Map<Seq<char>, Seq<(Seq<char>, Seq<(Seq<char>, Seq<char>)>)>>,
    txns: Seq<Transaction>,
    k: int,
)
    requires
        0 <= k <= txns.len(),
        process_batch(remappings, name, resource_remappings, txns.take(k)) is Err,
    ensures
        process_batch(remappings, name, resource_remappings, txns) == process_batch(
            remappings,
            name,
            resource_remappings,
            txns.take(k),
        ),
    decreases txns.len() - k,
{
    if k == txns.len() {
        assert(txns.take(k) =~= txns);
    } else {
        assert(txns.take(k + 1).drop_last() =~= txns.take(k));
        lemma_batch_error_persists(remappings, name, resource_remappings, txns, k + 1);
    }
}

/// What `process` gives for a batch it remaps: the activities grouped by
/// transaction version, the listings and offers in order, and the resource
/// updates merged by resource address.
pub open spec fn batch_remapped(
    remappings: Seq<(EventTypeView, Seq<(Seq<char>, Seq<(Seq<char>, Seq<char>)>)>)>,
    name: Seq<char>,
    resource_remappings: Map<Seq<char>, Seq<(Seq<char>, Seq<(Seq<char>, Seq<char>)>)>>,
    txns: Seq<Transaction>,
    out: (
        ActivityGroups,
        Vec<CurrentNFTMarketplaceListing>,
        Vec<CurrentNFTMarketplaceTokenOffer>,
        Vec<CurrentNFTMarketplaceCollectionOffer>,
        StrMap<StrMap<String>>,
    ),
) -> bool {
    let b = process_batch(remappings, name, resource_remappings, txns);
    &&& b is Ok
    &&& out.0.wf()
    &&& updates_wf(out.4)
    &&& (out.0.versions(), out.0.group_views()) == group_activities(b->Ok_0.0.activities)
    &&& out.1@.map_values(|l: CurrentNFTMarketplaceListing| l@) == b->Ok_0.0.listings
    &&& out.2@.map_values(|t: CurrentNFTMarketplaceTokenOffer| t@) == b->Ok_0.0.token_offers
    &&& out.3@.map_values(|c: CurrentNFTMarketplaceCollectionOffer| c@) == b->Ok_0.0.collection_offers
    &&& updates_assoc(out.4) == b->Ok_0.1
}

impl ProcessStep {
    /// The name of the step.
    pub fn name(&self) -> (r: String)
        ensures
            r@ == "ProcessStep"@,
    {
        str_to_string("ProcessStep")
    }

    /// Remaps a batch as `process` does when every transaction carries a
    /// timestamp that chrono accepts; `None`, with nothing remapped, for any
    /// other batch.
    pub fn process_checked(&mut self, transactions: Vec<Transaction>) -> (r: Option<
        Result<
            (
                ActivityGroups,
                Vec<CurrentNFTMarketplaceListing>,
                Vec<CurrentNFTMarketplaceTokenOffer>,
                Vec<CurrentNFTMarketplaceCollectionOffer>,
                StrMap<StrMap<String>>,
            ),
            IndexerError,
        >,
    >)
        ensures
            r is Some <==> forall|i: int| 0 <= i < transactions@.len() ==> remappable(#[trigger] transactions@[i]),
            r matches Some(Ok(out)) ==> batch_remapped(
                old(self).remappings(),
                old(self).marketplace_name(),
                old(self).resource_remappings(),
                transactions@,
                out,
            ),
            r matches Some(Err(e)) ==> process_batch(
                old(self).remappings(),
                old(self).marketplace_name(),
                old(self).resource_remappings(),
                transactions@,
            ) == Err::<(RemappedRows, Seq<(Seq<char>, Seq<(Seq<char>, Seq<char>)>)>), IndexerErrorView>(e@),
            final(self).remappings() == old(self).remappings(),
            final(self).marketplace_name() == old(self).marketplace_name(),
            final(self).resource_remappings() == old(self).resource_remappings(),
    {
        let mut i: usize = 0;
        while i < transactions.len()
            invariant
                i <= transactions@.len(),
                forall|j: int| 0 <= j < i ==> remappable(#[trigger] transactions@[j]),
            decreases transactions@.len() - i,
        {
            if !remappable_txn(&transactions[i]) {
                return None;
            }
            i = i + 1;
        }
        Some(self.process(transactions))
    }
}

/// `txns` back to front.
pub fn reversed_txns(v: Vec<Transaction>) -> (r: Vec<Transaction>)
    ensures
        r@.len() == v@.len(),
        forall|i: int| 0 <= i < v@.len() ==> #[trigger] r@[i] == v@[v@.len() - 1 - i],
{
    let ghost all = v@;
    let mut v = v;
    let mut r: Vec<Transaction> = Vec::new();
    while v.len() > 0
        invariant
            v@.len() + r@.len() == all.len(),
            forall|k: int| 0 <= k < v@.len() ==> v@[k] == all[k],
            forall|k: int| 0 <= k < r@.len() ==> #[trigger] r@[k] == all[all.len() - 1 - k],
        decreases v@.len(),
    {
        let x = v.pop().unwrap();
        r.push(x);
    }
    r
}

/// Merges the resource updates `u` into `updates`, resource by resource and
/// column by column.
fn merge_updates_into(updates: &mut StrMap<StrMap<String>>, u: StrMap<StrMap<String>>)
    requires
        updates_wf(*old(updates)),
        updates_wf(u),
    ensures
        updates_wf(*final(updates)),
        updates_assoc(*final(updates)) == merge_resource_updates(updates_assoc(*old(updates)), updates_assoc(u)),
{
    let ghost uv = updates_assoc(u);
    proof {
        u.lemma_wf_facts();
    }
    let n = u.len();
    let mut i: usize = 0;
    assert(uv.take(0) =~= Seq::<(Seq<char>, Seq<(Seq<char>, Seq<char>)>)>::empty());
    while i < n
        invariant
            updates_wf(u),
            uv == updates_assoc(u),
            n == uv.len(),
            n == u.key_seq().len(),
            i <= n,
            updates_wf(*updates),
            updates_assoc(*updates) == merge_resource_updates(updates_assoc(*old(updates)), uv.take(i as int)),
        decreases n - i,
    {
        proof {
            assert(uv.take(i + 1).drop_last() =~= uv.take(i as int));
            assert(uv.take(i + 1).last() == uv[i as int]);
            u.lemma_wf_facts();
        }
        let key = u.key_at(i);
        let inner = u.value_at(i);
        proof {
            assert(u.view_map().contains_key(key@));
            assert(inner.wf());
            inner.lemma_wf_facts();
        }
        let ghost pairs = update_pairs(*inner);
        let ghost start = updates_assoc(*updates);
        let m = inner.len();
        let mut j: usize = 0;
        assert(pairs.take(0) =~= Seq::<(Seq<char>, Seq<char>)>::empty());
        while j < m
            invariant
                inner.wf(),
                pairs == update_pairs(*inner),
                m == pairs.len(),
                m == inner.key_seq().len(),
                j <= m,
                updates_wf(*updates),
                updates_assoc(*updates) == merge_resource_pairs(start, key@, pairs.take(j as int)),
            decreases m - j,
        {
            proof {
                assert(pairs.take(j + 1).drop_last() =~= pairs.take(j as int));
                assert(pairs.take(j + 1).last() == pairs[j as int]);
            }
            let column = inner.key_at(j);
            let value = inner.value_at(j);
            crate::steps::remappers::resource_remapper::set_resource_update(
                updates,
                key,
                column.as_str(),
                value.clone(),
            );
            j = j + 1;
        }
        assert(pairs.take(m as int) =~= pairs);
        assert(uv[i as int] == (key@, pairs));
        i = i + 1;
    }
    assert(uv.take(n as int) =~= uv);
}

/// Groups activities by transaction version, in order.
fn group_by_version(activities: Vec<NftMarketplaceActivity>) -> (r: ActivityGroups)
    ensures
        r.wf(),
        (r.versions(), r.group_views()) == group_activities(
            activities@.map_values(|a: NftMarketplaceActivity| a@),
        ),
{
    let ghost all = activities@.map_values(|a: NftMarketplaceActivity| a@);
    let n = activities.len();
    let mut rev = reversed(activities);
    let mut groups = ActivityGroups::new();
    let mut i: usize = 0;
    assert(all.take(0) =~= Seq::<NftMarketplaceActivityView>::empty());
    while i < n
        invariant
            n == all.len(),
            i <= n,
            rev@.len() == n - i,
            forall|k: int| 0 <= k < rev@.len() ==> (#[trigger] rev@[k])@ == all[n - 1 - k],
            groups.wf(),
            (groups.versions(), groups.group_views()) == group_activities(all.take(i as int)),
        decreases n - i,
    {
        let a = rev.pop().unwrap();
        proof {
            assert(a@ == all[i as int]);
            assert(all.take(i + 1).drop_last() =~= all.take(i as int));
            assert(all.take(i + 1).last() == a@);
        }
        groups.push(a);
        i = i + 1;
    }
    assert(all.take(n as int) =~= all);
    groups
}

/// `v` back to front.
fn reversed(v: Vec<NftMarketplaceActivity>) -> (r: Vec<NftMarketplaceActivity>)
    ensures
        r@.len() == v@.len(),
        forall|i: int| 0 <= i < v@.len() ==> #[trigger] r@[i] == v@[v@.len() - 1 - i],
{
    let ghost all = v@;
    let mut v = v;
    let mut r: Vec<NftMarketplaceActivity> = Vec::new();
    while v.len() > 0
        invariant
            v@.len() + r@.len() == all.len(),
            forall|k: int| 0 <= k < v@.len() ==> v@[k] == all[k],
            forall|k: int| 0 <= k < r@.len() ==> #[trigger] r@[k] == all[all.len() - 1 - k],
        decreases v@.len(),
    {
        let x = v.pop().unwrap();
        r.push(x);
    }
    r
}

} // verus!
