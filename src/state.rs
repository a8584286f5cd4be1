use vstd::prelude::*;

use crate::msg::{Ad, AdEventModel, AdModel};

verus! {

/// The whole registry: the ads in insertion order and the cumulative view counter.
#[derive(Clone, Debug, PartialEq, Eq)]
pub struct State {
    pub ads: Vec<Ad>,
    pub total_views: u64,
    /// Reserved; no operation reads it or writes a non-empty value.
    pub plt_address: String,
}

/// Mathematical model of the registry.
pub struct RegistryModel {
    pub ads: Seq<AdModel>,
    pub total_views: nat,
    pub plt_address: Seq<char>,
}

impl View for State {
    type V = RegistryModel;

    open spec fn view(&self) -> RegistryModel {
        RegistryModel {
            ads: self.ads@.map_values(|a: Ad| a@),
            total_views: self.total_views as nat,
            plt_address: self.plt_address@,
        }
    }
}

/// Some ad of the sequence has this id.
pub open spec fn has_id(ads: Seq<AdModel>, id: Seq<char>) -> bool {
    exists|i: int| 0 <= i < ads.len() && #[trigger] ads[i].id == id
}

/// `i` is the first position of an ad with this id.
pub open spec fn is_first_match(ads: Seq<AdModel>, id: Seq<char>, i: int) -> bool {
    &&& 0 <= i < ads.len()
    &&& ads[i].id == id
    &&& forall|j: int| 0 <= j < i ==> #[trigger] ads[j].id != id
}

/// The position of the first ad with this id (meaningful when `has_id`).
pub open spec fn index_of(ads: Seq<AdModel>, id: Seq<char>) -> int {
    choose|i: int| is_first_match(ads, id, i)
}

/// No two ads share an id.
pub open spec fn unique_ids(ads: Seq<AdModel>) -> bool {
    forall|i: int, j: int|
        0 <= i < ads.len() && 0 <= j < ads.len() && i != j ==> #[trigger] ads[i].id
            != #[trigger] ads[j].id
}

/// The ids of the ads, in order.
pub open spec fn ids_of(ads: Seq<AdModel>) -> Seq<Seq<char>> {
    ads.map_values(|a: AdModel| a.id)
}

/// The sum of the view counters of the ads.
pub open spec fn sum_views(ads: Seq<AdModel>) -> nat
    decreases ads.len(),
{
    if ads.len() == 0 {
        0
    } else {
        sum_views(ads.drop_last()) + ads.last().views
    }
}

impl RegistryModel {
    /// Ids are unique, and the counter covers at least the views of the live ads
    /// (deleted ads keep their share of it).
    pub open spec fn wf(self) -> bool {
        &&& unique_ids(self.ads)
        &&& sum_views(self.ads) <= self.total_views
    }
}

/// The registry right after initialization.
pub open spec fn empty_registry() -> RegistryModel {
    RegistryModel { ads: Seq::empty(), total_views: 0, plt_address: Seq::empty() }
}

/// The registry after appending a new ad with no views.
pub open spec fn add_model(
    m: RegistryModel,
    id: Seq<char>,
    image_url: Seq<char>,
    target_url: Seq<char>,
    reward_address: Seq<char>,
) -> RegistryModel {
    RegistryModel {
        ads: m.ads.push(AdModel { id, image_url, target_url, views: 0, reward_address }),
        ..m
    }
}

/// The registry after one impression of the first ad with this id.
pub open spec fn serve_model(m: RegistryModel, id: Seq<char>) -> RegistryModel {
    let i = index_of(m.ads, id);
    RegistryModel {
        ads: m.ads.update(i, AdModel { views: m.ads[i].views + 1, ..m.ads[i] }),
        total_views: m.total_views + 1,
        ..m
    }
}

/// The event of a serve, read from the registry after it.
pub open spec fn serve_event(after: RegistryModel, id: Seq<char>) -> AdEventModel {
    let a = after.ads[index_of(after.ads, id)];
    AdEventModel::ServeAd {
        ad_id: a.id,
        views: a.views,
        image_url: a.image_url,
        target_url: a.target_url,
    }
}

/// The registry after removing the first ad with this id; the counter is kept.
pub open spec fn delete_model(m: RegistryModel, id: Seq<char>) -> RegistryModel {
    RegistryModel { ads: m.ads.remove(index_of(m.ads, id)), ..m }
}

/// The registry after serving each known id of the batch in order.
pub open spec fn batch_model(m: RegistryModel, ids: Seq<Seq<char>>) -> RegistryModel
    decreases ids.len(),
{
    if ids.len() == 0 {
        m
    } else {
        let before = batch_model(m, ids.drop_last());
        if has_id(before.ads, ids.last()) {
            serve_model(before, ids.last())
        } else {
            before
        }
    }
}

/// The events of a batch: one serve event per known id, in input order.
pub open spec fn batch_events(m: RegistryModel, ids: Seq<Seq<char>>) -> Seq<AdEventModel>
    decreases ids.len(),
{
    if ids.len() == 0 {
        Seq::empty()
    } else {
        let before = batch_model(m, ids.drop_last());
        let evs = batch_events(m, ids.drop_last());
        if has_id(before.ads, ids.last()) {
            evs.push(serve_event(serve_model(before, ids.last()), ids.last()))
        } else {
            evs
        }
    }
}

/// The number of ids of the batch that found an ad.
pub open spec fn batch_hits(m: RegistryModel, ids: Seq<Seq<char>>) -> nat
    decreases ids.len(),
{
    if ids.len() == 0 {
        0
    } else {
        let before = batch_model(m, ids.drop_last());
        batch_hits(m, ids.drop_last()) + if has_id(before.ads, ids.last()) {
            1nat
        } else {
            0nat
        }
    }
}

/// A first match, once found, is the one that `index_of` names.
pub proof fn lemma_first_match(ads: Seq<AdModel>, id: Seq<char>, i: int)
    requires
        is_first_match(ads, id, i),
    ensures
        has_id(ads, id),
        index_of(ads, id) == i,
{
    let k = index_of(ads, id);
    assert(is_first_match(ads, id, k));
    if k < i {
        assert(ads[k].id != id);
    } else if i < k {
        assert(ads[i].id != id);
    }
}

/// With unique ids, any position holding the id is the first match.
pub proof fn lemma_unique_match(ads: Seq<AdModel>, id: Seq<char>, i: int)
    requires
        unique_ids(ads),
        0 <= i < ads.len(),
        ads[i].id == id,
    ensures
        has_id(ads, id),
        index_of(ads, id) == i,
{
    assert forall|j: int| 0 <= j < i implies #[trigger] ads[j].id != id by {
        assert(ads[j].id != ads[i].id);
    }
    lemma_first_match(ads, id, i);
}

/// Where the id occurs, a first match exists.
pub proof fn lemma_has_first(ads: Seq<AdModel>, id: Seq<char>)
    requires
        has_id(ads, id),
    ensures
        is_first_match(ads, id, index_of(ads, id)),
    decreases ads.len(),
{
    let w = choose|w: int| 0 <= w < ads.len() && #[trigger] ads[w].id == id;
    if exists|j: int| 0 <= j < w && #[trigger] ads[j].id == id {
        let j = choose|j: int| 0 <= j < w && #[trigger] ads[j].id == id;
        let prefix = ads.subrange(0, w);
        assert(prefix[j].id == id);
        lemma_has_first(prefix, id);
        let k = index_of(prefix, id);
        assert(is_first_match(ads, id, k)) by {
            assert forall|l: int| 0 <= l < k implies #[trigger] ads[l].id != id by {
                assert(prefix[l].id != id);
            }
        }
        lemma_first_match(ads, id, k);
    } else {
        lemma_first_match(ads, id, w);
    }
}

/// Finds the position of the first ad with this id.
pub fn find_ad(ads: &Vec<Ad>, id: &String) -> (r: Option<usize>)
    ensures
        match r {
            Some(i) => i < ads.len() && has_id(ads@.map_values(|a: Ad| a@), id@)
                && index_of(ads@.map_values(|a: Ad| a@), id@) == i,
            None => !has_id(ads@.map_values(|a: Ad| a@), id@),
        },
{
    let ghost models = ads@.map_values(|a: Ad| a@);
    let mut i: usize = 0;
    while i < ads.len()
        invariant
            i <= ads.len(),
            models == ads@.map_values(|a: Ad| a@),
            forall|j: int| 0 <= j < i ==> #[trigger] models[j].id != id@,
        decreases ads.len() - i,
    {
        if ads[i].id == *id {
            proof {
                lemma_first_match(models, id@, i as int);
            }
            return Some(i);
        }
        i = i + 1;
    }
    None
}

} // verus!
verus! {

/// Replacing one ad changes the sum by the difference of the two counters.
pub proof fn lemma_sum_update(ads: Seq<AdModel>, i: int, a: AdModel)
    requires
        0 <= i < ads.len(),
    ensures
        sum_views(ads.update(i, a)) + ads[i].views == sum_views(ads) + a.views,
    decreases ads.len(),
{
    let u = ads.update(i, a);
    if i == ads.len() - 1 {
        assert(u.drop_last() =~= ads.drop_last());
    } else {
        assert(u.drop_last() =~= ads.drop_last().update(i, a));
        lemma_sum_update(ads.drop_last(), i, a);
    }
}

/// Removing one ad lowers the sum by its counter.
pub proof fn lemma_sum_remove(ads: Seq<AdModel>, i: int)
    requires
        0 <= i < ads.len(),
    ensures
        sum_views(ads.remove(i)) + ads[i].views == sum_views(ads),
    decreases ads.len(),
{
    let r = ads.remove(i);
    if i == ads.len() - 1 {
        assert(r =~= ads.drop_last());
    } else {
        assert(r.drop_last() =~= ads.drop_last().remove(i));
        lemma_sum_remove(ads.drop_last(), i);
    }
}

} // verus!
verus! {

impl State {
    /// Tells whether the registry meets its invariant: unique ids, and a
    /// counter at least the sum of the live ads' views.
    pub fn is_well_formed(&self) -> (r: bool)
        ensures
            r == self@.wf(),
    {
        let ghost models = self@.ads;
        let n = self.ads.len();
        let mut i: usize = 0;
        while i < n
            invariant
                n == self.ads.len(),
                models == self@.ads,
                i <= n,
                forall|a: int, b: int|
                    0 <= a < i && 0 <= b < n && a != b ==> #[trigger] models[a].id
                        != #[trigger] models[b].id,
            decreases n - i,
        {
            let mut j: usize = 0;
            while j < n
                invariant
                    n == self.ads.len(),
                    models == self@.ads,
                    i < n,
                    j <= n,
                    forall|a: int, b: int|
                        0 <= a < i && 0 <= b < n && a != b ==> #[trigger] models[a].id
                            != #[trigger] models[b].id,
                    forall|b: int| 0 <= b < j && b != i ==> models[i as int].id != #[trigger] models[b].id,
                decreases n - j,
            {
                if j != i && self.ads[i].id == self.ads[j].id {
                    proof {
                        assert(models[i as int].id == models[j as int].id);
                    }
                    return false;
                }
                j = j + 1;
            }
            i = i + 1;
        }
        let mut sum: u64 = 0;
        let mut k: usize = 0;
        while k < n
            invariant
                n == self.ads.len(),
                models == self@.ads,
                k <= n,
                sum as nat == sum_views(models.take(k as int)),
                sum <= self.total_views,
            decreases n - k,
        {
            proof {
                assert(models.take(k + 1).drop_last() =~= models.take(k as int));
                lemma_sum_prefix(models, k + 1);
            }
            if self.ads[k].views > self.total_views - sum {
                return false;
            }
            sum = sum + self.ads[k].views;
            k = k + 1;
        }
        proof {
            assert(models.take(n as int) =~= models);
        }
        true
    }
}

/// The sum over a prefix bounds the sum over the whole sequence.
proof fn lemma_sum_prefix(ads: Seq<AdModel>, k: int)
    requires
        0 <= k <= ads.len(),
    ensures
        sum_views(ads.take(k)) <= sum_views(ads),
    decreases ads.len(),
{
    if k < ads.len() {
        assert(ads.drop_last().take(k) =~= ads.take(k));
        lemma_sum_prefix(ads.drop_last(), k);
    } else {
        assert(ads.take(k) =~= ads);
    }
}

} // verus!
