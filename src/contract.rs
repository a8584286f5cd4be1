use vstd::prelude::*;

use crate::msg::{
    events_view, ids_view, Ad, AdEvent, AdEventModel, AdModel, ContractError, ExecuteMsg, InitMsg,
    QueryAdResponse, QueryAllAdsResponse, QueryMsg, QueryResponse, TotalViewsResponse,
};
use crate::state::{
    add_model, batch_events, batch_hits, batch_model, delete_model, empty_registry, find_ad, has_id, index_of, lemma_has_first, lemma_sum_remove,
    lemma_sum_update, lemma_unique_match, serve_event, serve_model, RegistryModel, State,
};

verus! {

/// Counts one impression of the ad at position `i` and returns its serve event.
fn serve_at(state: &mut State, i: usize) -> (ev: AdEvent)
    requires
        old(state)@.wf(),
        old(state).total_views < u64::MAX,
        i < old(state).ads.len(),
    ensures
        final(state)@.wf(),
        has_id(old(state)@.ads, old(state)@.ads[i as int].id),
        index_of(old(state)@.ads, old(state)@.ads[i as int].id) == i,
        final(state)@ == serve_model(old(state)@, old(state)@.ads[i as int].id),
        ev@ == serve_event(final(state)@, old(state)@.ads[i as int].id),
{
    let ghost m = state@;
    let ghost id = m.ads[i as int].id;
    proof {
        lemma_unique_match(m.ads, id, i as int);
        lemma_sum_remove(m.ads, i as int);
    }
    let views = state.ads[i].views + 1;
    state.ads[i].views = views;
    state.total_views = state.total_views + 1;
    let ghost after = serve_model(m, id);
    proof {
        assert(state@.ads =~= after.ads);
        lemma_sum_update(m.ads, i as int, after.ads[i as int]);
        assert forall|a: int, b: int|
            0 <= a < after.ads.len() && 0 <= b < after.ads.len() && a != b
            implies #[trigger] after.ads[a].id != #[trigger] after.ads[b].id by {
            assert(m.ads[a].id != m.ads[b].id);
        }
        lemma_unique_match(after.ads, id, i as int);
    }
    AdEvent::ServeAd {
        ad_id: state.ads[i].id.clone(),
        views,
        image_url: state.ads[i].image_url.clone(),
        target_url: state.ads[i].target_url.clone(),
    }
}

/// Appends a new ad with no views, unless an ad with this id already exists.
pub fn add_ad(
    state: &mut State,
    id: String,
    image_url: String,
    target_url: String,
    reward_address: String,
) -> (r: Result<Vec<AdEvent>, ContractError>)
    requires
        old(state)@.wf(),
    ensures
        final(state)@.wf(),
        r.is_ok() <==> !has_id(old(state)@.ads, id@),
        match r {
            Ok(evs) => {
                &&& final(state)@ == add_model(
                    old(state)@,
                    id@,
                    image_url@,
                    target_url@,
                    reward_address@,
                )
                &&& events_view(evs@) == seq![
                    AdEventModel::AddAd {
                        ad_id: id@,
                        reward_address: reward_address@,
                        image_url: image_url@,
                        target_url: target_url@,
                    },
                ]
            },
            Err(e) => e == ContractError::DuplicateIdentifier && *final(state) == *old(state),
        },
{
    if find_ad(&state.ads, &id).is_some() {
        return Err(ContractError::DuplicateIdentifier);
    }
    let ghost m = state@;
    let ad = Ad {
        id: id.clone(),
        image_url: image_url.clone(),
        target_url: target_url.clone(),
        views: 0,
        reward_address: reward_address.clone(),
    };
    state.ads.push(ad);
    proof {
        let after = add_model(m, id@, image_url@, target_url@, reward_address@);
        assert(state@.ads =~= after.ads);
        assert(after.ads.drop_last() =~= m.ads);
        assert forall|a: int, b: int|
            0 <= a < after.ads.len() && 0 <= b < after.ads.len() && a != b
            implies #[trigger] after.ads[a].id != #[trigger] after.ads[b].id by {
            if a < m.ads.len() && b < m.ads.len() {
                assert(m.ads[a].id != m.ads[b].id);
            } else if a < m.ads.len() {
                assert(m.ads[a].id != id@);
            } else {
                assert(m.ads[b].id != id@);
            }
        }
    }
    let mut evs: Vec<AdEvent> = Vec::new();
    evs.push(AdEvent::AddAd { ad_id: id, reward_address, image_url, target_url });
    proof {
        assert(events_view(evs@) =~= seq![
            AdEventModel::AddAd {
                ad_id: id@,
                reward_address: reward_address@,
                image_url: image_url@,
                target_url: target_url@,
            },
        ]);
    }
    Ok(evs)
}

/// Counts one impression of the ad with this id.
pub fn serve_ad(state: &mut State, id: String) -> (r: Result<Vec<AdEvent>, ContractError>)
    requires
        old(state)@.wf(),
        has_id(old(state)@.ads, id@) ==> old(state).total_views < u64::MAX,
    ensures
        final(state)@.wf(),
        r.is_ok() <==> has_id(old(state)@.ads, id@),
        match r {
            Ok(evs) => {
                &&& final(state)@ == serve_model(old(state)@, id@)
                &&& events_view(evs@) == seq![serve_event(final(state)@, id@)]
            },
            Err(e) => e == ContractError::NotFound && *final(state) == *old(state),
        },
{
    match find_ad(&state.ads, &id) {
        None => Err(ContractError::NotFound),
        Some(i) => {
            proof {
                lemma_has_first(state@.ads, id@);
            }
            let ev = serve_at(state, i);
            let mut evs: Vec<AdEvent> = Vec::new();
            evs.push(ev);
            proof {
                assert(events_view(evs@) =~= seq![serve_event(state@, id@)]);
            }
            Ok(evs)
        },
    }
}

/// Removes the ad with this id; the cumulative counter is left as it is.
pub fn delete_ad(state: &mut State, id: String) -> (r: Result<Vec<AdEvent>, ContractError>)
    requires
        old(state)@.wf(),
    ensures
        final(state)@.wf(),
        r.is_ok() <==> has_id(old(state)@.ads, id@),
        match r {
            Ok(evs) => {
                &&& final(state)@ == delete_model(old(state)@, id@)
                &&& !has_id(final(state)@.ads, id@)
                &&& final(state).total_views == old(state).total_views
                &&& events_view(evs@) == seq![AdEventModel::DeleteAd { ad_id: id@ }]
            },
            Err(e) => e == ContractError::NotFound && *final(state) == *old(state),
        },
{
    match find_ad(&state.ads, &id) {
        None => Err(ContractError::NotFound),
        Some(i) => {
            let ghost m = state@;
            proof {
                lemma_has_first(m.ads, id@);
                lemma_sum_remove(m.ads, i as int);
            }
            let _removed = state.ads.remove(i);
            proof {
                let after = delete_model(m, id@);
                assert(state@.ads =~= after.ads);
                assert forall|a: int, b: int|
                    0 <= a < after.ads.len() && 0 <= b < after.ads.len() && a != b
                    implies #[trigger] after.ads[a].id != #[trigger] after.ads[b].id by {
                    let oa = if a < i { a } else { a + 1 };
                    let ob = if b < i { b } else { b + 1 };
                    assert(m.ads[oa].id != m.ads[ob].id);
                }
                assert forall|a: int| 0 <= a < after.ads.len()
                    implies #[trigger] after.ads[a].id != id@ by {
                    let oa = if a < i { a } else { a + 1 };
                    assert(m.ads[oa].id != m.ads[i as int].id);
                }
            }
            let mut evs: Vec<AdEvent> = Vec::new();
            evs.push(AdEvent::DeleteAd { ad_id: id });
            proof {
                assert(events_view(evs@) =~= seq![AdEventModel::DeleteAd { ad_id: id@ }]);
            }
            Ok(evs)
        },
    }
}

/// Serves each id of the batch in order; ids that match no ad are skipped.
pub fn batch_serve_ads(state: &mut State, ids: Vec<String>) -> (evs: Vec<AdEvent>)
    requires
        old(state)@.wf(),
        old(state).total_views + ids.len() <= u64::MAX,
    ensures
        final(state)@.wf(),
        final(state)@ == batch_model(old(state)@, ids_view(ids@)),
        final(state).total_views == old(state).total_views + batch_hits(
            old(state)@,
            ids_view(ids@),
        ),
        events_view(evs@) == batch_events(old(state)@, ids_view(ids@)),
{
    let ghost m = state@;
    let ghost all = ids_view(ids@);
    let mut evs: Vec<AdEvent> = Vec::new();
    let mut k: usize = 0;
    while k < ids.len()
        invariant
            k <= ids.len(),
            all == ids_view(ids@),
            m.total_views + ids.len() <= u64::MAX,
            state@.wf(),
            state@ == batch_model(m, all.take(k as int)),
            state.total_views == m.total_views + batch_hits(m, all.take(k as int)),
            batch_hits(m, all.take(k as int)) <= k,
            events_view(evs@) == batch_events(m, all.take(k as int)),
        decreases ids.len() - k,
    {
        let ghost prev = all.take(k as int);
        let ghost next = all.take(k + 1);
        proof {
            assert(next.drop_last() =~= prev);
            assert(next.last() == ids@[k as int]@);
        }
        match find_ad(&state.ads, &ids[k]) {
            None => {},
            Some(i) => {
                proof {
                    lemma_has_first(state@.ads, ids@[k as int]@);
                }
                let ghost before_evs = evs@;
                let ev = serve_at(state, i);
                evs.push(ev);
                proof {
                    assert(events_view(evs@) =~= events_view(before_evs).push(ev@));
                }
            },
        }
        k = k + 1;
    }
    proof {
        assert(all.take(ids.len() as int) =~= all);
    }
    evs
}

/// Creates the empty registry.
pub fn instantiate(_msg: InitMsg) -> (state: State)
    ensures
        state@ == empty_registry(),
        state@.wf(),
{
    let state = State { ads: Vec::new(), total_views: 0, plt_address: String::new() };
    proof {
        assert(state@.ads =~= Seq::<AdModel>::empty());
    }
    state
}

/// The fields of one ad, copied into a query answer.
fn ad_response(ad: &Ad) -> (r: QueryAdResponse)
    ensures
        r@ == ad@,
{
    QueryAdResponse {
        id: ad.id.clone(),
        image_url: ad.image_url.clone(),
        target_url: ad.target_url.clone(),
        views: ad.views,
        reward_address: ad.reward_address.clone(),
    }
}

/// Looks up the ad with this id.
pub fn query_ad(state: &State, id: String) -> (r: Result<QueryAdResponse, ContractError>)
    ensures
        r.is_ok() <==> has_id(state@.ads, id@),
        match r {
            Ok(resp) => resp@ == state@.ads[index_of(state@.ads, id@)],
            Err(e) => e == ContractError::NotFound,
        },
{
    match find_ad(&state.ads, &id) {
        None => Err(ContractError::NotFound),
        Some(i) => Ok(ad_response(&state.ads[i])),
    }
}

/// All ads, in insertion order.
pub fn query_all_ads(state: &State) -> (r: QueryAllAdsResponse)
    ensures
        r@ == state@.ads,
{
    let mut ads: Vec<QueryAdResponse> = Vec::new();
    let mut k: usize = 0;
    while k < state.ads.len()
        invariant
            k <= state.ads.len(),
            ads.len() == k,
            forall|j: int| 0 <= j < k ==> (#[trigger] ads@[j])@ == state@.ads[j],
        decreases state.ads.len() - k,
    {
        let resp = ad_response(&state.ads[k]);
        ads.push(resp);
        k = k + 1;
    }
    proof {
        assert(ads@.map_values(|a: QueryAdResponse| a@) =~= state@.ads);
    }
    QueryAllAdsResponse { ads }
}

/// The cumulative number of impressions.
pub fn query_total_views(state: &State) -> (r: TotalViewsResponse)
    ensures
        r.total_views == state.total_views,
{
    TotalViewsResponse { total_views: state.total_views }
}

/// The registry after one command; a command that fails leaves it as it was.
pub open spec fn step(m: RegistryModel, msg: ExecuteMsg) -> RegistryModel {
    match msg {
        ExecuteMsg::AddAd { id, image_url, target_url, reward_address } => if has_id(m.ads, id@) {
            m
        } else {
            add_model(m, id@, image_url@, target_url@, reward_address@)
        },
        ExecuteMsg::ServeAd { id } => if has_id(m.ads, id@) {
            serve_model(m, id@)
        } else {
            m
        },
        ExecuteMsg::DeleteAd { id } => if has_id(m.ads, id@) {
            delete_model(m, id@)
        } else {
            m
        },
        ExecuteMsg::BatchServeAds { ids } => batch_model(m, ids_view(ids@)),
    }
}

/// What one command answers: its events, or the error it fails with.
pub open spec fn step_result(m: RegistryModel, msg: ExecuteMsg) -> Result<
    Seq<AdEventModel>,
    ContractError,
> {
    match msg {
        ExecuteMsg::AddAd { id, image_url, target_url, reward_address } => if has_id(m.ads, id@) {
            Err(ContractError::DuplicateIdentifier)
        } else {
            Ok(
                seq![
                    AdEventModel::AddAd {
                        ad_id: id@,
                        reward_address: reward_address@,
                        image_url: image_url@,
                        target_url: target_url@,
                    },
                ],
            )
        },
        ExecuteMsg::ServeAd { id } => if has_id(m.ads, id@) {
            Ok(seq![serve_event(serve_model(m, id@), id@)])
        } else {
            Err(ContractError::NotFound)
        },
        ExecuteMsg::DeleteAd { id } => if has_id(m.ads, id@) {
            Ok(seq![AdEventModel::DeleteAd { ad_id: id@ }])
        } else {
            Err(ContractError::NotFound)
        },
        ExecuteMsg::BatchServeAds { ids } => Ok(batch_events(m, ids_view(ids@))),
    }
}

/// The command cannot push the view counter past `u64::MAX`.
pub open spec fn fits(m: RegistryModel, msg: ExecuteMsg) -> bool {
    match msg {
        ExecuteMsg::ServeAd { id } => has_id(m.ads, id@) ==> m.total_views < u64::MAX,
        ExecuteMsg::BatchServeAds { ids } => m.total_views + ids.len() <= u64::MAX,
        _ => true,
    }
}

/// Runs one command against the registry.
pub fn execute(state: &mut State, msg: ExecuteMsg) -> (r: Result<Vec<AdEvent>, ContractError>)
    requires
        old(state)@.wf(),
        fits(old(state)@, msg),
    ensures
        final(state)@.wf(),
        final(state)@ == step(old(state)@, msg),
        match r {
            Ok(evs) => step_result(old(state)@, msg) == Ok::<_, ContractError>(
                events_view(evs@),
            ),
            Err(e) => step_result(old(state)@, msg) == Err::<Seq<AdEventModel>, _>(e)
                && *final(state) == *old(state),
        },
{
    match msg {
        ExecuteMsg::AddAd { id, image_url, target_url, reward_address } => add_ad(
            state,
            id,
            image_url,
            target_url,
            reward_address,
        ),
        ExecuteMsg::ServeAd { id } => serve_ad(state, id),
        ExecuteMsg::DeleteAd { id } => delete_ad(state, id),
        ExecuteMsg::BatchServeAds { ids } => Ok(batch_serve_ads(state, ids)),
    }
}

/// Answers one query; queries never change the registry.
pub fn query(state: &State, msg: QueryMsg) -> (r: Result<QueryResponse, ContractError>)
    ensures
        match msg {
            QueryMsg::Ad { id } => match r {
                Ok(QueryResponse::Ad(resp)) => has_id(state@.ads, id@) && resp@ == state@.ads[index_of(
                    state@.ads,
                    id@,
                )],
                Err(e) => !has_id(state@.ads, id@) && e == ContractError::NotFound,
                _ => false,
            },
            QueryMsg::Ads => match r {
                Ok(QueryResponse::Ads(resp)) => resp@ == state@.ads,
                _ => false,
            },
            QueryMsg::TotalViews => match r {
                Ok(QueryResponse::TotalViews(resp)) => resp.total_views == state.total_views,
                _ => false,
            },
        },
{
    match msg {
        QueryMsg::Ad { id } => match query_ad(state, id) {
            Ok(resp) => Ok(QueryResponse::Ad(resp)),
            Err(e) => Err(e),
        },
        QueryMsg::Ads => Ok(QueryResponse::Ads(query_all_ads(state))),
        QueryMsg::TotalViews => Ok(QueryResponse::TotalViews(query_total_views(state))),
    }
}

} // verus!
