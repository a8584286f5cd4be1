use adserver::contract::{
    add_ad, batch_serve_ads, delete_ad, execute, instantiate, query, query_ad, query_all_ads,
    query_total_views, serve_ad,
};
use adserver::msg::{
    Ad, AdEvent, ContractError, ExecuteMsg, InitMsg, QueryAdResponse, QueryMsg, QueryResponse,
};
use adserver::state::State;

fn add(state: &mut State, id: &str) -> Result<Vec<AdEvent>, ContractError> {
    add_ad(
        state,
        id.to_string(),
        format!("img-{}", id),
        format!("tgt-{}", id),
        format!("rew-{}", id),
    )
}

fn ids(state: &State) -> Vec<String> {
    query_all_ads(state).ads.into_iter().map(|a| a.id).collect()
}

fn ad(id: &str, views: u64) -> Ad {
    Ad {
        id: id.to_string(),
        image_url: String::new(),
        target_url: String::new(),
        views,
        reward_address: String::new(),
    }
}

#[test]
fn instantiate_gives_empty_registry() {
    let state = instantiate(InitMsg {});
    assert!(state.ads.is_empty());
    assert_eq!(state.total_views, 0);
    assert_eq!(state.plt_address, "");
    assert!(state.is_well_formed());
}

#[test]
fn adds_with_distinct_ids_list_in_insertion_order() {
    let mut state = instantiate(InitMsg {});
    for id in ["c", "a", "b", "z"] {
        add(&mut state, id).unwrap();
    }
    assert_eq!(ids(&state), vec!["c", "a", "b", "z"]);
}

#[test]
fn add_event_carries_all_fields() {
    let mut state = instantiate(InitMsg {});
    let evs = add_ad(
        &mut state,
        "x".to_string(),
        "img".to_string(),
        "tgt".to_string(),
        "r".to_string(),
    )
    .unwrap();
    assert_eq!(
        evs,
        vec![AdEvent::AddAd {
            ad_id: "x".to_string(),
            reward_address: "r".to_string(),
            image_url: "img".to_string(),
            target_url: "tgt".to_string(),
        }]
    );
    assert_eq!(state.ads[0].views, 0);
}

#[test]
fn duplicate_add_fails_and_changes_nothing() {
    let mut state = instantiate(InitMsg {});
    add(&mut state, "a").unwrap();
    serve_ad(&mut state, "a".to_string()).unwrap();
    let before = state.clone();
    let r = add_ad(
        &mut state,
        "a".to_string(),
        "other".to_string(),
        "other".to_string(),
        "other".to_string(),
    );
    assert_eq!(r, Err(ContractError::DuplicateIdentifier));
    assert_eq!(state, before);
    assert_eq!(query_total_views(&state).total_views, 1);
}

#[test]
fn total_views_counts_every_serve_including_deleted_ads() {
    let mut state = instantiate(InitMsg {});
    add(&mut state, "a").unwrap();
    add(&mut state, "b").unwrap();
    serve_ad(&mut state, "a".to_string()).unwrap();
    serve_ad(&mut state, "b".to_string()).unwrap();
    batch_serve_ads(&mut state, vec!["a".to_string(), "b".to_string(), "b".to_string()]);
    delete_ad(&mut state, "b".to_string()).unwrap();
    serve_ad(&mut state, "a".to_string()).unwrap();
    assert_eq!(query_total_views(&state).total_views, 6);
    assert_eq!(query_ad(&state, "a".to_string()).unwrap().views, 3);
}

#[test]
fn serve_unknown_fails_and_changes_nothing() {
    let mut state = instantiate(InitMsg {});
    add(&mut state, "a").unwrap();
    let before = state.clone();
    assert_eq!(serve_ad(&mut state, "nope".to_string()), Err(ContractError::NotFound));
    assert_eq!(state, before);
}

#[test]
fn delete_unknown_fails_and_changes_nothing() {
    let mut state = instantiate(InitMsg {});
    add(&mut state, "a").unwrap();
    serve_ad(&mut state, "a".to_string()).unwrap();
    let before = state.clone();
    assert_eq!(delete_ad(&mut state, "nope".to_string()), Err(ContractError::NotFound));
    assert_eq!(state, before);
}

#[test]
fn query_unknown_is_not_found() {
    let state = instantiate(InitMsg {});
    assert_eq!(query_ad(&state, "nope".to_string()), Err(ContractError::NotFound));
    assert_eq!(
        query(&state, QueryMsg::Ad { id: "nope".to_string() }),
        Err(ContractError::NotFound)
    );
}

#[test]
fn delete_keeps_order_and_total() {
    let mut state = instantiate(InitMsg {});
    for id in ["a", "b", "c"] {
        add(&mut state, id).unwrap();
    }
    serve_ad(&mut state, "b".to_string()).unwrap();
    serve_ad(&mut state, "b".to_string()).unwrap();
    let evs = delete_ad(&mut state, "b".to_string()).unwrap();
    assert_eq!(evs, vec![AdEvent::DeleteAd { ad_id: "b".to_string() }]);
    assert_eq!(ids(&state), vec!["a", "c"]);
    assert_eq!(query_total_views(&state).total_views, 2);
}

#[test]
fn batch_with_repeat_and_unknown_id() {
    let mut state = instantiate(InitMsg {});
    add(&mut state, "a").unwrap();
    let evs = batch_serve_ads(
        &mut state,
        vec!["a".to_string(), "a".to_string(), "b".to_string()],
    );
    assert_eq!(query_ad(&state, "a".to_string()).unwrap().views, 2);
    assert_eq!(query_total_views(&state).total_views, 2);
    assert_eq!(evs.len(), 2);
    assert_eq!(
        evs[1],
        AdEvent::ServeAd {
            ad_id: "a".to_string(),
            views: 2,
            image_url: "img-a".to_string(),
            target_url: "tgt-a".to_string(),
        }
    );
}

#[test]
fn batch_execute_never_fails() {
    let mut state = instantiate(InitMsg {});
    let r = execute(&mut state, ExecuteMsg::BatchServeAds { ids: vec!["ghost".to_string()] });
    assert_eq!(r, Ok(vec![]));
    assert_eq!(state, instantiate(InitMsg {}));
}

#[test]
fn scenario_serve_delete_keeps_total() {
    let mut state = instantiate(InitMsg {});
    execute(
        &mut state,
        ExecuteMsg::AddAd {
            id: "x".to_string(),
            image_url: "img".to_string(),
            target_url: "tgt".to_string(),
            reward_address: "r".to_string(),
        },
    )
    .unwrap();
    let evs = execute(&mut state, ExecuteMsg::ServeAd { id: "x".to_string() }).unwrap();
    assert_eq!(
        evs,
        vec![AdEvent::ServeAd {
            ad_id: "x".to_string(),
            views: 1,
            image_url: "img".to_string(),
            target_url: "tgt".to_string(),
        }]
    );
    assert_eq!(
        query(&state, QueryMsg::Ad { id: "x".to_string() }),
        Ok(QueryResponse::Ad(QueryAdResponse {
            id: "x".to_string(),
            image_url: "img".to_string(),
            target_url: "tgt".to_string(),
            views: 1,
            reward_address: "r".to_string(),
        }))
    );
    execute(&mut state, ExecuteMsg::DeleteAd { id: "x".to_string() }).unwrap();
    match query(&state, QueryMsg::Ads).unwrap() {
        QueryResponse::Ads(all) => assert!(all.ads.is_empty()),
        other => panic!("unexpected answer {:?}", other),
    }
    match query(&state, QueryMsg::TotalViews).unwrap() {
        QueryResponse::TotalViews(t) => assert_eq!(t.total_views, 1),
        other => panic!("unexpected answer {:?}", other),
    }
}

#[test]
fn replay_from_saved_copy_matches_held_state() {
    let cmds = vec![
        ExecuteMsg::AddAd {
            id: "a".to_string(),
            image_url: "i".to_string(),
            target_url: "t".to_string(),
            reward_address: "r".to_string(),
        },
        ExecuteMsg::ServeAd { id: "a".to_string() },
        ExecuteMsg::ServeAd { id: "missing".to_string() },
        ExecuteMsg::BatchServeAds { ids: vec!["a".to_string(), "q".to_string()] },
        ExecuteMsg::AddAd {
            id: "a".to_string(),
            image_url: "j".to_string(),
            target_url: "u".to_string(),
            reward_address: "s".to_string(),
        },
        ExecuteMsg::DeleteAd { id: "a".to_string() },
    ];
    let mut held = instantiate(InitMsg {});
    for c in cmds.iter() {
        let _ = execute(&mut held, c.clone());
    }
    let mut saved = instantiate(InitMsg {});
    for c in cmds.iter() {
        let mut reloaded = saved.clone();
        let _ = execute(&mut reloaded, c.clone());
        saved = reloaded;
    }
    assert_eq!(held, saved);
    assert_eq!(held.total_views, 2);
}

#[test]
fn well_formed_rejects_duplicate_ids() {
    let state = State { ads: vec![ad("a", 0), ad("a", 0)], total_views: 0, plt_address: String::new() };
    assert!(!state.is_well_formed());
}

#[test]
fn well_formed_rejects_counter_below_views() {
    let state = State { ads: vec![ad("a", 2), ad("b", 2)], total_views: 3, plt_address: String::new() };
    assert!(!state.is_well_formed());
    let ok = State { ads: vec![ad("a", 2), ad("b", 2)], total_views: 7, plt_address: String::new() };
    assert!(ok.is_well_formed());
}

#[test]
fn serve_near_counter_limit() {
    let mut state = State {
        ads: vec![ad("a", 5)],
        total_views: u64::MAX - 1,
        plt_address: String::new(),
    };
    serve_ad(&mut state, "a".to_string()).unwrap();
    assert_eq!(state.total_views, u64::MAX);
    assert_eq!(state.ads[0].views, 6);
}
