use vstd::prelude::*;

verus! {

/// Message that creates an empty registry; it carries no fields.
#[derive(Clone, Debug, PartialEq, Eq)]
pub struct InitMsg {}

/// Answer to the total-views query.
#[derive(Clone, Debug, PartialEq, Eq)]
pub struct TotalViewsResponse {
    pub total_views: u64,
}

/// Answer to the single-ad query: every field of the stored ad.
#[derive(Clone, Debug, PartialEq, Eq)]
pub struct QueryAdResponse {
    pub id: String,
    pub image_url: String,
    pub target_url: String,
    pub views: u64,
    pub reward_address: String,
}

/// Answer to the list query: all ads, in insertion order.
#[derive(Clone, Debug, PartialEq, Eq)]
pub struct QueryAllAdsResponse {
    pub ads: Vec<QueryAdResponse>,
}

/// One advertisement record as it is stored in the registry.
#[derive(Clone, Debug, PartialEq, Eq)]
pub struct Ad {
    pub id: String,
    pub image_url: String,
    pub target_url: String,
    pub views: u64,
    pub reward_address: String,
}

/// Commands that change the registry.
#[derive(Clone, Debug, PartialEq, Eq)]
pub enum ExecuteMsg {
    /// Add a new ad with the given details.
    AddAd { id: String, image_url: String, target_url: String, reward_address: String },
    /// Count one impression of the given ad.
    ServeAd { id: String },
    /// Remove an ad by its id.
    DeleteAd { id: String },
    /// Count one impression for each known id of the list; unknown ids are skipped.
    BatchServeAds { ids: Vec<String> },
}

/// Read-only queries on the registry.
#[derive(Clone, Debug, PartialEq, Eq)]
pub enum QueryMsg {
    /// One ad by its id.
    Ad { id: String },
    /// All ads.
    Ads,
    /// The cumulative number of impressions.
    TotalViews,
}

/// What a query answers, one variant per query.
#[derive(Clone, Debug, PartialEq, Eq)]
pub enum QueryResponse {
    Ad(QueryAdResponse),
    Ads(QueryAllAdsResponse),
    TotalViews(TotalViewsResponse),
}

/// A structured record of what a successful command did.
#[derive(Clone, Debug, PartialEq, Eq)]
pub enum AdEvent {
    AddAd { ad_id: String, reward_address: String, image_url: String, target_url: String },
    ServeAd { ad_id: String, views: u64, image_url: String, target_url: String },
    DeleteAd { ad_id: String },
}

/// The ways a command, a query or the store around them can fail.
#[derive(Clone, Copy, Debug, PartialEq, Eq)]
pub enum ContractError {
    /// An ad with this id already exists.
    DuplicateIdentifier,
    /// No ad has this id.
    NotFound,
    /// The stored registry is absent or does not have the expected shape.
    StateCorruptOrMissing,
    /// The host store refused a write.
    StorageWriteError,
}

/// Mathematical model of one ad.
pub struct AdModel {
    pub id: Seq<char>,
    pub image_url: Seq<char>,
    pub target_url: Seq<char>,
    pub views: nat,
    pub reward_address: Seq<char>,
}

/// Mathematical model of an event.
pub enum AdEventModel {
    AddAd { ad_id: Seq<char>, reward_address: Seq<char>, image_url: Seq<char>, target_url: Seq<char> },
    ServeAd { ad_id: Seq<char>, views: nat, image_url: Seq<char>, target_url: Seq<char> },
    DeleteAd { ad_id: Seq<char> },
}

impl View for Ad {
    type V = AdModel;

    open spec fn view(&self) -> AdModel {
        AdModel {
            id: self.id@,
            image_url: self.image_url@,
            target_url: self.target_url@,
            views: self.views as nat,
            reward_address: self.reward_address@,
        }
    }
}

impl View for QueryAdResponse {
    type V = AdModel;

    open spec fn view(&self) -> AdModel {
        AdModel {
            id: self.id@,
            image_url: self.image_url@,
            target_url: self.target_url@,
            views: self.views as nat,
            reward_address: self.reward_address@,
        }
    }
}

impl View for QueryAllAdsResponse {
    type V = Seq<AdModel>;

    open spec fn view(&self) -> Seq<AdModel> {
        self.ads@.map_values(|a: QueryAdResponse| a@)
    }
}

impl View for AdEvent {
    type V = AdEventModel;

    open spec fn view(&self) -> AdEventModel {
        match self {
            AdEvent::AddAd { ad_id, reward_address, image_url, target_url } => AdEventModel::AddAd {
                ad_id: ad_id@,
                reward_address: reward_address@,
                image_url: image_url@,
                target_url: target_url@,
            },
            AdEvent::ServeAd { ad_id, views, image_url, target_url } => AdEventModel::ServeAd {
                ad_id: ad_id@,
                views: *views as nat,
                image_url: image_url@,
                target_url: target_url@,
            },
            AdEvent::DeleteAd { ad_id } => AdEventModel::DeleteAd { ad_id: ad_id@ },
        }
    }
}

/// The models of a list of events, in order.
pub open spec fn events_view(evs: Seq<AdEvent>) -> Seq<AdEventModel> {
    evs.map_values(|e: AdEvent| e@)
}

/// The ids of a batch, as character sequences.
pub open spec fn ids_view(ids: Seq<String>) -> Seq<Seq<char>> {
    ids.map_values(|s: String| s@)
}

} // verus!
