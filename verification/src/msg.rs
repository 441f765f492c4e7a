use crate::state::{Config, Tierlist, TierlistItem, TierlistTemplate};
use vstd::prelude::*;

verus! {

/// What the contract is created with.
#[derive(Clone, Debug, PartialEq, Eq)]
pub struct InstantiateMsg {
    pub admin_address: String,
}

/// A request to change what is stored.
#[derive(Clone, Debug, PartialEq, Eq)]
pub enum ExecuteMsg {
    CreateTemplate { title: String, items: Vec<TierlistItem> },
    DeleteTemplate { id: u64 },
    EditTemplate { id: u64, title: String, items: Vec<TierlistItem> },
    SaveTierlist { tierlist: Tierlist },
}

/// A request to read what is stored.
#[derive(Clone, Debug, PartialEq, Eq)]
pub enum QueryMsg {
    Config {},
    Template { id: u64 },
    TierlistFromTemplate { id: u64 },
    Tierlist { address: String, id: u64 },
    TierlistsByAddress { address: String, start_after: Option<u64>, limit: Option<u32> },
    Templates { start_after: Option<u64>, limit: Option<u32> },
}

/// The answer to a query for one template.
#[derive(Clone, Debug, PartialEq, Eq)]
pub struct TemplateResponse {
    pub template: Option<TierlistTemplate>,
}

/// The answer to a query for one tierlist.
#[derive(Clone, Debug, PartialEq, Eq)]
pub struct TierlistResponse {
    pub tierlist: Option<Tierlist>,
}

/// The answer to a query, by the kind of the query.
#[derive(Clone, Debug, PartialEq, Eq)]
pub enum QueryResponse {
    Config(Config),
    Template(TemplateResponse),
    Tierlist(TierlistResponse),
    Tierlists(Vec<(u64, Tierlist)>),
    Templates(Vec<(u64, TierlistTemplate)>),
}

} // verus!
