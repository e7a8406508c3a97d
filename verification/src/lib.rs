//! Crowdfunding campaigns for learning: creation, contributions, withdrawal with
//! platform fee and vesting reserve, refunds, revenue sharing, community voting and
//! administration, modelled as a verified state machine over plain values.
pub mod admin;
pub mod campaigns;
pub mod constants;
pub mod creators;
pub mod funds;
pub mod laws;
pub mod limits;
pub mod queries;
pub mod state;
pub mod types;
pub mod voting;

pub use state::{Backer, Config, Model, ProofOfHeart};
pub use types::{
    copy_bytes, Address, Campaign, CampaignReserve, Category, CreateCampaignParams, Effects, Error, Event, Ledger,
    MaybePendingCreator, PlatformStats, Transfer,
};
