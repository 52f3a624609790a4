//! Verified core of a two-phase image asset store: opaque hex identifiers,
//! staged uploads with a garbage-collected ledger, and an attachment
//! reconciliation algorithm that keeps an owner's ordered image list
//! consistent.

mod codec;
mod config;
mod error;
mod gc;
mod ids;
mod imaging;
mod laws;
mod plan;
mod reconcile;
mod schema;
mod store;
mod upload;
mod util;
mod validator;
mod web_error;

pub use config::Config;
pub use config::ServerConfig;
pub use config::WebConfig;
pub use error::StoreError;
pub use plan::FileOp;
pub use schema::Author;
pub use schema::Graffiti;
pub use schema::Handedness;
pub use schema::Session;
pub use schema::ShiftTime;
pub use schema::User;
pub use upload::UploadOutcome;
pub use util::get_timestamp;
pub use util::strip_slashes;
pub use web_error::WebError;
pub use store::AssetStore;
pub use store::AttachmentRow;
pub use store::FileRef;
pub use store::StagingEntry;
pub use ids::generate_asset_id;
pub use ids::hex_of;
pub use ids::hex_string;
pub use validator::is_valid_asset_id;
pub use validator::valid_asset_id;
