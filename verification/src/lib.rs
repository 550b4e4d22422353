pub mod app_state;
pub mod ledger;
pub mod text;
