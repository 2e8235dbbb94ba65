//! dove: send a file out of your own cloud.

pub mod apigw;
pub mod aws;
pub mod base64url;
pub mod breaker;
pub mod cli_progress;
pub mod cloudfront;
pub mod config;
pub mod crypto;
pub mod double;
pub mod duration;
pub mod full;
pub mod gate;
pub mod gatectl;
pub mod json;
pub mod ledger;
pub mod place;
pub mod provision;
mod random;
pub mod requests;
pub mod s3;
pub mod script;
pub mod search;
pub mod secrets;
pub mod share;
pub mod shares;
pub mod text;
pub mod toml_text;
pub mod ui;
