//! What the client knows of the leaderboard service: the achievement catalog, the install's
//! profile and account, and the answers to submissions.
pub mod account_privacy;
pub mod catalog;
pub mod install;
pub mod oauth;
pub mod submission;
