//! Verified core of a terminal crypto-price tracker: the token list kept on
//! disk, the CoinGecko request URLs, the configuration fallbacks, the name
//! check of the start-up prompt, the selection state of the token list and
//! the decisions of the refresh timers.

pub mod text;
pub mod consulta;
pub mod urls;
pub mod config;
pub mod prompt;
pub mod colors;
pub mod app_state;
pub mod timers;
pub mod price_file;
pub mod queries;
pub mod datetime;
