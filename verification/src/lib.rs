//! Anime library tracking: recognising episode files by name, recommending
//! anime, keeping the user's lists, and the data exchanged with AniList.

pub mod foreign;
pub mod text;
pub mod dates;
pub mod duplicate;
pub mod maps;
pub mod rss_parser;
pub mod anime_data;
pub mod recognition;
pub mod removal;
pub mod sequels;
pub mod identify;
pub mod api_calls;
pub mod constants;
pub mod user_data;
pub mod ui_state;
pub mod sorting;
pub mod recommend;
pub mod scanning;
pub mod fetching;
pub mod watching;
