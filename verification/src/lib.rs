//! Media server catalogue logic: library path rules, configuration
//! normalisation, media helpers, identity keys, session state and the
//! scan operation registry.

pub mod text;
pub mod rating;
pub mod counts;
pub mod ids;
pub mod scan;
pub mod json;
pub mod session;
pub mod connect;
pub mod paths;
pub mod filters;
pub mod settings;
pub mod media;
pub mod pathnames;
pub mod identity;
pub mod source;
pub mod listing;
pub mod folders;
pub mod detail;
pub mod query;
pub mod userdata;
pub mod accounts;
pub mod extras;
pub mod streams;
pub mod nfo;
pub mod pathids;
pub mod access;
pub mod web;
pub mod playback;
pub mod missing;
pub mod probe;
pub mod remote;
pub mod similar;
pub mod subtitles;
pub mod people;
pub mod notify;
pub mod orphans;
pub mod images;
pub mod upsert;
pub mod playlists;
pub mod edits;
pub mod library_admin;
pub mod versions;
pub mod browse;
pub mod playable;
pub mod rows;
