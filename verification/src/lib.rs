pub mod apikey;
pub mod auth;
pub mod dal;
pub mod errors;
pub mod estimates;
pub mod foodal;
pub mod generator;
pub mod proxydata;
pub mod service;
pub mod storypoints;
pub mod text;
pub mod user;
pub mod v1;
