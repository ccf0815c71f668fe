pub mod text;
pub mod crypto;
pub mod at_rest;
pub mod project_asset;
pub mod general;
pub mod share;
pub mod ply;
pub mod hardware;
pub mod auth;
pub mod storage;
pub mod project;
pub mod listing;
pub mod calibration;
pub mod scan;
pub mod license;
pub mod devices;
pub mod status;
pub mod annotations;
pub mod edits;
pub mod jobs;
pub mod websocket;
pub mod adaptive;
