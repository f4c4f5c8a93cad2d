//! A FastCGI application server core: the record codec, the per-connection
//! protocol state machine, the connection queue and worker dispatch, the
//! process-wide cache, and the request pipeline (parsing, routing, sessions,
//! access decisions, template rendering and response assembly).

pub mod fastcgi;
pub mod text;
pub mod connection;
pub mod queue;
pub mod dispatch;
pub mod data;
pub mod storage;
pub mod route;
pub mod view;
pub mod request;
pub mod session;
pub mod response;
pub mod log;
pub mod i18n;
pub mod controller;
pub mod cli;
pub mod control;
pub mod sql;
pub mod config;

