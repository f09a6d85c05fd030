//! Bloom relay: the verified core.

pub mod address;
pub mod admin_client;
pub mod bridge;
pub mod canonical;
pub mod client;
pub mod client_hello;
pub mod cloudflare;
pub mod control_api;
pub mod control_bearer;
pub mod control_session;
pub mod credential;
pub mod ct_worker;
pub mod dns;
pub mod dns_worker;
pub mod encoding;
pub mod enrollment;
pub mod frames;
pub mod gateway;
pub mod id_table;
pub mod ids;
pub mod numbers;
pub mod observe;
pub mod observer;
pub mod protocol;
pub mod quota;
pub mod route53;
pub mod secret;
pub mod signing;
pub mod smoke;
pub mod store;
pub mod text;
pub mod text_map;
pub mod text_order;
