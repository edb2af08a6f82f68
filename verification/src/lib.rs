//! Verified core of the Ops platform backend: access rules, workflows,
//! parsers and text builders, separated from database, HTTP and process I/O.
pub mod text;
pub mod auth;
pub mod provider;
pub mod catalog;
pub mod json;
pub mod approval;
pub mod pattern;
pub mod github;
pub mod claude;
pub mod rca;
pub mod topology;
pub mod rollout;
pub mod chat;
pub mod agent;
pub mod grafana;
pub mod alloy;
pub mod alerts;
pub mod mcp;
pub mod skill;
pub mod notification;
pub mod entra;
pub mod accounts;
pub mod order;
pub mod repos;
pub mod channels;
pub mod cognito;
pub mod setup;
