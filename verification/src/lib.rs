//! A gateway for large language model providers: provider definitions,
//! request and response bridging between chat formats, configuration
//! entity stores and the line-level stream protocols they speak.
use vstd::prelude::*;

pub mod admin;
pub mod assoc;
pub mod auth;
pub mod bedrock;
pub mod chat;
pub mod config;
pub mod entities;
pub mod etcd;
pub mod gateway;
pub mod json;
pub mod provider;
pub mod providers;
pub mod registry;
pub mod responses;
pub mod store;
pub mod streams;
pub mod text;

verus! {

} // verus!
