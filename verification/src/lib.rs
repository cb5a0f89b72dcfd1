use vstd::prelude::*;

pub mod text;
pub mod provider;
pub mod skills;
pub mod message;
pub mod agent;
pub mod memory;
pub mod privacy;
pub mod tiered;
pub mod results;
pub mod context;
pub mod chat;
pub mod semantic;
pub mod commands;
pub mod registry;
pub mod approval;
pub mod injection;
pub mod extraction;
pub mod corrections;
pub mod tags;
pub mod stream;
pub mod workspace;
pub mod passive;
pub mod ids;
pub mod onboarding;
pub mod domains;

verus! {

} // verus!
