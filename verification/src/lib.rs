//! Verified core of the openDuT resource store, executor handling and
//! peer service decisions.

pub mod resources;
pub mod executor;
pub mod executor_manager;
pub mod termination;
pub mod container_executor;
pub mod peer_service;
