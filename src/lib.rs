//! Provisioning core of a game launcher: version resolution, mirror
//! redirection, content-store layout, fetch planning, a bounded batch
//! scheduler and the deployment stage machine.

pub mod text;
pub mod mirror;
pub mod descriptor;
pub mod store;
pub mod error;
pub mod plan;
pub mod batch;
pub mod event;
pub mod resolver;
pub mod core_installer;
pub mod deploy;
pub mod instance;
pub mod runtime;
pub mod loader;
pub mod animation;
pub mod versions;
pub mod fonts;
