//! Typed argument records for the front-end commands. The command-line
//! surface itself lives with the embedder; these records carry what it
//! collects.

use vstd::prelude::*;

use crate::config::NatsConfig;

verus! {

/// Arguments for generating a module project from a template.
pub struct GenerateArgs {
    /// Module name and location.
    pub name: String,
    /// Module source language.
    pub lang: String,
    /// Template repository tag.
    pub tag: String,
}

/// Arguments for publishing a module binary to the module bucket.
pub struct PublishArgs {
    /// Module name.
    pub name: String,
    /// Path of the module binary.
    pub path: String,
    /// Bus connection settings.
    pub nats_config: NatsConfig,
}

/// The module subcommands.
pub enum ModuleCommands {
    /// Publish a module.
    Publish(PublishArgs),
}

/// Arguments of the module command group.
pub struct ModuleArgs {
    /// The chosen subcommand.
    pub command: ModuleCommands,
}

/// Arguments for creating a user account.
pub struct CreateArgs {
    /// User email.
    pub email: String,
    /// User password.
    pub password: String,
    /// Bus connection settings.
    pub nats_config: NatsConfig,
}

/// The user subcommands.
pub enum UserCommands {
    /// Create a new user account.
    Create(CreateArgs),
}

/// Arguments of the user command group.
pub struct UserArgs {
    /// The chosen subcommand.
    pub command: UserCommands,
}

/// The project subcommands.
pub enum ProjectCommands {
    /// Generate a project from a template.
    Generate(GenerateArgs),
    /// Publish a project's modules and workflow.
    Publish(PublishArgs),
}

/// Arguments of the project command group.
pub struct ProjectArgs {
    /// The chosen subcommand.
    pub command: ProjectCommands,
}

} // verus!
