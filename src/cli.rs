use vstd::prelude::*;

use crate::table::Table;

verus! {

/// Status document reported by the command-line tool.
#[derive(Debug, Clone)]
pub struct CliInfo {
    pub version: String,
    pub config: ConfigInfo,
    pub auth: Table<AuthStatus>,
    pub models: ModelsInfo,
    pub providers: Table<ProviderStatus>,
    pub counts: Counts,
}

/// Where the tool found its configuration files.
#[derive(Debug, Clone)]
pub struct ConfigInfo {
    pub global_path: String,
    pub project_path: String,
    pub global_exists: bool,
    pub project_exists: bool,
}

/// Authentication state of one provider.
#[derive(Debug, Clone)]
pub struct AuthStatus {
    pub authenticated: bool,
    pub method: String,
    pub expires_at: Option<String>,
}

/// Default and configured model aliases.
#[derive(Debug, Clone)]
pub struct ModelsInfo {
    pub default: String,
    pub configured: Vec<String>,
}

/// Whether a provider has a key.
#[derive(Debug, Clone)]
pub struct ProviderStatus {
    pub provider_type: String,
    pub has_key: bool,
}

/// Entity counts.
#[derive(Debug, Clone, Copy)]
pub struct Counts {
    pub skills: u32,
    pub stacks: u32,
    pub hooks: u32,
    pub models: u32,
}

/// Progress of fetching the status document.
#[derive(Debug, Clone)]
pub enum CliStatus {
    Loading,
    Loaded(CliInfo),
    Error(String),
    NotAvailable,
}

impl Default for CliStatus {
    fn default() -> (r: Self)
        ensures
            r is Loading,
    {
        CliStatus::Loading
    }
}

} // verus!
