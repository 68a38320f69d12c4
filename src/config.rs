//! The settings of a run: credentials, repositories and projects.

use crate::pull_list::repo::Repo;
use vstd::prelude::*;

verus! {

/// A project of the project-management system and the milestones to report.
pub struct Project {
    pub name: String,
    pub id: String,
    pub milestones: Vec<String>,
}

/// The settings of a run.
pub struct Config {
    /// The repositories to report on.
    pub repos: Vec<Repo>,
    /// Access token for the source hosting API.
    pub github_token: String,
    /// Name of the organisation in the project-management system.
    pub zoho_portal_name: String,
    /// OAuth client id for the project-management system.
    pub zoho_client_id: String,
    /// OAuth client secret for the project-management system.
    pub zoho_client_secret: String,
    /// The projects to report on.
    pub zoho_projects: Vec<Project>,
}

} // verus!
