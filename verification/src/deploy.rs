//! Deploy markers: the moments at which a new version went live, to annotate the charts.

use crate::clock::{format_rfc3339, rfc3339_utc};
use crate::text::{copy_text, text_of};
use vstd::prelude::*;

verus! {

/// A deploy marker.
#[derive(Debug, Clone)]
pub struct Deploy {
    pub id: i64,
    pub project_id: Option<i64>,
    pub git_sha: String,
    pub version: Option<String>,
    pub env: Option<String>,
    pub deployed_at: String,
    pub description: Option<String>,
    pub deployer: Option<String>,
}

/// A deploy as a client reports it.
#[derive(Debug, Clone)]
pub struct IncomingDeploy {
    pub git_sha: String,
    pub version: Option<String>,
    pub env: Option<String>,
    pub description: Option<String>,
    pub deployer: Option<String>,
    pub timestamp: Option<String>,
}

/// Whether `deploy` is the marker that is stored for `incoming` in `project_id` at `now`:
/// it holds what the client reported, and was deployed at the time that the client
/// reported, or else at `now`. The store has yet to number it: its id is 0.
pub open spec fn marks(
    deploy: Deploy,
    incoming: IncomingDeploy,
    project_id: Option<i64>,
    now: i64,
) -> bool {
    &&& deploy.id == 0
    &&& deploy.project_id == project_id
    &&& deploy.git_sha@ == incoming.git_sha@
    &&& text_of(deploy.version) == text_of(incoming.version)
    &&& text_of(deploy.env) == text_of(incoming.env)
    &&& deploy.deployed_at@ == match incoming.timestamp {
        Some(t) => t@,
        None => rfc3339_utc(now),
    }
    &&& text_of(deploy.description) == text_of(incoming.description)
    &&& text_of(deploy.deployer) == text_of(incoming.deployer)
}

/// The marker that is stored for a deploy that a client reports at `now_nanos`.
pub fn new_deploy(incoming: &IncomingDeploy, project_id: Option<i64>, now_nanos: i64) -> (deploy:
    Deploy)
    ensures
        marks(deploy, *incoming, project_id, now_nanos),
{
    let deployed_at = match &incoming.timestamp {
        Some(t) => t.clone(),
        None => format_rfc3339(now_nanos),
    };
    Deploy {
        id: 0,
        project_id,
        git_sha: incoming.git_sha.clone(),
        version: copy_text(&incoming.version),
        env: copy_text(&incoming.env),
        deployed_at,
        description: copy_text(&incoming.description),
        deployer: copy_text(&incoming.deployer),
    }
}

} // verus!
