//! The ACP server's configuration, from its environment variables.

use vstd::prelude::*;

verus! {

/// What the server runs with.
#[derive(Debug)]
pub struct ServerConfig {
    pub api_key: String,
    pub workspace: String,
    pub agent_dir: Option<String>,
    pub default_agent: String,
    pub skill_dir: Option<String>,
}

impl ServerConfig {
    /// The configuration from the values of `OPENAI_API_KEY`,
    /// `HIVECORE_WORKSPACE` (the current directory when unset),
    /// `HIVECORE_AGENT_DIR`, `HIVECORE_AGENT` (`default` when unset) and
    /// `HIVECORE_SKILL_DIR`. The API key is required.
    pub fn from_values(
        api_key: Option<String>,
        workspace: Option<String>,
        current_dir: String,
        agent_dir: Option<String>,
        default_agent: Option<String>,
        skill_dir: Option<String>,
    ) -> (r: Result<ServerConfig, String>)
        ensures
            api_key is None ==> (r matches Err(m) && m@ == "OPENAI_API_KEY not set"@),
            api_key is Some ==> (r matches Ok(c) && c.api_key == api_key.unwrap() && c.workspace == match workspace {
                Some(w) => w,
                None => current_dir,
            } && c.agent_dir == agent_dir && c.skill_dir == skill_dir && c.default_agent@ == match default_agent {
                Some(a) => a@,
                None => "default"@,
            }),
    {
        let api_key = match api_key {
            Some(k) => k,
            None => {
                return Err(String::from_str("OPENAI_API_KEY not set"));
            },
        };
        let workspace = match workspace {
            Some(w) => w,
            None => current_dir,
        };
        let default_agent = match default_agent {
            Some(a) => a,
            None => String::from_str("default"),
        };
        Ok(ServerConfig { api_key, workspace, agent_dir, default_agent, skill_dir })
    }
}

} // verus!
