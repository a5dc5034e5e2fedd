use vstd::prelude::*;
use vstd::string::StringExecFns;
use crate::client::UllmApi;
use crate::error::AliceError;

verus! {

/// Where a µLLM server listens.
#[derive(Debug, Clone)]
pub struct UllmConfig {
    pub url: String,
}

impl Default for UllmConfig {
    fn default() -> (r: UllmConfig)
        ensures
            r.url@ == "ws://localhost:8081"@,
    {
        UllmConfig { url: String::from_str("ws://localhost:8081") }
    }
}

/// The kind of server an API configuration is for.
#[derive(Debug, Clone)]
pub enum SubConfig {
    UllmDefault(UllmConfig),
}

/// A named API configuration; `default` marks the one to use when there are several.
#[derive(Debug, Clone)]
pub struct ApiConfig {
    pub name: String,
    pub subconfig: SubConfig,
    pub default: Option<bool>,
}

impl Default for ApiConfig {
    fn default() -> (r: ApiConfig)
        ensures
            r.name@ == "µLLM API Default Config"@,
            r.subconfig matches SubConfig::UllmDefault(c) && c.url@ == "ws://localhost:8081"@,
            r.default is None,
    {
        ApiConfig {
            name: String::from_str("µLLM API Default Config"),
            subconfig: SubConfig::UllmDefault(UllmConfig::default()),
            default: None,
        }
    }
}

impl ApiConfig {
    /// Whether this configuration is marked as the one to use.
    pub open spec fn spec_marked(&self) -> bool {
        self.default == Some(true)
    }

    /// A client for the configured server, not yet connected.
    pub fn into_api(self) -> (r: UllmApi)
        ensures
            r.wf(),
            !r.spec_connected(),
            r.issued() == Seq::<u128>::empty(),
            self.subconfig matches SubConfig::UllmDefault(c) && r.socket().spec_addr() == c.url@,
    {
        match self.subconfig {
            SubConfig::UllmDefault(config) => UllmApi::new(config.url),
        }
    }
}

/// The stored API configurations and the choice among them.
#[derive(Debug, Default, Clone)]
pub struct Config;

impl Config {
    /// Picks the configuration to use among the stored ones: the only one if
    /// there is one, else the first marked as the default. With none stored,
    /// the caller stores `ApiConfig::default()` and asks again.
    pub fn pick_api(apis: Vec<ApiConfig>) -> (r: Result<ApiConfig, AliceError>)
        ensures
            apis@.len() == 1 ==> r == Ok::<ApiConfig, AliceError>(apis@[0]),
            apis@.len() != 1 ==> match r {
                Ok(a) => exists|i: int| 0 <= i < apis@.len() && apis@[i] == a && a.spec_marked() && forall|k: int| 0 <= k < i ==> !(#[trigger] apis@[k]).spec_marked(),
                Err(e) => (e matches AliceError::Other(m) && m@ == "Failed to get default api config"@) && forall|k: int| 0 <= k < apis@.len() ==> !(#[trigger] apis@[k]).spec_marked(),
            },
    {
        let mut stored = apis;
        if stored.len() == 1 {
            return Ok(stored.pop().unwrap());
        }
        let mut i: usize = 0;
        while i < stored.len()
            invariant
                0 <= i <= stored@.len(),
                stored@ == apis@,
                apis@.len() != 1,
                forall|k: int| 0 <= k < i ==> !(#[trigger] apis@[k]).spec_marked(),
            decreases stored@.len() - i,
        {
            if let Some(true) = stored[i].default {
                let chosen = stored.swap_remove(i);
                return Ok(chosen);
            }
            i = i + 1;
        }
        Err(AliceError::Other(String::from_str("Failed to get default api config")))
    }
}

} // verus!
