//! Plugin manifests: the metadata a plugin script declares in its `MB` table,
//! chiefly the capabilities that decide which hooks are ever called.
use vstd::prelude::*;
use crate::json::Json;
use crate::text::str_eq;

verus! {

/// Capability: hooks on the core representation.
pub const CAP_CORE: &'static str = "core";

/// Capability: raw request hooks.
pub const CAP_RAW_REQUEST: &'static str = "raw_request";

/// Capability: raw response hooks.
pub const CAP_RAW_RESPONSE: &'static str = "raw_response";

/// Capability: per-chunk stream hooks (frequent; skipped unless declared).
pub const CAP_RAW_STREAM: &'static str = "raw_stream";

/// Capability: authentication hooks, called by the host per provider.
pub const CAP_AUTH: &'static str = "auth";

/// A plugin manifest.
#[derive(Debug)]
pub struct Manifest {
    pub name: String,
    pub version: String,
    /// `core` (request-path plugin) or `quota` (quota-query plugin).
    pub category: String,
    /// Scopes: global / provider / model / route.
    pub scopes: Vec<String>,
    /// Declared capabilities; order and repetition carry no meaning.
    pub capabilities: Vec<String>,
    /// JSON schema of the plugin's configuration, for forms.
    pub config_schema: Option<Json>,
    pub entry: Option<String>,
    /// Home-relative paths (`~/...`) that `mb.fs.read` may read, matched exactly.
    pub fs_read_allow: Vec<String>,
}

/// The version a manifest without one gets.
pub fn default_version() -> (r: String)
    ensures
        r@ == "0.0.0"@,
{
    "0.0.0".to_string()
}

/// The category a manifest without one gets.
pub fn default_category() -> (r: String)
    ensures
        r@ == "core"@,
{
    "core".to_string()
}

/// Whether `caps` holds `cap`.
pub open spec fn declares(caps: Seq<String>, cap: Seq<char>) -> bool {
    exists|i: int| 0 <= i < caps.len() && #[trigger] caps[i]@ == cap
}

impl Manifest {
    /// Whether the manifest declares capability `cap`.
    pub fn has(&self, cap: &str) -> (r: bool)
        ensures
            r == declares(self.capabilities@, cap@),
    {
        let mut i: usize = 0;
        while i < self.capabilities.len()
            invariant
                i <= self.capabilities@.len(),
                forall|k: int| 0 <= k < i ==> #[trigger] self.capabilities@[k]@ != cap@,
            decreases self.capabilities@.len() - i,
        {
            if str_eq(self.capabilities[i].as_str(), cap) {
                return true;
            }
            i = i + 1;
        }
        false
    }

    pub fn needs_core(&self) -> (r: bool)
        ensures
            r == declares(self.capabilities@, CAP_CORE@),
    {
        self.has(CAP_CORE)
    }

    pub fn needs_raw_request(&self) -> (r: bool)
        ensures
            r == declares(self.capabilities@, CAP_RAW_REQUEST@),
    {
        self.has(CAP_RAW_REQUEST)
    }

    pub fn needs_raw_response(&self) -> (r: bool)
        ensures
            r == declares(self.capabilities@, CAP_RAW_RESPONSE@),
    {
        self.has(CAP_RAW_RESPONSE)
    }

    pub fn needs_raw_stream(&self) -> (r: bool)
        ensures
            r == declares(self.capabilities@, CAP_RAW_STREAM@),
    {
        self.has(CAP_RAW_STREAM)
    }
}

} // verus!
