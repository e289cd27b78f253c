//! Requests to execute a script in a sandbox.

use vstd::prelude::*;
use vstd::string::*;
use crate::backend::ContainmentBackend;

verus! {

/// What the WSLc backend needs beside the script.
#[derive(Debug)]
pub struct WslcConfig {
    /// The container image.
    pub image: String,
}

/// A request to execute a script.
#[derive(Debug)]
pub struct ExecutionRequest {
    pub schema_version: String,
    pub container_id: String,
    pub script_code: String,
    /// The longest that the script may run, in milliseconds.
    pub script_timeout: u32,
    pub containment: ContainmentBackend,
    pub experimental_enabled: bool,
    /// The configuration of the WSLc backend, if the request is for it.
    pub wslc: Option<WslcConfig>,
}

impl Default for ExecutionRequest {
    /// An empty request for no backend in particular.
    fn default() -> (r: Self)
        ensures
            r.schema_version@.len() == 0,
            r.container_id@.len() == 0,
            r.script_code@.len() == 0,
            r.script_timeout == 0,
            r.containment is Other,
            !r.experimental_enabled,
            r.wslc is None,
    {
        ExecutionRequest {
            schema_version: String::new(),
            container_id: String::new(),
            script_code: String::new(),
            script_timeout: 0,
            containment: ContainmentBackend::Other,
            experimental_enabled: false,
            wslc: None,
        }
    }
}

} // verus!
