//! Where the daemon is reached: its base address and the optional working
//! directory that scopes every request.

use vstd::prelude::*;
use vstd::string::StringExecFns;

verus! {

/// The daemon's default address.
pub const DEFAULT_BASE_URL: &'static str = "http://127.0.0.1:3210";

/// The request header that carries the working directory.
pub const DIRECTORY_HEADER: &'static str = "x-agent-core-directory";

/// Path of the daemon event stream.
pub const EVENT_PATH: &'static str = "/event";

/// How requests reach the daemon.
#[derive(Clone, Debug)]
pub struct ClientConfig {
    base_url: String,
    directory: Option<String>,
}

impl ClientConfig {
    /// The base address.
    pub closed spec fn base_view(&self) -> Seq<char> {
        self.base_url@
    }

    /// The working directory, if one is set.
    pub closed spec fn directory_view(&self) -> Option<Seq<char>> {
        match self.directory {
            Some(d) => Some(d@),
            None => None,
        }
    }

    /// A configuration for `base_url`, with no directory.
    pub fn new(base_url: &str) -> (r: ClientConfig)
        ensures
            r.base_view() == base_url@,
            r.directory_view() is None,
    {
        ClientConfig { base_url: base_url.to_owned(), directory: None }
    }

    /// The same configuration, scoped to `directory`.
    pub fn with_directory(self, directory: String) -> (r: ClientConfig)
        ensures
            r.base_view() == self.base_view(),
            r.directory_view() == Some(directory@),
    {
        ClientConfig { directory: Some(directory), ..self }
    }

    /// The base address.
    pub fn base_url(&self) -> (r: &str)
        ensures
            r@ == self.base_view(),
    {
        self.base_url.as_str()
    }

    /// The working directory, if one is set.
    pub fn directory(&self) -> (r: Option<&String>)
        ensures
            match r {
                Some(d) => self.directory_view() == Some(d@),
                None => self.directory_view() is None,
            },
    {
        match &self.directory {
            Some(d) => Some(d),
            None => None,
        }
    }

    /// The address of `path` on the daemon.
    pub fn url(&self, path: &str) -> (r: String)
        ensures
            r@ == self.base_view() + path@,
    {
        self.base_url.clone().concat(path)
    }
}

} // verus!
