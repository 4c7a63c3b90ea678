//! The blog's settings.
use vstd::prelude::*;

verus! {

/// Where the blog's page files live and the port it was configured with.
#[derive(Clone)]
pub struct Config {
    content_root: String,
    port: String,
}

impl Config {
    /// The directory the page files are searched from.
    pub closed spec fn root(&self) -> Seq<char> {
        self.content_root@
    }

    /// The configured port.
    pub closed spec fn port(&self) -> Seq<char> {
        self.port@
    }

    /// Settings with the content root `content_root` and the port `port`.
    pub fn new(content_root: String, port: String) -> (config: Config)
        ensures
            config.root() == content_root@,
            config.port() == port@,
    {
        Config { content_root, port }
    }

    /// The directory the page files are searched from.
    pub fn get_root(&self) -> (root: &str)
        ensures
            root@ == self.root(),
    {
        self.content_root.as_str()
    }

    /// The configured port.
    pub fn get_port(&self) -> (port: &str)
        ensures
            port@ == self.port(),
    {
        self.port.as_str()
    }
}

} // verus!
