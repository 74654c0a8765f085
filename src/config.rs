use vstd::prelude::*;

verus! {

/// Whether `reqwest` accepts the text as the URL of a proxy for every scheme.
pub uninterp spec fn proxy_url_accepted(url: Seq<char>) -> bool;

/// Relies on `reqwest::Proxy::all`: it parses the text as a URL, and its
/// success depends on the text alone.
#[verifier::external_body]
fn proxy_accepted(url: &String) -> (r: bool)
    ensures
        r == proxy_url_accepted(url@),
{
    reqwest::Proxy::all(url.as_str()).is_ok()
}

/// Why a configuration cannot be used.
#[derive(Debug, Clone, PartialEq, Eq)]
pub enum ConfigError {
    /// The proxy of a feed is not a URL that can serve as a proxy.
    InvalidProxy { proxy: String },
}

/// Settings shared by every feed.
#[derive(Debug)]
pub struct BasicConfig {
    pub interval: std::time::Duration,
    pub sqlite_path: String,
    pub rpc_url: String,
    pub rpc_username: String,
    pub rpc_password: String,
}

/// Settings of one feed.
#[derive(Debug)]
pub struct RssConfig {
    pub name: Option<String>,
    pub url: String,
    pub path: String,
    pub proxy: Option<String>,
}

/// The whole configuration: shared settings and the feeds.
#[derive(Debug)]
pub struct Config {
    pub basic: BasicConfig,
    pub rss: Vec<RssConfig>,
}

impl RssConfig {
    /// A feed is usable when it has no proxy or a proxy that parses.
    pub open spec fn valid(&self) -> bool {
        match self.proxy {
            Some(p) => proxy_url_accepted(p@),
            None => true,
        }
    }

    /// The name shown in the log lines of this feed.
    pub open spec fn display_name(&self) -> Seq<char> {
        match self.name {
            Some(n) => n@,
            None => "Unset name"@,
        }
    }

    pub fn validate(&self) -> (r: Result<(), ConfigError>)
        ensures
            r is Ok <==> self.valid(),
            r matches Err(ConfigError::InvalidProxy { proxy }) ==> self.proxy == Some(proxy),
    {
        match &self.proxy {
            Some(p) => {
                if proxy_accepted(p) {
                    Ok(())
                } else {
                    Err(ConfigError::InvalidProxy { proxy: p.clone() })
                }
            },
            None => Ok(()),
        }
    }

    pub fn name(&self) -> (r: &str)
        ensures
            r@ == self.display_name(),
    {
        match &self.name {
            Some(n) => n.as_str(),
            None => "Unset name",
        }
    }
}

impl Config {
    /// Every feed is usable.
    pub open spec fn valid(&self) -> bool {
        forall|i: int| 0 <= i < self.rss@.len() ==> #[trigger] self.rss@[i].valid()
    }

    /// Checks the feeds in order and reports the first that is not usable.
    pub fn validate(&self) -> (r: Result<(), ConfigError>)
        ensures
            r is Ok <==> self.valid(),
            r matches Err(ConfigError::InvalidProxy { proxy }) ==> exists|i: int|
                0 <= i < self.rss@.len() && !self.rss@[i].valid() && self.rss@[i].proxy
                    == Some(proxy) && forall|j: int| 0 <= j < i ==> #[trigger] self.rss@[j].valid(),
    {
        let mut k: usize = 0;
        while k < self.rss.len()
            invariant
                k <= self.rss@.len(),
                forall|j: int| 0 <= j < k ==> #[trigger] self.rss@[j].valid(),
            decreases self.rss@.len() - k,
        {
            match self.rss[k].validate() {
                Ok(()) => {},
                Err(e) => {
                    return Err(e);
                },
            }
            k = k + 1;
        }
        Ok(())
    }
}

} // verus!
