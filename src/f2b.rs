use vstd::prelude::*;

use crate::utils::{concurrency_limit, default_endpoint, resolve_endpoint, DEFAULT_TRANSFER_CONCURRENCY};

verus! {

/// Settings of a folder-to-bucket upload.
pub struct Args {
    /// The command word.
    pub f2b: Option<String>,
    pub directory: String,
    pub bucket: String,
    pub region: String,
    pub aws_access_key_id: String,
    pub aws_secret_access_key: String,
    pub endpoint: Option<String>,
    pub concurrency: Option<usize>,
    pub flatten: Option<bool>,
}

impl Args {
    /// How many files are uploaded at once.
    pub fn concurrency_limit(&self) -> (r: usize)
        ensures
            r == match self.concurrency {
                Some(n) => if n > 0 {
                    n
                } else {
                    DEFAULT_TRANSFER_CONCURRENCY
                },
                None => DEFAULT_TRANSFER_CONCURRENCY,
            },
    {
        concurrency_limit(self.concurrency, DEFAULT_TRANSFER_CONCURRENCY)
    }

    /// The endpoint of the backend.
    pub fn endpoint(&self) -> (r: String)
        ensures
            r@ == match self.endpoint {
                Some(e) => e@,
                None => default_endpoint(self.region@),
            },
    {
        resolve_endpoint(&self.endpoint, self.region.as_str())
    }

    /// The root that keys are taken relative to: none in flatten mode, where
    /// a key is the file's base name; else the given root.
    pub fn key_root(&self, root: &String) -> (r: Option<String>)
        ensures
            self.flatten == Some(true) ==> r is None,
            self.flatten != Some(true) ==> (r matches Some(s) && s@ == root@),
    {
        match self.flatten {
            Some(true) => None,
            _ => Some(root.clone()),
        }
    }
}

} // verus!
