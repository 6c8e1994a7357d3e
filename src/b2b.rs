use vstd::prelude::*;

use crate::utils::{concurrency_limit, default_endpoint, resolve_endpoint, DEFAULT_TRANSFER_CONCURRENCY};

verus! {

/// Settings of a bucket-to-bucket copy.
pub struct Args {
    /// The command word.
    pub b2b: Option<String>,
    pub origin_bucket: String,
    pub target_bucket: String,
    pub origin_region: String,
    pub target_region: String,
    pub origin_aws_access_key_id: String,
    pub target_aws_access_key_id: String,
    pub origin_aws_secret_access_key: String,
    pub target_aws_secret_access_key: String,
    pub origin_endpoint: Option<String>,
    pub target_endpoint: Option<String>,
    pub concurrency: Option<usize>,
}

impl Args {
    /// How many objects are copied at once.
    pub fn concurrency_limit(&self) -> (r: usize)
        ensures
            r == match self.concurrency {
                Some(n) => if n > 0 {
                    n
                } else {
                    DEFAULT_TRANSFER_CONCURRENCY
                },
                None => DEFAULT_TRANSFER_CONCURRENCY,
            },
    {
        concurrency_limit(self.concurrency, DEFAULT_TRANSFER_CONCURRENCY)
    }

    /// The endpoint of the origin backend.
    pub fn origin_endpoint(&self) -> (r: String)
        ensures
            r@ == match self.origin_endpoint {
                Some(e) => e@,
                None => default_endpoint(self.origin_region@),
            },
    {
        resolve_endpoint(&self.origin_endpoint, self.origin_region.as_str())
    }

    /// The endpoint of the target backend.
    pub fn target_endpoint(&self) -> (r: String)
        ensures
            r@ == match self.target_endpoint {
                Some(e) => e@,
                None => default_endpoint(self.target_region@),
            },
    {
        resolve_endpoint(&self.target_endpoint, self.target_region.as_str())
    }
}

/// The key an object gets in the target bucket: its key in the origin.
pub fn copy_destination_key(source_key: &String) -> (r: String)
    ensures
        r@ == source_key@,
{
    source_key.clone()
}

} // verus!
