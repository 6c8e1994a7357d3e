use vstd::prelude::*;

verus! {

/// Settings shared by the transfer commands: an origin and a target backend,
/// each with its bucket, region, credentials and optional endpoint.
pub struct Args {
    pub origin_bucket: String,
    pub target_bucket: String,
    pub origin_region: String,
    pub target_region: String,
    pub origin_aws_access_key_id: String,
    pub target_aws_access_key_id: String,
    pub origin_aws_secret_access_key: String,
    pub target_aws_secret_access_key: String,
    pub origin_endpoint: Option<String>,
    pub target_endpoint: Option<String>,
    pub concurrency: Option<usize>,
}

} // verus!
