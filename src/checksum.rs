use vstd::prelude::*;
use crate::text::{lower_of, to_lowercase, trim, trim_of};

verus! {

/// Whether an artifact passes the checksum gate: both digests are present
/// and they agree. A missing digest on either side is a failure.
pub open spec fn digests_agree(local: Seq<char>, reference: Seq<char>) -> bool {
    local.len() > 0 && reference.len() > 0 && local == reference
}

/// Compares the digest computed for a local artifact with the published one.
pub fn verify_checksums(local_digest: &str, reference_digest: &str) -> (r: bool)
    ensures
        r == digests_agree(local_digest@, reference_digest@),
{
    if local_digest.is_empty() || reference_digest.is_empty() {
        false
    } else {
        let l = local_digest.to_owned();
        let m = reference_digest.to_owned();
        l == m
    }
}

/// The normal form of a digest as a checksum tool prints it: without
/// surrounding white space, in lower case.
pub fn normalize_digest(raw: &str) -> (r: String)
    ensures
        r@ == lower_of(trim_of(raw@)),
{
    let t = trim(raw);
    to_lowercase(t.as_str())
}

} // verus!
