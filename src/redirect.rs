//! The transparent redirect of outbound packets to the proxy.
use vstd::prelude::*;

verus! {

/// Stops the transparent redirect. The redirect holds no state in this
/// library, so there is nothing to release here.
pub fn stop_transparent_proxy_redirect() {
}

} // verus!
