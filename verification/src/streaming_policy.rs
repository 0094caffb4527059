use vstd::prelude::*;

verus! {

/// How placeholder replacement applies to streamed messages.
#[derive(Clone, Debug)]
pub struct StreamingPolicyConfig {
    /// Whether placeholders are replaced.
    pub enabled: bool,
    /// The domain that domain restrictions are checked against.
    pub domain: String,
    pub debug: bool,
}

impl Default for StreamingPolicyConfig {
    fn default() -> (c: Self)
        ensures
            c.enabled,
            c.domain@.len() == 0,
            !c.debug,
    {
        StreamingPolicyConfig { enabled: true, domain: String::new(), debug: false }
    }
}

} // verus!
