use vstd::prelude::*;

verus! {

/// What the contract says of itself.
pub struct SocialTokensMetadata {
    pub version: Option<String>,
    pub name: String,
    pub reference: Option<String>,
    pub reference_hash: Option<[u8; 32]>,
}

/// A copy of an optional string.
pub fn clone_optional(text: &Option<String>) -> (copy: Option<String>)
    ensures
        copy == *text,
{
    match text {
        Some(s) => Some(s.clone()),
        None => None,
    }
}

impl Clone for SocialTokensMetadata {
    fn clone(&self) -> (copy: SocialTokensMetadata)
        ensures
            copy == *self,
    {
        SocialTokensMetadata {
            version: clone_optional(&self.version),
            name: self.name.clone(),
            reference: clone_optional(&self.reference),
            reference_hash: self.reference_hash,
        }
    }
}

/// Something that can say what the contract's metadata is.
pub trait SocialTokensMetadataProvider {
    /// The metadata this provider holds.
    spec fn metadata(&self) -> SocialTokensMetadata;

    /// A copy of the contract's metadata.
    fn st_metadata(&self) -> (copy: SocialTokensMetadata)
        ensures
            copy == self.metadata(),
    ;
}

} // verus!
