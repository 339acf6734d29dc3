//! Validator keys as the resolver stores them.

use vstd::prelude::*;

verus! {

/// The epoch from which every generated key is valid.
pub const ACTIVATION_EPOCH: usize = 0;

/// The number of epochs for which every generated key is valid.
pub const NUM_ACTIVE_EPOCHS: usize = 262144;

/// A key pair in its serialized form.
#[derive(Debug, PartialEq, Eq)]
pub struct ResolvedValidator {
    pub private_key: Vec<u8>,
    pub public_key: Vec<u8>,
}

/// The bytes of a [`ResolvedValidator`].
pub struct ResolvedValidatorView {
    pub private_key: Seq<u8>,
    pub public_key: Seq<u8>,
}

impl View for ResolvedValidator {
    type V = ResolvedValidatorView;

    open spec fn view(&self) -> ResolvedValidatorView {
        ResolvedValidatorView { private_key: self.private_key@, public_key: self.public_key@ }
    }
}

} // verus!
