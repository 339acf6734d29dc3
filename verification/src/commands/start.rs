//! The `start` command.

use vstd::prelude::*;

verus! {

/// Starts the network that the file at `config` describes.
#[derive(Debug, PartialEq, Eq)]
pub struct StartCommand {
    pub config: String,
}

impl Clone for StartCommand {
    fn clone(&self) -> (r: Self)
        ensures
            r == *self,
    {
        StartCommand { config: self.config.clone() }
    }
}

} // verus!
