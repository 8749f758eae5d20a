//! The smallest renderable page: a greeting that depends only on whether
//! the viewer is connected.

use vstd::prelude::*;
use vstd::slice::slice_to_vec;
use crate::task::AccountId;
use crate::text::text;

verus! {

/// The greeting for a connected viewer.
pub const GREETING_CONNECTED: &'static str =
    "# Hello, Stellar User!\n\nYour wallet is connected.\n\nWelcome to **Soroban Render** - where your smart contract IS your frontend.";

/// The greeting for a viewer without an account.
pub const GREETING_ANONYMOUS: &'static str =
    "# Hello, World!\n\nConnect your wallet to see a personalized greeting.\n\nThis UI is rendered directly from the smart contract.";

/// The greeting page.
pub open spec fn greeting(connected: bool) -> Seq<u8> {
    if connected {
        text(GREETING_CONNECTED)
    } else {
        text(GREETING_ANONYMOUS)
    }
}

/// A page that greets its viewer.
#[derive(Debug, PartialEq, Eq, Clone, Copy)]
pub struct HelloContract;

impl HelloContract {
    /// Renders the greeting. The path does not matter; of the viewer only
    /// whether there is one.
    pub fn render(&self, _path: Option<&[u8]>, viewer: Option<&AccountId>) -> (out: Vec<u8>)
        ensures
            out@ == greeting(viewer is Some),
    {
        if viewer.is_some() {
            slice_to_vec(GREETING_CONNECTED.as_bytes())
        } else {
            slice_to_vec(GREETING_ANONYMOUS.as_bytes())
        }
    }
}

} // verus!
