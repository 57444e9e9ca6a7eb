//! A small point-of-sale editor: committed sales and one draft, the screens that
//! show and edit them, exact totals, and focus navigation through item rows.
pub mod action;
pub mod display;
pub mod parse;
pub mod sale;
pub mod tax;
pub mod workflow;

use vstd::prelude::*;

verus! {

} // verus!
