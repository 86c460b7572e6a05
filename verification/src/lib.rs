//! Verified core of the ANOLISA agent platform.

use vstd::prelude::*;

pub mod agentsight;
pub mod cli;
pub mod json;
pub mod paths;
pub mod text;
pub mod textmap;
pub mod tokenizer;
pub mod ws_ckpt;

verus! {

} // verus!
