use vstd::prelude::*;

pub mod text;
pub mod sorted;
pub mod phoneme;
pub mod params;
pub mod schema;
pub mod engine;
pub mod shapes;
pub mod error;
pub mod sandhi;
pub mod declension;
pub mod conjugation;
pub mod verb_anga;
pub mod consistency;
pub mod script;
pub mod rule_cache;
pub mod service;
pub mod gui;

verus! {

} // verus!
