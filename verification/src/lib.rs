//! Verified core of the Snacc compiler: the type vocabulary shared by the
//! checker and the backend, the checker's conversion, place, and
//! receiver-effect rules, and the backend's runtime-symbol and layout
//! decisions.
use vstd::prelude::*;

pub mod ast;
pub mod ty;
pub mod text;
pub mod convert;
pub mod places;
pub mod checked;
pub mod program;
pub mod symbols;
pub mod lowering;
pub mod ownership;
pub mod mentions;
pub mod generics;
pub mod declarations;
pub mod layout;
pub mod moves;
pub mod names;
pub mod resolve;
pub mod narrowing;
pub mod views;
pub mod methods;
pub mod arguments;
pub mod construction;
pub mod exits;
pub mod deferral;
pub mod statements;
pub mod expressions;
pub mod calls;
pub mod builtins;
pub mod branches;
pub mod blocks;
pub mod completion;
pub mod literals;

verus! {

} // verus!
