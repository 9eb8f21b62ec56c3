//! Arithmetic expressions over a four-variant numeric value.
//!
//! `grammar` turns text into a parse tree and `derivation` says which trees
//! a text has; `evaluate` reduces a tree to a single value by precedence
//! climbing and `climbing` shows that this is the sum of its terms; `value`
//! holds the promotion rules between the precise tier (`integer`, `decimal`,
//! `numeric`) and the fast tier (`fast`); `laws` states what holds of all of
//! them.

pub mod climbing;
pub mod decimal;
pub mod derivation;
pub mod equality;
pub mod error;
pub mod evaluate;
pub mod fast;
pub mod grammar;
pub mod integer;
pub mod laws;
pub mod literal;
pub mod model;
pub mod numeric;
pub mod operator;
pub mod render;
pub mod text;
pub mod value;
pub mod variables;
