//! Checkout pricing for a basket of one-character product codes.
//!
//! A basket is priced by a list of independent rules. Each rule reads how often
//! its own product occurs in the basket and contributes an amount; the price of
//! the basket is the sum of the contributions. Every function is proved
//! against a mathematical model: a basket is a `Seq<char>`, an amount is an
//! `int`, and the 32-bit price that `checkout` hands out is that integer
//! reduced into the range of `i32`.

pub mod arith;
pub mod counting;
pub mod laws;
pub mod market;
pub mod rules;
