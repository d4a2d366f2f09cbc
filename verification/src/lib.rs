//! The evaluation core of a small dynamically-typed scripting language:
//! the runtime value model, the lexical environment chain, and the
//! statement/expression evaluator, each specified against a mathematical
//! big-step semantics.

pub mod environment;
pub mod expression;
pub mod interpreter;
pub mod laws;
pub mod numerics;
pub mod semantics;
pub mod statement;
pub mod token;
