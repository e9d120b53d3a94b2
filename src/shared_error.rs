//! Errors of a repository evaluation, in a form that every awaiter can hold.
use vstd::prelude::*;
use std::sync::Arc;
use crate::module::{module_error_text, ModuleError};

verus! {

/// Why evaluating a repository failed.
#[derive(Debug)]
pub enum EvalError {
    /// The module's declarations were refused.
    Module(ModuleError),
    /// The configuration evaluator rejected a file; its message.
    Config(String),
    /// A file that the evaluation needs does not exist.
    NotFound(String),
    /// Reading a file failed otherwise; the message.
    Io(String),
}

pub open spec fn eval_error_text(e: EvalError) -> Seq<char> {
    match e {
        EvalError::Module(m) => module_error_text(m),
        EvalError::Config(m) => m@,
        EvalError::NotFound(p) => "not found: "@ + p@,
        EvalError::Io(m) => m@,
    }
}

impl EvalError {
    pub fn to_string(&self) -> (r: String)
        ensures
            r@ == eval_error_text(*self),
    {
        match self {
            EvalError::Module(m) => m.to_string(),
            EvalError::Config(m) => m.clone(),
            EvalError::NotFound(p) => {
                let mut out = "not found: ".to_owned();
                out.append(p.as_str());
                out
            },
            EvalError::Io(m) => m.clone(),
        }
    }
}

/// An evaluation error behind a shared pointer: cloning it hands out the
/// same error, described once.
#[derive(Debug, Clone)]
pub struct SharedError(pub Arc<EvalError>);

impl SharedError {
    /// Wraps `err` once, at the point it is published.
    pub fn from(err: EvalError) -> (r: SharedError)
        ensures
            *r.0 == err,
    {
        SharedError(Arc::new(err))
    }

    /// The error's message.
    pub fn to_string(&self) -> (r: String)
        ensures
            r@ == eval_error_text(*self.0),
    {
        self.0.to_string()
    }
}

} // verus!
