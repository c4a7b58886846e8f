//! Dense row-major matrices and vectors over a small numeric capability
//! trait, with matrix multiplication decomposed into independent per-cell
//! dot-product tasks that a worker pool can run in any order.

pub mod error;
pub mod matrix;
pub mod numeric;
pub mod text;
pub mod vector;

pub use error::MatrixError;
pub use matrix::{
    multiply, plan_tasks, reduce, run_task, worker_for, Matrix, MsgInput, MsgOutput, NUM_THREADS,
};
pub use numeric::Numeric;
pub use vector::{dot_product, Vector};
