//! The worker pool on which the procedures of a peer run.

use crate::client::rpc::server::{Context, Rpc};
use serde_json::Value;
use std::sync::Arc;
use threadpool::ThreadPool;
use vstd::prelude::*;

verus! {

/// `threadpool::ThreadPool`: a pool of worker threads.
#[verifier::external_type_specification]
#[verifier::external_body]
pub struct ExThreadPool(threadpool::ThreadPool);

/// `threadpool::ThreadPool::new`: a pool of `threads` workers.
#[verifier::external_body]
pub(crate) fn pool(threads: usize) -> (res: ThreadPool)
    requires
        threads > 0,
{
    ThreadPool::new(threads)
}

/// `threadpool::ThreadPool::execute`: queues the run of `procedure` on
/// `context` with `args` for a worker of the pool.
#[verifier::external_body]
pub(crate) fn execute(pool: &ThreadPool, procedure: Arc<Box<dyn Rpc>>, context: Context, args: Value) {
    pool.execute(move || run(&procedure, context, args))
}

/// Runs `procedure` on `context` with `args`.
pub fn run(procedure: &Arc<Box<dyn Rpc>>, context: Context, args: Value) {
    procedure.call(context, args)
}

} // verus!
