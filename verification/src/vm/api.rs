//! The calls of the virtual machine whose answers are fixed.
use crate::error::{Error, ErrorKind};
use crate::vm::{Vm, VERSION};
use vstd::prelude::*;
use vstd::slice::*;
use vstd::string::*;

verus! {

/// How calls of a handler are locked.
#[derive(Clone, Copy, Debug, PartialEq, Eq, Structural)]
pub enum LockOptions {
    WriteLock,
    ReadLock,
    NoLock,
}

/// A handler that is served under a path.
#[derive(Debug)]
pub struct Route {
    pub path: String,
    pub lock_option: LockOptions,
    pub server_addr: Option<String>,
}

impl<A, T> Vm<A, T> {
    /// The version of the virtual machine.
    pub fn version() -> (r: String)
        ensures
            r@ == VERSION@,
            r@ == "0.1.0"@,
    {
        VERSION.to_owned()
    }

    /// The static handlers: one, under `/static`.
    pub fn create_static_handlers() -> (r: Vec<Route>)
        ensures
            r@.len() == 1,
            r@[0].path@ == "/static"@,
            r@[0].lock_option == LockOptions::WriteLock,
            r@[0].server_addr is None,
    {
        let mut handlers: Vec<Route> = Vec::new();
        handlers.push(
            Route {
                path: "/static".to_owned(),
                lock_option: LockOptions::WriteLock,
                server_addr: None,
            },
        );
        handlers
    }

    /// The handlers of the virtual machine: one, under `/rpc`.
    pub fn create_handlers() -> (r: Vec<Route>)
        ensures
            r@.len() == 1,
            r@[0].path@ == "/rpc"@,
            r@[0].lock_option == LockOptions::WriteLock,
            r@[0].server_addr is None,
    {
        let mut handlers: Vec<Route> = Vec::new();
        handlers.push(
            Route {
                path: "/rpc".to_owned(),
                lock_option: LockOptions::WriteLock,
                server_addr: None,
            },
        );
        handlers
    }

    /// Transactions are not issued this way.
    pub fn issue_tx() -> (r: Error)
        ensures
            r@ == crate::error::error_of(ErrorKind::Unsupported, "issue_tx not implemented"@),
    {
        Error::new(ErrorKind::Unsupported, "issue_tx not implemented")
    }

    /// Blocks are not found by their height.
    pub fn get_block_id_at_height(_height: u64) -> (r: Error)
        ensures
            r@ == crate::error::error_of(ErrorKind::NotFound, "block id not found"@),
    {
        Error::new(ErrorKind::NotFound, "block id not found")
    }

    /// The state cannot be synced.
    pub fn state_sync_enabled() -> (r: bool)
        ensures
            !r,
    {
        false
    }

    /// Ancestors are not given out.
    pub fn get_ancestors() -> (r: Error)
        ensures
            r@ == crate::error::error_of(
                ErrorKind::Unsupported,
                "get_ancestors not implemented"@,
            ),
    {
        Error::new(ErrorKind::Unsupported, "get_ancestors not implemented")
    }

    /// Blocks are not parsed in batches.
    pub fn batched_parse_block() -> (r: Error)
        ensures
            r@ == crate::error::error_of(
                ErrorKind::Unsupported,
                "batched_parse_block not implemented"@,
            ),
    {
        Error::new(ErrorKind::Unsupported, "batched_parse_block not implemented")
    }

    /// The virtual machine is healthy.
    pub fn health_check() -> (r: Vec<u8>)
        ensures
            r@ == vstd::utf8::encode_utf8("200"@),
    {
        slice_to_vec("200".as_bytes())
    }
}

} // verus!
