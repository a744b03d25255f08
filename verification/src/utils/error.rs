//! Error types: a configuration-shape error of this crate's own, and a
//! wrapper distinguishing it from errors reported by the remote management
//! endpoint.
#![allow(unused_imports)]
use vstd::prelude::*;

verus! {

use xnode_manager_sdk::utils::Error as SdkError;

/// The remote management endpoint's error type, opaque to this crate.
#[verifier::external_type_specification]
#[verifier::external_body]
pub struct ExSdkError(SdkError);

/// The reasons a controller update computed by this crate itself can fail.
#[derive(Debug)]
pub enum XnodeControllerErrorInner {
    /// Neither an existing controller block nor the user-config anchor was
    /// found in the document, so there is no safe insertion point.
    NoUserConfig,
}

/// An error raised by this crate's own logic.
#[derive(Debug)]
pub struct XnodeControllerError {
    error: XnodeControllerErrorInner,
}

impl XnodeControllerError {
    /// The reason carried by this error.
    pub closed spec fn inner(&self) -> XnodeControllerErrorInner {
        self.error
    }

    pub fn new(error: XnodeControllerErrorInner) -> (r: Self)
        ensures
            r.inner() == error,
    {
        XnodeControllerError { error }
    }

    /// A human-readable description of the error.
    pub fn message(&self) -> (r: &'static str)
        ensures
            r@ == "No User Config"@,
    {
        match self.error {
            XnodeControllerErrorInner::NoUserConfig => "No User Config",
        }
    }
}

/// Any failure of a controller update: either this crate found no insertion
/// point, or the remote management endpoint reported an error.
#[derive(Debug)]
pub enum Error {
    XnodeControllerError(XnodeControllerError),
    XnodeManagerSDKError(SdkError),
}

} // verus!
