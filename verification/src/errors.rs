use vstd::prelude::*;

verus! {

/// Everything that can stop an injection attempt before a remote thread runs.
///
/// Each variant corresponds to one failing cross-process step: the image did
/// not validate, the target could not be opened, remote memory could not be
/// reserved, a remote write was refused, a loader-support symbol was missing,
/// or the remote thread could not be created.
#[derive(Clone, Copy, Debug, PartialEq, Eq, Structural)]
pub enum InjectError {
    InvalidPE,
    OpenFailed,
    AllocFailed,
    RemoteWriteFailed,
    SystemSymbolMissing,
    ThreadCreateFailed,
}

} // verus!
