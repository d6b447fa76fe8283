//! Where the runtime's files are looked for, and the health check.
use vstd::prelude::*;
use vstd::string::*;

verus! {

/// The directory that the runtime's files are looked for in.
#[derive(Debug, PartialEq, Eq)]
pub enum RuntimeHome<P> {
    /// The directory that was named for the purpose.
    Named(P),
    /// The directory `dir` in the user's home directory.
    InUserHome { home: P, dir: &'static str },
}

/// The directory that the runtime's files are looked for in: `msb_home` where that is set, else
/// `.microsandbox` in `home`, where that is set.
pub fn runtime_home_candidate<P>(msb_home: Option<P>, home: Option<P>) -> (candidate: Option<
    RuntimeHome<P>,
>)
    ensures
        match msb_home {
            Some(path) => candidate == Some(RuntimeHome::Named(path)),
            None => match home {
                Some(path) => {
                    &&& candidate matches Some(RuntimeHome::InUserHome { home: found, dir })
                    &&& found == path
                    &&& dir@ == ".microsandbox"@
                },
                None => candidate is None,
            },
        },
{
    match msb_home {
        Some(path) => Some(RuntimeHome::Named(path)),
        None => match home {
            Some(path) => Some(RuntimeHome::InUserHome { home: path, dir: ".microsandbox" }),
            None => None,
        },
    }
}

/// A file of the runtime, and whether it is there.
#[derive(Debug)]
pub struct Candidate<P> {
    pub path: P,
    pub is_file: bool,
}

/// The paths that the runtime is told to use.
#[derive(Debug, PartialEq, Eq)]
pub struct RuntimePaths<P> {
    /// Path of the runtime's binary.
    pub msb: Option<P>,
    /// Path of the firmware library.
    pub libkrunfw: Option<P>,
}

/// The path of a candidate that is there.
pub open spec fn present<P>(candidate: Candidate<P>) -> Option<P> {
    if candidate.is_file {
        Some(candidate.path)
    } else {
        None
    }
}

/// The paths that the runtime is told to use: those that are files. Where there is no directory
/// to look in there are none.
pub fn configure_sdk_runtime_paths<P>(candidates: Option<(Candidate<P>, Candidate<P>)>) -> (paths:
    RuntimePaths<P>)
    ensures
        match candidates {
            Some((msb, libkrunfw)) => {
                &&& paths.msb == present(msb)
                &&& paths.libkrunfw == present(libkrunfw)
                &&& paths.msb is Some <==> msb.is_file
                &&& paths.libkrunfw is Some <==> libkrunfw.is_file
                &&& paths.msb is Some ==> paths.msb->0 == msb.path
                &&& paths.libkrunfw is Some ==> paths.libkrunfw->0 == libkrunfw.path
            },
            None => paths.msb is None && paths.libkrunfw is None,
        },
{
    match candidates {
        Some((msb, libkrunfw)) => RuntimePaths {
            msb: if msb.is_file {
                Some(msb.path)
            } else {
                None
            },
            libkrunfw: if libkrunfw.is_file {
                Some(libkrunfw.path)
            } else {
                None
            },
        },
        None => RuntimePaths { msb: None, libkrunfw: None },
    }
}

/// The answer to a health check.
#[derive(Debug, Clone, Copy)]
pub struct Health {
    pub ok: bool,
}

/// The answer to a health check.
pub fn healthz() -> (health: Health)
    ensures
        health.ok,
{
    Health { ok: true }
}

} // verus!
