use vstd::prelude::*;

use crate::coordinator::BuildError;
use crate::text::{contains_text, occurs_in};

verus! {

/// How a build is run: whether the toolchain's output is shown, and the name
/// of the binary to hand out when the project builds more than one.
#[derive(Clone, Debug)]
pub struct Config {
    pub debug: bool,
    pub binary_name: Option<String>,
}

impl Config {
    /// A configuration from its two settings.
    pub fn new(debug: bool, binary_name: Option<String>) -> (r: Self)
        ensures
            r.debug == debug,
            r.binary_name == binary_name,
    {
        Config { debug, binary_name }
    }
}

impl Default for Config {
    /// Quiet builds, with the binary's name read from the manifest.
    fn default() -> (r: Self)
        ensures
            !r.debug,
            r.binary_name is None,
    {
        Config { debug: false, binary_name: None }
    }
}

/// Whether the toolchain for `target_triple` has yet to be installed: it is
/// not named in the listing of the installed toolchains.
pub fn needs_install(listing: &str, target_triple: &str) -> (r: bool)
    ensures
        r == !occurs_in(target_triple@, listing@),
{
    !contains_text(listing, target_triple)
}

/// Whether installing a toolchain succeeded, from the installer's exit code:
/// it must have exited, with a code that is not positive.
pub fn install_succeeded(code: Option<i32>) -> (r: bool)
    ensures
        r == (code is Some && code->Some_0 <= 0),
{
    match code {
        Some(c) => c <= 0,
        None => false,
    }
}

/// The outcome of fetching the source, from the fetcher's exit code: only a
/// code of zero is a success.
pub fn fetch_status(code: Option<i32>) -> (r: Result<(), BuildError>)
    ensures
        r == (if code == Some(0i32) {
            Ok::<(), BuildError>(())
        } else {
            Err(BuildError::FetchFailed)
        }),
{
    match code {
        Some(c) => if c == 0 {
            Ok(())
        } else {
            Err(BuildError::FetchFailed)
        },
        None => Err(BuildError::FetchFailed),
    }
}

/// The outcome of running the toolchain, from its exit code: only a code of
/// zero is a success; a process ended by a signal has no code and is
/// reported with -1.
pub fn toolchain_status(code: Option<i32>) -> (r: Result<(), BuildError>)
    ensures
        r == (match code {
            Some(c) => if c == 0 {
                Ok::<(), BuildError>(())
            } else {
                Err(BuildError::ToolchainFailed(c))
            },
            None => Err(BuildError::ToolchainFailed(-1i32)),
        }),
{
    match code {
        Some(c) => if c == 0 {
            Ok(())
        } else {
            Err(BuildError::ToolchainFailed(c))
        },
        None => Err(BuildError::ToolchainFailed(-1)),
    }
}

} // verus!
