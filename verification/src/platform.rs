//! The operating systems that the library knows of.
use vstd::prelude::*;

verus! {

#[derive(Debug, Clone, Copy, PartialEq, Eq, Structural)]
pub enum Platform {
    /// Linux and every Unix not named below.
    Unix,
    /// macOS and FreeBSD, whose kernels take the first supplementary group for
    /// the effective one and no more than 16 of them.
    Bsd,
    Windows,
    Other,
}

} // verus!
