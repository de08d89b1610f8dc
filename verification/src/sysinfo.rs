//! System identification: the Windows version and processor architecture
//! that select which embedded driver binary fits a machine.
//!
//! Reading the live values is an OS call made by the surrounding binary;
//! the classification of the raw values is decided here.

use vstd::prelude::*;

verus! {

/// Raw processor-architecture code: 32-bit x86.
pub const PROCESSOR_ARCHITECTURE_INTEL: u16 = 0;

/// Raw processor-architecture code: Itanium.
pub const PROCESSOR_ARCHITECTURE_IA64: u16 = 6;

/// Raw processor-architecture code: x64.
pub const PROCESSOR_ARCHITECTURE_AMD64: u16 = 9;

/// A Windows NT version, by major and minor number.
#[derive(Debug, Clone, Copy, PartialEq, Eq, Structural)]
pub struct NTVersion {
    /// Major version number.
    pub major: u32,
    /// Minor version number.
    pub minor: u32,
}

/// A processor architecture with a matching driver binary.
#[derive(Debug, Clone, Copy, PartialEq, Eq, Structural)]
pub enum Architecture {
    /// 32-bit x86.
    X86,
    /// x64.
    AMD64,
    /// Itanium.
    IA64,
}

/// Failure to identify the running system.
#[derive(Debug, Clone, Copy, PartialEq, Eq, Structural)]
pub enum Error {
    /// The OS version query failed.
    NTVersion,
    /// The processor architecture has no matching driver binary.
    UnsupportedArchitecture,
}

/// The detected system: its NT version and processor architecture.
#[derive(Debug, Clone, Copy, PartialEq, Eq, Structural)]
pub struct SystemInfo {
    /// The Windows NT version.
    pub version: NTVersion,
    /// The processor architecture.
    pub architecture: Architecture,
}

impl Architecture {
    /// Classify a raw OS processor-architecture code; codes with no
    /// matching driver binary are rejected.
    pub fn from_code(code: u16) -> (r: Result<Architecture, Error>)
        ensures
            code == PROCESSOR_ARCHITECTURE_INTEL ==> r == Ok::<_, Error>(Architecture::X86),
            code == PROCESSOR_ARCHITECTURE_AMD64 ==> r == Ok::<_, Error>(Architecture::AMD64),
            code == PROCESSOR_ARCHITECTURE_IA64 ==> r == Ok::<_, Error>(Architecture::IA64),
            code != PROCESSOR_ARCHITECTURE_INTEL && code != PROCESSOR_ARCHITECTURE_AMD64 && code
                != PROCESSOR_ARCHITECTURE_IA64 ==> r == Err::<Architecture, _>(
                Error::UnsupportedArchitecture,
            ),
    {
        if code == PROCESSOR_ARCHITECTURE_INTEL {
            Ok(Architecture::X86)
        } else if code == PROCESSOR_ARCHITECTURE_AMD64 {
            Ok(Architecture::AMD64)
        } else if code == PROCESSOR_ARCHITECTURE_IA64 {
            Ok(Architecture::IA64)
        } else {
            Err(Error::UnsupportedArchitecture)
        }
    }
}

impl SystemInfo {
    /// Assemble the detected system from raw OS query results: the
    /// version as reported, the architecture classified from its code.
    pub fn from_raw(major: u32, minor: u32, architecture_code: u16) -> (r: Result<
        SystemInfo,
        Error,
    >)
        ensures
            Architecture::from_code_spec(architecture_code) matches Some(a) ==> r == Ok::<
                _,
                Error,
            >(SystemInfo { version: NTVersion { major, minor }, architecture: a }),
            Architecture::from_code_spec(architecture_code) is None ==> r == Err::<SystemInfo, _>(
                Error::UnsupportedArchitecture,
            ),
    {
        match Architecture::from_code(architecture_code) {
            Ok(architecture) => Ok(SystemInfo { version: NTVersion { major, minor }, architecture }),
            Err(e) => Err(e),
        }
    }
}

impl Architecture {
    /// The architecture a raw OS code classifies to, if any.
    pub open spec fn from_code_spec(code: u16) -> Option<Architecture> {
        if code == PROCESSOR_ARCHITECTURE_INTEL {
            Some(Architecture::X86)
        } else if code == PROCESSOR_ARCHITECTURE_AMD64 {
            Some(Architecture::AMD64)
        } else if code == PROCESSOR_ARCHITECTURE_IA64 {
            Some(Architecture::IA64)
        } else {
            None
        }
    }
}

} // verus!
