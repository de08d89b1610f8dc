//! Driver installation decisions: which service each driver kind takes
//! and which embedded driver binary fits a detected system.
//!
//! Writing files, touching the service registry and reading the live
//! system are OS work done by the surrounding binary; every choice it
//! acts on is decided and verified here.

use vstd::prelude::*;

use crate::registry;
use crate::sysinfo::{Architecture, NTVersion};

verus! {

/// The kind of input device driver.
#[derive(Debug, Clone, Copy, PartialEq, Eq, Structural)]
pub enum DriverType {
    /// Keyboard input driver.
    Keyboard,
    /// Mouse input driver.
    Mouse,
}

/// Failure of a driver installation step.
#[derive(Debug)]
pub enum InstallError {
    /// The running system could not be identified.
    SystemDetection(crate::sysinfo::Error),
    /// A file operation failed, with the raw OS status when one was
    /// reported.
    Io(Option<u32>),
    /// A registry operation failed.
    Registry(registry::Error),
    /// No embedded driver binary fits the detected system; the message
    /// names the driver kind.
    Driver(String),
}

impl DriverType {
    /// The service name this driver kind registers under.
    pub fn service_name(&self) -> (r: &'static str)
        ensures
            self is Keyboard ==> r@ == "keyboard"@,
            self is Mouse ==> r@ == "mouse"@,
    {
        match self {
            DriverType::Keyboard => "keyboard",
            DriverType::Mouse => "mouse",
        }
    }

    /// The display name Windows shows for this driver kind's service.
    pub fn display_name(&self) -> (r: &'static str)
        ensures
            self is Keyboard ==> r@ == "Keyboard Upper Filter Driver"@,
            self is Mouse ==> r@ == "Mouse Upper Filter Driver"@,
    {
        match self {
            DriverType::Keyboard => "Keyboard Upper Filter Driver",
            DriverType::Mouse => "Mouse Upper Filter Driver",
        }
    }

    /// The embedded driver binary that fits a system, if any: one name
    /// per supported combination of driver kind, NT version and
    /// architecture.
    pub open spec fn driver_binary_name_spec(
        self,
        version: NTVersion,
        architecture: Architecture,
    ) -> Option<Seq<char>> {
        let v = (version.major, version.minor);
        match self {
            DriverType::Keyboard => {
                if v == (5u32, 1u32) && architecture is X86 {
                    Some("KBDNT51X86"@)
                } else if v == (5u32, 2u32) && architecture is AMD64 {
                    Some("KBDNT52A64"@)
                } else if v == (5u32, 2u32) && architecture is IA64 {
                    Some("KBDNT52I64"@)
                } else if v == (5u32, 2u32) && architecture is X86 {
                    Some("KBDNT52X86"@)
                } else if v == (6u32, 0u32) && architecture is AMD64 {
                    Some("KBDNT60A64"@)
                } else if v == (6u32, 0u32) && architecture is IA64 {
                    Some("KBDNT60I64"@)
                } else if v == (6u32, 0u32) && architecture is X86 {
                    Some("KBDNT60X86"@)
                } else if v == (6u32, 1u32) && architecture is AMD64 {
                    Some("KBDNT61A64"@)
                } else if v == (6u32, 1u32) && architecture is IA64 {
                    Some("KBDNT61I64"@)
                } else if v == (6u32, 1u32) && architecture is X86 {
                    Some("KBDNT61X86"@)
                } else {
                    None
                }
            },
            DriverType::Mouse => {
                if v == (5u32, 1u32) && architecture is X86 {
                    Some("MOUNT51X86"@)
                } else if v == (5u32, 2u32) && architecture is AMD64 {
                    Some("MOUNT52A64"@)
                } else if v == (5u32, 2u32) && architecture is IA64 {
                    Some("MOUNT52I64"@)
                } else if v == (5u32, 2u32) && architecture is X86 {
                    Some("MOUNT52X86"@)
                } else if v == (6u32, 0u32) && architecture is AMD64 {
                    Some("MOUNT60A64"@)
                } else if v == (6u32, 0u32) && architecture is IA64 {
                    Some("MOUNT60I64"@)
                } else if v == (6u32, 0u32) && architecture is X86 {
                    Some("MOUNT60X86"@)
                } else if v == (6u32, 1u32) && architecture is AMD64 {
                    Some("MOUNT61A64"@)
                } else if v == (6u32, 1u32) && architecture is IA64 {
                    Some("MOUNT61I64"@)
                } else if v == (6u32, 1u32) && architecture is X86 {
                    Some("MOUNT61X86"@)
                } else {
                    None
                }
            },
        }
    }

    /// Select the embedded driver binary for this driver kind on the
    /// given system; a system with no matching binary yields nothing.
    pub fn driver_binary_name(self, version: NTVersion, architecture: Architecture) -> (r: Option<
        &'static str,
    >)
        ensures
            r matches Some(s) ==> self.driver_binary_name_spec(version, architecture) == Some(s@),
            r is None <==> self.driver_binary_name_spec(version, architecture) is None,
    {
        let five_one = version.major == 5 && version.minor == 1;
        let five_two = version.major == 5 && version.minor == 2;
        let six_zero = version.major == 6 && version.minor == 0;
        let six_one = version.major == 6 && version.minor == 1;
        match self {
            DriverType::Keyboard => {
                if five_one && matches!(architecture, Architecture::X86) {
                    Some("KBDNT51X86")
                } else if five_two && matches!(architecture, Architecture::AMD64) {
                    Some("KBDNT52A64")
                } else if five_two && matches!(architecture, Architecture::IA64) {
                    Some("KBDNT52I64")
                } else if five_two && matches!(architecture, Architecture::X86) {
                    Some("KBDNT52X86")
                } else if six_zero && matches!(architecture, Architecture::AMD64) {
                    Some("KBDNT60A64")
                } else if six_zero && matches!(architecture, Architecture::IA64) {
                    Some("KBDNT60I64")
                } else if six_zero && matches!(architecture, Architecture::X86) {
                    Some("KBDNT60X86")
                } else if six_one && matches!(architecture, Architecture::AMD64) {
                    Some("KBDNT61A64")
                } else if six_one && matches!(architecture, Architecture::IA64) {
                    Some("KBDNT61I64")
                } else if six_one && matches!(architecture, Architecture::X86) {
                    Some("KBDNT61X86")
                } else {
                    None
                }
            },
            DriverType::Mouse => {
                if five_one && matches!(architecture, Architecture::X86) {
                    Some("MOUNT51X86")
                } else if five_two && matches!(architecture, Architecture::AMD64) {
                    Some("MOUNT52A64")
                } else if five_two && matches!(architecture, Architecture::IA64) {
                    Some("MOUNT52I64")
                } else if five_two && matches!(architecture, Architecture::X86) {
                    Some("MOUNT52X86")
                } else if six_zero && matches!(architecture, Architecture::AMD64) {
                    Some("MOUNT60A64")
                } else if six_zero && matches!(architecture, Architecture::IA64) {
                    Some("MOUNT60I64")
                } else if six_zero && matches!(architecture, Architecture::X86) {
                    Some("MOUNT60X86")
                } else if six_one && matches!(architecture, Architecture::AMD64) {
                    Some("MOUNT61A64")
                } else if six_one && matches!(architecture, Architecture::IA64) {
                    Some("MOUNT61I64")
                } else if six_one && matches!(architecture, Architecture::X86) {
                    Some("MOUNT61X86")
                } else {
                    None
                }
            },
        }
    }
}

/// The class-filter list with this service added: left unchanged where
/// the service is already listed, extended by it at the end otherwise.
pub fn upper_filters_with(filters: Vec<crate::wcstr::WCStr>, service: &crate::wcstr::WCStr) -> (r:
    Vec<crate::wcstr::WCStr>)
    requires
        service.wf(),
    ensures
        (exists|i: int|
            0 <= i < filters@.len() && (#[trigger] filters@[i]).spec_units()
                == service.spec_units()) ==> r@ == filters@,
        !(exists|i: int|
            0 <= i < filters@.len() && (#[trigger] filters@[i]).spec_units()
                == service.spec_units()) ==> (r@.len() == filters@.len() + 1 && r@.take(
            filters@.len() as int,
        ) == filters@ && r@.last().spec_units() == service.spec_units() && r@.last().wf()),
{
    let n = filters.len();
    let mut i: usize = 0;
    while i < n
        invariant
            n == filters@.len(),
            i <= n,
            forall|j: int|
                0 <= j < i ==> (#[trigger] filters@[j]).spec_units() != service.spec_units(),
        decreases n - i,
    {
        if filters[i].eq_units(service) {
            return filters;
        }
        i = i + 1;
    }
    let mut extended = filters;
    let ghost before = extended@;
    extended.push(service.duplicate());
    proof {
        assert(extended@.take(before.len() as int) =~= before);
    }
    extended
}

/// The class-filter list with every entry naming this service removed,
/// in the order the rest already had.
pub fn upper_filters_without(filters: Vec<crate::wcstr::WCStr>, service: &crate::wcstr::WCStr) -> (r:
    Vec<crate::wcstr::WCStr>)
    ensures
        crate::registry::parts_of(r@) == crate::registry::parts_of(filters@).filter(
            |u: Seq<u16>| u != service.spec_units(),
        ),
{
    let ghost keep_pred = (|u: Seq<u16>| u != service.spec_units());
    let mut out: Vec<crate::wcstr::WCStr> = Vec::new();
    proof {
        reveal(Seq::filter);
        assert(crate::registry::parts_of(filters@.take(0)) =~= Seq::<Seq<u16>>::empty());
        assert(crate::registry::parts_of(out@) =~= crate::registry::parts_of(
            filters@.take(0),
        ).filter(keep_pred));
    }
    let total = filters.len();
    let mut k: usize = 0;
    while k < total
        invariant
            total == filters@.len(),
            k <= total,
            crate::registry::parts_of(out@) == crate::registry::parts_of(
                filters@.take(k as int),
            ).filter(keep_pred),
            keep_pred == (|u: Seq<u16>| u != service.spec_units()),
        decreases total - k,
    {
        let keep = !filters[k].eq_units(service);
        let ghost out_before = out@;
        if keep {
            out.push(filters[k].duplicate());
        }
        proof {
            reveal(Seq::filter);
            assert(crate::registry::parts_of(filters@.take(k + 1)).drop_last()
                =~= crate::registry::parts_of(filters@.take(k as int)));
            assert(crate::registry::parts_of(filters@.take(k + 1)).last() == filters@[k
                as int].spec_units());
            if keep {
                assert(crate::registry::parts_of(out@) =~= crate::registry::parts_of(
                    out_before,
                ).push(filters@[k as int].spec_units()));
            } else {
                assert(crate::registry::parts_of(out@) =~= crate::registry::parts_of(out_before));
            }
            assert(crate::registry::parts_of(out@) =~= crate::registry::parts_of(
                filters@.take(k + 1),
            ).filter(keep_pred));
        }
        k = k + 1;
    }
    proof {
        assert(filters@.take(total as int) =~= filters@);
    }
    out
}

} // verus!
