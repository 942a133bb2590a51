//! Which guest protection the host offers, and whether a guest may be started with it.
use vstd::prelude::*;

verus! {

/// Parameters of AMD's memory encryption.
#[derive(Debug, Clone, Copy, PartialEq, Eq, Structural)]
pub struct SevSnpDetails {
    pub cbitpos: u32,
    pub phys_addr_reduction: u32,
}

/// Hardware protection of a guest.
#[derive(Debug, Clone, Copy, PartialEq, Eq, Structural)]
pub enum GuestProtection {
    NoProtection,
    Pef,
    Se,
    Sev(SevSnpDetails),
    Snp(SevSnpDetails),
    Tdx,
}

/// Why a guest cannot be started with the protection that the host offers.
#[derive(Debug, Clone, Copy, PartialEq, Eq, Structural)]
pub enum GuestProtectionError {
    /// Protection is requested but there is none.
    NoProtectionAvailable,
    /// Where the host supports TDX, the hypervisor can start nothing but TDX guests.
    TDXProtectionMustBeUsedWithCH,
    /// TDX is the only protection that is supported.
    ExpectedTDXProtection(GuestProtection),
}

/// Whether a guest may be started: a confidential guest needs TDX, and a host with TDX needs a
/// confidential guest. Any other protection that is not requested does not matter.
pub open spec fn protection_check(confidential: bool, protection: GuestProtection) -> Result<
    (),
    GuestProtectionError,
> {
    if confidential {
        match protection {
            GuestProtection::NoProtection => Err(GuestProtectionError::NoProtectionAvailable),
            GuestProtection::Tdx => Ok(()),
            _ => Err(GuestProtectionError::ExpectedTDXProtection(protection)),
        }
    } else {
        match protection {
            GuestProtection::Tdx => Err(GuestProtectionError::TDXProtectionMustBeUsedWithCH),
            _ => Ok(()),
        }
    }
}

/// The protection to use: that of the host, unless it is not requested and need not be.
pub open spec fn protection_to_use(confidential: bool, protection: GuestProtection) -> GuestProtection {
    if !confidential && protection_check(confidential, protection) is Ok {
        GuestProtection::NoProtection
    } else {
        protection
    }
}

/// Whether a guest may be started with the protection that the host offers.
pub fn check_protection(confidential: bool, protection: GuestProtection) -> (r: Result<
    (),
    GuestProtectionError,
>)
    ensures
        r == protection_check(confidential, protection),
{
    if confidential {
        match protection {
            GuestProtection::NoProtection => Err(GuestProtectionError::NoProtectionAvailable),
            GuestProtection::Tdx => Ok(()),
            _ => Err(GuestProtectionError::ExpectedTDXProtection(protection)),
        }
    } else {
        match protection {
            GuestProtection::Tdx => Err(GuestProtectionError::TDXProtectionMustBeUsedWithCH),
            _ => Ok(()),
        }
    }
}

/// Whether the protection is TDX.
pub fn guest_protection_is_tdx(protection: GuestProtection) -> (r: bool)
    ensures
        r == (protection is Tdx),
{
    match protection {
        GuestProtection::Tdx => true,
        _ => false,
    }
}

/// The protection that a fake value stands in for. Where no fake value is set, that of the host
/// counts. The host is asked either way, and where it cannot tell there is no answer.
pub fn get_fake_guest_protection(
    fake: Option<GuestProtection>,
    host: Result<GuestProtection, String>,
) -> (r: Result<GuestProtection, String>)
    ensures
        match host {
            Err(why) => r == Err::<GuestProtection, String>(why),
            Ok(actual) => r == Ok::<GuestProtection, String>(
                match fake {
                    Some(protection) => protection,
                    None => actual,
                },
            ),
        },
{
    let actual: GuestProtection = host?;
    match fake {
        Some(protection) => Ok(protection),
        None => Ok(actual),
    }
}

/// The protection to go by: that of the host or, under test, the fake one.
pub fn get_guest_protection(
    under_test: bool,
    fake: Option<GuestProtection>,
    host: Result<GuestProtection, String>,
) -> (r: Result<GuestProtection, String>)
    ensures
        match host {
            Err(why) => r == Err::<GuestProtection, String>(why),
            Ok(actual) => r == Ok::<GuestProtection, String>(
                match fake {
                    Some(protection) => if under_test {
                        protection
                    } else {
                        actual
                    },
                    None => actual,
                },
            ),
        },
{
    if under_test {
        get_fake_guest_protection(fake, host)
    } else {
        host
    }
}

/// A guest is started under TDX exactly where it asks for it on a host that has it.
pub proof fn law_tdx_both_or_neither(confidential: bool, protection: GuestProtection)
    requires
        protection_check(confidential, protection) is Ok,
    ensures
        confidential <==> protection is Tdx,
        confidential <==> protection_to_use(confidential, protection) is Tdx,
        !confidential <==> protection_to_use(confidential, protection) is NoProtection,
{
}

/// A guest may be started exactly where it asks for protection and the host has TDX, or where it
/// asks for none and the host does not have TDX. Each refusal comes in one case: nothing to protect
/// with, a protection other than TDX, or TDX that is not asked for. The protection of the host is
/// used wherever it is asked for, and where it is not but would have to be.
pub proof fn law_protection_is_checked(confidential: bool, protection: GuestProtection)
    ensures
        protection_check(confidential, protection) is Ok <==> (confidential <==> protection is Tdx),
        protection_check(confidential, protection) == Err::<(), GuestProtectionError>(
            GuestProtectionError::NoProtectionAvailable,
        ) <==> confidential && protection is NoProtection,
        protection_check(confidential, protection) == Err::<(), GuestProtectionError>(
            GuestProtectionError::TDXProtectionMustBeUsedWithCH,
        ) <==> !confidential && protection is Tdx,
        protection_check(confidential, protection) == Err::<(), GuestProtectionError>(
            GuestProtectionError::ExpectedTDXProtection(protection),
        ) <==> confidential && !(protection is Tdx) && !(protection is NoProtection),
        confidential || protection is Tdx ==> protection_to_use(confidential, protection)
            == protection,
        !confidential && !(protection is Tdx) ==> protection_to_use(confidential, protection)
            is NoProtection,
{
}

} // verus!
