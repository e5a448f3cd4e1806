//! The manufacturer identification strings that CPUID reports.
use vstd::prelude::*;

verus! {

/// The CPU manufacturer ids (an underscore stands for a space).
#[allow(non_camel_case_types)]
#[derive(Debug, Clone, Copy, PartialEq, Eq, Structural)]
pub enum ManufacturerIds {
    /// AMD
    AuthenticAMD,
    /// IDT WinChip/Centaur (including some VIA and Zhaoxin CPUs)
    CentaurHauls,
    /// Cyrix/early STMicroelectronics and IBM
    CyrixInstead,
    /// Intel
    GenuineIntel,
    /// Intel (rare)
    GenuineIotel,
    /// Transmeta
    TransmetaCPU,
    /// Transmeta
    GenuineTMx86,
    /// National Semiconductor
    Geode_By_NSC,
    /// NexGen
    NexGenDriven,
    /// Rise
    RiseRiseRise,
    /// SiS
    SiS_SiS_SiS_,
    /// UMC
    UMC_UMC_UMC_,
    /// DM&P Vortex86
    Vortex86_SoC,
    /// Zhaoxin
    __Shanghai__,
    /// Hygon
    HygonGenuine,
    /// RDC Semiconductor Co. Ltd.
    Genuine__RDC,
    /// MCST Elbrus
    E2K_MACHINE,
    /// VIA
    VIA_VIA_VIA_,
    /// Early engineering samples of the AMD K5
    AMD_ISBETTER,
    /// ao486 soft core (old)
    GenuineAO486,
    /// ao486 soft core (new)
    MiSTer_AO486,
    /// Microsoft x86-to-ARM
    MicrosoftXTA,
    /// Newer versions of Apple Rosetta 2
    VirtualApple,
    /// PowerVM Lx86
    PowerVM_Lx86,
    /// Neko Project II
    Neko_Project,
}

} // verus!
