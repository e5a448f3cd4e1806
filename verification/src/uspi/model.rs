//! Raspberry Pi board models.
use vstd::prelude::*;
use vstd::std_specs::convert::TryFromSpecImpl;

verus! {

/// Raspberry Pi board models, as the VideoCore firmware numbers them
/// (mailbox property tag `0x00010001`).
#[derive(Debug, Clone, Copy, PartialEq, Eq, Structural)]
pub enum RaspberryPiModel {
    ModelA,
    ModelB,
    ModelAPlus,
    ModelBPlus,
    Pi2ModelB,
    Alpha,
    ComputeModule1,
    Pi2ModelA,
    Pi3ModelB,
    PiZero,
    ComputeModule3,
    PiZeroW,
    Pi3ModelBPlus,
}

/// The board model with firmware number `value`, if there is one.
pub open spec fn model_of(value: u32) -> Option<RaspberryPiModel> {
    if value == 0 {
        Some(RaspberryPiModel::ModelA)
    } else if value == 1 {
        Some(RaspberryPiModel::ModelB)
    } else if value == 2 {
        Some(RaspberryPiModel::ModelAPlus)
    } else if value == 3 {
        Some(RaspberryPiModel::ModelBPlus)
    } else if value == 4 {
        Some(RaspberryPiModel::Pi2ModelB)
    } else if value == 5 {
        Some(RaspberryPiModel::Alpha)
    } else if value == 6 {
        Some(RaspberryPiModel::ComputeModule1)
    } else if value == 7 {
        Some(RaspberryPiModel::Pi2ModelA)
    } else if value == 8 {
        Some(RaspberryPiModel::Pi3ModelB)
    } else if value == 9 {
        Some(RaspberryPiModel::PiZero)
    } else if value == 0xA {
        Some(RaspberryPiModel::ComputeModule3)
    } else if value == 0xC {
        Some(RaspberryPiModel::PiZeroW)
    } else if value == 0xD {
        Some(RaspberryPiModel::Pi3ModelBPlus)
    } else {
        None
    }
}

impl TryFrom<u32> for RaspberryPiModel {
    type Error = &'static str;

    fn try_from(value: u32) -> (r: Result<Self, Self::Error>) {
        if value == 0 {
            Ok(RaspberryPiModel::ModelA)
        } else if value == 1 {
            Ok(RaspberryPiModel::ModelB)
        } else if value == 2 {
            Ok(RaspberryPiModel::ModelAPlus)
        } else if value == 3 {
            Ok(RaspberryPiModel::ModelBPlus)
        } else if value == 4 {
            Ok(RaspberryPiModel::Pi2ModelB)
        } else if value == 5 {
            Ok(RaspberryPiModel::Alpha)
        } else if value == 6 {
            Ok(RaspberryPiModel::ComputeModule1)
        } else if value == 7 {
            Ok(RaspberryPiModel::Pi2ModelA)
        } else if value == 8 {
            Ok(RaspberryPiModel::Pi3ModelB)
        } else if value == 9 {
            Ok(RaspberryPiModel::PiZero)
        } else if value == 0xA {
            Ok(RaspberryPiModel::ComputeModule3)
        } else if value == 0xC {
            Ok(RaspberryPiModel::PiZeroW)
        } else if value == 0xD {
            Ok(RaspberryPiModel::Pi3ModelBPlus)
        } else {
            Err("Unknown Raspberry Pi board model ID")
        }
    }
}

impl TryFromSpecImpl<u32> for RaspberryPiModel {
    open spec fn obeys_try_from_spec() -> bool {
        true
    }

    open spec fn try_from_spec(value: u32) -> Result<Self, &'static str> {
        match model_of(value) {
            Some(m) => Ok(m),
            None => Err("Unknown Raspberry Pi board model ID"),
        }
    }
}

impl RaspberryPiModel {
    /// Whether the model is from the Raspberry Pi 1 family.
    pub fn is_rpi1(&self) -> (r: bool)
        ensures
            r == (*self == RaspberryPiModel::ModelA || *self == RaspberryPiModel::ModelB || *self
                == RaspberryPiModel::ModelAPlus || *self == RaspberryPiModel::ModelBPlus),
    {
        match self {
            RaspberryPiModel::ModelA | RaspberryPiModel::ModelB | RaspberryPiModel::ModelAPlus
            | RaspberryPiModel::ModelBPlus => true,
            _ => false,
        }
    }

    /// Whether the model is from the Raspberry Pi 2 family.
    pub fn is_rpi2(&self) -> (r: bool)
        ensures
            r == (*self == RaspberryPiModel::Pi2ModelB || *self == RaspberryPiModel::Pi2ModelA),
    {
        match self {
            RaspberryPiModel::Pi2ModelB | RaspberryPiModel::Pi2ModelA => true,
            _ => false,
        }
    }

    /// Whether the model is from the Raspberry Pi 3 family.
    pub fn is_rpi3(&self) -> (r: bool)
        ensures
            r == (*self == RaspberryPiModel::Pi3ModelB || *self == RaspberryPiModel::Pi3ModelBPlus),
    {
        match self {
            RaspberryPiModel::Pi3ModelB | RaspberryPiModel::Pi3ModelBPlus => true,
            _ => false,
        }
    }

    /// Whether the model is a Zero variant.
    pub fn is_zero(&self) -> (r: bool)
        ensures
            r == (*self == RaspberryPiModel::PiZero || *self == RaspberryPiModel::PiZeroW),
    {
        match self {
            RaspberryPiModel::PiZero | RaspberryPiModel::PiZeroW => true,
            _ => false,
        }
    }

    /// Whether the model is a Compute Module.
    pub fn is_compute_module(&self) -> (r: bool)
        ensures
            r == (*self == RaspberryPiModel::ComputeModule1 || *self
                == RaspberryPiModel::ComputeModule3),
    {
        match self {
            RaspberryPiModel::ComputeModule1 | RaspberryPiModel::ComputeModule3 => true,
            _ => false,
        }
    }
}

} // verus!
