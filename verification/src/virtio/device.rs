//! A generic VirtIO device and driver: offered and negotiated features,
//! device status and the configuration space.
use vstd::prelude::*;
use crate::virtio::layout::STATUS_FEATURES_OK;
use crate::virtio::virtqueue::VirtQueue;

verus! {

/// What every VirtIO device offers its driver.
pub trait VirtIODeviceTrait {
    /// Brings the device up.
    fn init(&mut self);

    /// Resets the device.
    fn reset(&mut self);

    /// Whether any of the feature bits `bit` is offered.
    fn has_feature(&mut self, bit: u64) -> bool;

    /// The generation of the configuration space.
    fn get_config_generation(&mut self) -> u32;

    /// The bits `bit` of the configuration space, when readable.
    fn read_config_field(&mut self, bit: u32) -> Option<u32>;
}

/// A VirtIO device.
pub struct VirtIODevice {
    /// The features the device offers.
    pub offered_features: u64,
    /// The device status bits.
    pub device_status: u8,
    /// The configuration space.
    pub configuration_space: u32,
    /// The device's virtqueues.
    pub virtqueues: Vec<Option<VirtQueue>>,
    /// Whether the device may send notifications.
    pub can_send_notifs: bool,
}

impl VirtIODeviceTrait for VirtIODevice {
    fn init(&mut self)
        ensures
            final(self).offered_features == old(self).offered_features,
            final(self).device_status == old(self).device_status,
            final(self).configuration_space == old(self).configuration_space,
            final(self).can_send_notifs == old(self).can_send_notifs,
    {
    }

    /// Clears the status and stops notifications; the rest is kept.
    fn reset(&mut self)
        ensures
            final(self).device_status == 0,
            !final(self).can_send_notifs,
            final(self).offered_features == old(self).offered_features,
            final(self).configuration_space == old(self).configuration_space,
    {
        self.device_status = 0;
        self.can_send_notifs = false;
    }

    fn has_feature(&mut self, bit: u64) -> (r: bool)
        ensures
            r == (old(self).offered_features & bit != 0),
            final(self).offered_features == old(self).offered_features,
            final(self).device_status == old(self).device_status,
            final(self).configuration_space == old(self).configuration_space,
            final(self).can_send_notifs == old(self).can_send_notifs,
    {
        (self.offered_features & bit) != 0
    }

    fn get_config_generation(&mut self) -> (r: u32)
        ensures
            r == old(self).configuration_space,
            final(self).offered_features == old(self).offered_features,
            final(self).configuration_space == old(self).configuration_space,
    {
        self.configuration_space
    }

    /// The configuration bits `bit`, readable while the feature bit with
    /// the value of the `FEATURES_OK` status bit is not offered.
    fn read_config_field(&mut self, bit: u32) -> (r: Option<u32>)
        ensures
            old(self).offered_features & (STATUS_FEATURES_OK as u64) == 0 ==> r == Some(
                old(self).configuration_space & bit,
            ),
            old(self).offered_features & (STATUS_FEATURES_OK as u64) != 0 ==> r is None,
            final(self).offered_features == old(self).offered_features,
            final(self).configuration_space == old(self).configuration_space,
    {
        if !self.has_feature(STATUS_FEATURES_OK as u64) {
            Some(self.configuration_space & bit)
        } else {
            None
        }
    }
}

/// A VirtIO driver: the device status, the virtqueues and the features it
/// negotiated.
pub struct VirtIODriver {
    pub device_status: u8,
    pub virtqueues: Vec<Option<VirtQueue>>,
    pub negotiated_features: u64,
}

impl VirtIODriver {
    /// Whether any of the feature bits `bit` was negotiated.
    pub fn has_feature(&self, bit: u64) -> (r: bool)
        ensures
            r == (self.negotiated_features & bit != 0),
    {
        (self.negotiated_features & bit) != 0
    }
}

} // verus!
