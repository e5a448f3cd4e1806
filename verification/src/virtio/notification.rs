//! Notifications between a VirtIO driver and its device.
use vstd::prelude::*;

verus! {

/// The kinds of notification between driver and device.
#[derive(Debug, Clone, Copy, PartialEq, Eq, Structural)]
pub enum NotificationType {
    /// The device configuration space has changed (sent by the device).
    ConfigurationChangeNotification,
    /// A buffer may have been made available on a virtqueue (sent by the driver).
    AvailableBufferNotification,
    /// A buffer may have been used on a virtqueue.
    UsedBufferNotification,
}

/// A notification of some kind.
pub struct Notification(pub NotificationType);

impl Notification {
    /// A notification of kind `notif_type`.
    pub fn new(notif_type: NotificationType) -> (r: Notification)
        ensures
            r.0 == notif_type,
    {
        Self(notif_type)
    }
}

} // verus!
