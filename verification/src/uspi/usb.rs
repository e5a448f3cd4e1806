//! USB protocol types: packet ids, speeds, setup data and descriptors.
#![allow(non_snake_case)]
use vstd::prelude::*;

verus! {

/// Packet identifiers.
#[derive(Debug, Clone, Copy, PartialEq, Eq, Structural)]
pub enum TUSDBPID {
    USBPIDSetup,
    USBPIDData0,
    USBPIDData1,
}

/// The default device address.
pub const USB_DEFAULT_ADDRESS: usize = 0;
/// The first address given to a device.
pub const USB_FIRST_DEDICATED_ADDRESS: usize = 1;
/// The highest device address.
pub const USB_MAX_ADDRESS: usize = 127;

/// Bus speeds.
#[derive(Debug, Clone, Copy, PartialEq, Eq, Structural)]
pub enum TUSBSpeed {
    USBSpeedLow,
    USBSpeedFull,
    USBSpeedHigh,
    USBSpeedUnknown,
}

/// The setup stage of a control transfer; data follows it.
#[derive(Debug, Clone, Copy)]
pub struct TSetupData {
    pub bmRequestType: u8,
    pub bRequest: u8,
    pub wValue: u16,
    pub wIndex: u16,
    pub wLength: u16,
}

/// Request type: host to device.
pub const REQUEST_OUT: usize = 0;
/// Request type: device to host.
pub const REQUEST_IN: usize = 0x80;
/// Request type: class request.
pub const REQUEST_CLASS: usize = 0x20;
/// Request type: vendor request.
pub const REQUEST_VENDOR: usize = 0x40;
/// Request recipient: interface.
pub const REQUEST_TO_INTERFACE: usize = 1;
/// Request recipient: other.
pub const REQUEST_TO_OTHER: usize = 3;

/// Standard request: get status.
pub const GET_STATUS: usize = 0;
/// Standard request: clear feature.
pub const CLEAR_FEATURE: usize = 1;
/// Standard request: set feature.
pub const SET_FEATURE: usize = 3;
/// Standard request: set address.
pub const SET_ADDRESS: usize = 5;
/// Standard request: get descriptor.
pub const GET_DESCRIPTOR: usize = 6;
/// Standard request: set configuration.
pub const SET_CONFIGURATION: usize = 9;
/// Standard request: set interface.
pub const SET_INTERFACE: usize = 11;

/// Descriptor type: device.
pub const DESCRIPTOR_DEVICE: usize = 1;
/// Descriptor type: configuration.
pub const DESCRIPTOR_CONFIGURATION: usize = 2;
/// Descriptor type: string.
pub const DESCRIPTOR_STRING: usize = 3;
/// Descriptor type: interface.
pub const DESCRIPTOR_INTERFACE: usize = 4;
/// Descriptor type: endpoint.
pub const DESCRIPTOR_ENDPOINT: usize = 5;
/// Descriptor type: class-specific interface.
pub const DESCRIPTOR_CS_INTERFACE: usize = 36;
/// Descriptor type: class-specific endpoint.
pub const DESCRIPTOR_CS_ENDPOINT: usize = 37;
/// The default descriptor index.
pub const DESCRIPTOR_INDEX_DEFAULT: usize = 0;

/// Maximum packet size of endpoint 0 before the device descriptor is read.
pub const USB_DEFAULT_MAX_PACKET_SIZE: usize = 8;

/// The device descriptor.
#[derive(Debug, Clone, Copy)]
pub struct TUSBDeviceDescriptor {
    pub bLength: u8,
    pub bDescriptorType: u8,
    pub bcdUSB: u16,
    pub bDeviceClass: u8,
    pub bDeviceSubClass: u8,
    pub bDeviceProtocol: u8,
    pub bMaxPacketSize0: u8,
    pub idVendor: u16,
    pub idProduct: u16,
    pub bcdDevice: u16,
    pub iManufacturer: u8,
    pub iProduct: u8,
    pub iSerialNumber: u8,
    pub bNumConfigurations: u8,
}

/// The configuration descriptor.
#[derive(Debug, Clone, Copy)]
pub struct TUSBConfigurationDescriptor {
    pub bLength: u8,
    pub bDescriptorType: u8,
    pub wTotalLength: u16,
    pub bNumInterfaces: u8,
    pub bConfigurationValue: u8,
    pub iConfiguration: u8,
    pub bmAttributes: u8,
    pub bMaxPower: u8,
}

/// The interface descriptor.
#[derive(Debug, Clone, Copy)]
pub struct TUSBInterfaceDescriptor {
    pub bLength: u8,
    pub bDescriptorType: u8,
    pub bInterfaceNumber: u8,
    pub bAlternateSetting: u8,
    pub bNumEndpoints: u8,
    pub bInterfaceClass: u8,
    pub bInterfaceSubClass: u8,
    pub bInterfaceProtocol: u8,
    pub iInterface: u8,
}

/// The endpoint descriptor.
#[derive(Debug, Clone, Copy)]
pub struct TUSBEndpointDescriptor {
    pub bLength: u8,
    pub bDescriptorType: u8,
    pub bEndpointAddress: u8,
    pub bmAttributes: u8,
    pub wMaxPacketSize: u16,
    pub bInterval: u8,
}

/// The audio endpoint descriptor.
#[derive(Debug, Clone, Copy)]
pub struct TUSBAudioEndpointDescriptor {
    pub bLength: u8,
    pub bDescriptorType: u8,
    pub bEndpointAddress: u8,
    pub bmAttributes: u8,
    pub wMaxPacketSize: u16,
    pub bInterval: u8,
    pub bRefresh: u8,
    pub bSynchAddress: u8,
}

/// The MIDI streaming endpoint descriptor; the associated jack ids follow it.
#[derive(Debug, Clone, Copy)]
pub struct TUSBMIDIStreamingEndpointDescriptor {
    pub bLength: u8,
    pub bDescriptorType: u8,
    pub bDescriptorSubType: u8,
    pub bNumEmbMIDIJack: u8,
}

/// The header every descriptor starts with.
#[derive(Debug, Clone, Copy)]
pub struct Header {
    pub bLength: u8,
    pub bDescriptorType: u8,
}

/// The string descriptor; its UTF-16 characters follow it.
#[derive(Debug, Clone, Copy)]
pub struct TUSBStringDescriptor {
    pub bLength: u8,
    pub bDescriptorType: u8,
}

/// Endpoint transfer types.
#[derive(Debug, Clone, Copy, PartialEq, Eq, Structural)]
pub enum TEndpointType {
    EndpointTypeControl,
    EndpointTypeBulk,
    EndpointTypeInterrupt,
    EndpointTypeIsochronous,
}

} // verus!
