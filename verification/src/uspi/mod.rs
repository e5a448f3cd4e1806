//! Parts of a USB host controller driver for the Raspberry Pi.
pub mod dwhci;
pub mod frame_scheduler;
pub mod model;
pub mod register;
pub mod devicenameservice;
pub mod usb;
pub mod synchronize;
