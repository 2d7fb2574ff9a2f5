use vstd::prelude::*;

use crate::gateway::DeviceError;

verus! {

/// A request to act on the device, sent from the surface to the worker.
#[derive(Clone, Debug, PartialEq, Eq)]
pub enum Command {
    /// Detect the device, read its model and list its packages.
    DetectAndRefresh,
    /// Uninstall these packages, in this order.
    Uninstall(Vec<String>),
    Reboot,
}

/// A report from the worker to the surface.
#[derive(Clone, Debug, PartialEq, Eq)]
pub enum Event {
    /// The device's model and the identifiers it lists, in listing order.
    RefreshSucceeded(String, Vec<String>),
    RefreshFailed(DeviceError),
    /// How many of the batch have been attempted, and the batch's size.
    UninstallProgress(usize, usize),
    UninstallFinished,
    RebootFinished,
}

} // verus!
