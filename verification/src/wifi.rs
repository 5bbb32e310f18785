//! The error taxonomy of the WiFi/network bring-up. The bring-up
//! itself — radio initialisation, station association, DHCP — is
//! hardware- and scheduler-bound work of the surrounding application;
//! the library only fixes the vocabulary in which its failures are
//! reported.

use vstd::prelude::*;

verus! {

/// Why initialising the network stack failed.
#[derive(Clone, Copy, Debug, PartialEq, Eq, Structural)]
pub enum WifiError {
    /// The radio controller could not be initialised.
    WifiInitError,
    /// The network stack could not be brought up.
    StackInitError,
    /// The connection or network task could not be started.
    ControllerStartError,
}

} // verus!
