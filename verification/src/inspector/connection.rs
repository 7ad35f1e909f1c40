//! The tab in which the proxy is set up and started.

use vstd::prelude::*;

verus! {

/// What the tab asks for.
#[derive(Copy, Clone, Debug, PartialEq, Eq, Structural)]
pub enum Event {
    StartListening,
    StopListening,
}

/// How the tab stands.
#[derive(Copy, Clone, Debug, PartialEq, Eq)]
pub struct Controls {
    /// Whether addresses and the captures can be changed.
    pub settings_enabled: bool,
    /// The text of the button.
    pub button: &'static str,
    /// What the button asks for.
    pub on_click: Event,
}

/// The tab in which the proxy is set up and started.
pub struct Connection;

impl Connection {
    pub fn new() -> (r: Connection)
        ensures
            r == Connection,
    {
        Connection
    }

    /// The name of the tab.
    pub fn name(&self) -> (r: &'static str)
        ensures
            r@ == "Connection"@,
    {
        "Connection"
    }

    /// How the tab stands: while the proxy listens it can only be stopped.
    pub fn controls(&self, is_listening: bool) -> (r: Controls)
        ensures
            r.settings_enabled == !is_listening,
            r.button@ == (if is_listening {
                "Stop Listening"@
            } else {
                "Start Listening"@
            }),
            r.on_click == (if is_listening {
                Event::StopListening
            } else {
                Event::StartListening
            }),
    {
        if is_listening {
            Controls {
                settings_enabled: false,
                button: "Stop Listening",
                on_click: Event::StopListening,
            }
        } else {
            Controls {
                settings_enabled: true,
                button: "Start Listening",
                on_click: Event::StartListening,
            }
        }
    }
}

} // verus!
