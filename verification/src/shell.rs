//! The application shell: one panel of each kind, the panel that is shown,
//! and the status line under it.

use crate::adb::{result_of, CommandOutput};
use crate::feedback::Feedback;
use crate::tabs::connect_tab::{ConnectTab, ConnectView};
use crate::tabs::devices_tab::{listed_devices, DeviceView, DevicesTab};
use crate::tabs::file_manager_tab::{initial_view, FileManagerTab};
use crate::tabs::reverse_tcp_tab::{ReverseTcpTab, ReverseTcpView};
use vstd::prelude::*;

verus! {

/// The panels, in the order of the tab strip.
#[derive(Clone, Copy, Debug, PartialEq, Eq, Structural)]
pub enum Tab {
    Connect,
    Devices,
    ReverseTcp,
    FileManager,
}

impl Tab {
    /// The place of the panel in the tab strip, counted from 0.
    pub open spec fn position(self) -> int {
        match self {
            Tab::Connect => 0,
            Tab::Devices => 1,
            Tab::ReverseTcp => 2,
            Tab::FileManager => 3,
        }
    }

    /// Whether the panel shows a list of devices, which is fetched anew
    /// whenever the panel is switched to.
    pub open spec fn lists_devices(self) -> bool {
        self == Tab::Devices || self == Tab::ReverseTcp
    }

    /// The place of the panel in the tab strip, counted from 0.
    pub fn index(self) -> (i: usize)
        ensures
            i == self.position(),
    {
        match self {
            Tab::Connect => 0,
            Tab::Devices => 1,
            Tab::ReverseTcp => 2,
            Tab::FileManager => 3,
        }
    }

    /// The panel at place `i` of the tab strip, if there is one.
    pub fn from_index(i: usize) -> (r: Option<Tab>)
        ensures
            i < 4 <==> r is Some,
            r matches Some(tab) ==> tab.position() == i,
    {
        if i == 0 {
            Some(Tab::Connect)
        } else if i == 1 {
            Some(Tab::Devices)
        } else if i == 2 {
            Some(Tab::ReverseTcp)
        } else if i == 3 {
            Some(Tab::FileManager)
        } else {
            None
        }
    }
}

/// The application: its panels, which of them is shown, and the status
/// line.
pub struct AdbManagerApp {
    /// The panel that connects to a device.
    pub connect: ConnectTab,
    /// The panel that lists the devices.
    pub devices: DevicesTab,
    /// The panel that sets up port forwarding.
    pub reverse_tcp: ReverseTcpTab,
    /// The panel that browses files.
    pub file_manager: FileManagerTab,
    /// The panel that is shown.
    pub selected_tab: Tab,
    /// The status line: the last message that a panel gave.
    pub status_message: String,
}

impl AdbManagerApp {
    /// Shows the panel `tab`. Returns whether the list of devices is to be
    /// fetched anew: it is on every switch to a panel that shows one.
    pub fn select_tab(&mut self, tab: Tab) -> (refresh: bool)
        ensures
            refresh == tab.lists_devices(),
            *final(self) == (AdbManagerApp { selected_tab: tab, ..*old(self) }),
    {
        self.selected_tab = tab;
        match tab {
            Tab::Devices => true,
            Tab::ReverseTcp => true,
            _ => false,
        }
    }

    /// Hands the run of the device listing to the panel that waits for
    /// it: the port forwarding panel while it is shown, else the panel that
    /// lists the devices.
    pub fn refresh_devices(&mut self, run: &Result<CommandOutput, String>)
        ensures
            final(self).connect == old(self).connect,
            final(self).file_manager == old(self).file_manager,
            final(self).selected_tab == old(self).selected_tab,
            final(self).status_message == old(self).status_message,
            old(self).selected_tab == Tab::ReverseTcp ==> final(self).devices == old(self).devices
                && final(self).reverse_tcp@ == (ReverseTcpView {
                devices: listed_devices(result_of(*run)),
                ..old(self).reverse_tcp@
            }),
            old(self).selected_tab != Tab::ReverseTcp ==> final(self).reverse_tcp == old(
                self,
            ).reverse_tcp && final(self).devices@ == listed_devices(result_of(*run)),
    {
        match self.selected_tab {
            Tab::ReverseTcp => {
                self.reverse_tcp.refresh_devices(run);
            },
            _ => {
                self.devices.refresh_devices(run);
            },
        }
    }

    /// Takes in what a panel gave back after it acted: a message, if there
    /// is one, becomes the status line. Returns whether the list of devices
    /// is to be fetched anew.
    pub fn report(&mut self, feedback: Feedback) -> (refresh: bool)
        ensures
            refresh == feedback.refresh,
            final(self).status_message@ == match feedback.message {
                Some(message) => message@,
                None => old(self).status_message@,
            },
            final(self).connect == old(self).connect,
            final(self).devices == old(self).devices,
            final(self).reverse_tcp == old(self).reverse_tcp,
            final(self).file_manager == old(self).file_manager,
            final(self).selected_tab == old(self).selected_tab,
    {
        let refresh = feedback.refresh;
        match feedback.message {
            Some(message) => {
                self.status_message = message;
            },
            None => {},
        }
        refresh
    }
}

impl Default for AdbManagerApp {
    /// The application as it opens: every panel in its first state, the
    /// connect panel shown, and an empty status line.
    fn default() -> (app: Self)
        ensures
            app.connect@ == (ConnectView { ip: "192.168.1.105"@, port: Seq::empty() }),
            app.devices@ == Seq::<DeviceView>::empty(),
            app.reverse_tcp@ == (ReverseTcpView {
                port: "8081"@,
                devices: Seq::empty(),
                status_messages: Seq::empty(),
            }),
            app.file_manager@ == initial_view(),
            app.selected_tab == Tab::Connect,
            app.status_message@ == Seq::<char>::empty(),
    {
        AdbManagerApp {
            connect: ConnectTab::default(),
            devices: DevicesTab::default(),
            reverse_tcp: ReverseTcpTab::default(),
            file_manager: FileManagerTab::default(),
            selected_tab: Tab::Connect,
            status_message: String::new(),
        }
    }
}

} // verus!
