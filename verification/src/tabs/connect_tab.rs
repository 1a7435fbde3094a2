//! The panel that connects to a device over TCP.

use crate::adb::{AdbManager, CommandOutput};
use crate::feedback::{Feedback, FeedbackView};
use vstd::prelude::*;
use vstd::string::StringExecFns;

verus! {

/// The state of the panel as plain text.
pub struct ConnectView {
    /// The address of the device, as entered.
    pub ip: Seq<char>,
    /// The port, as entered: any text.
    pub port: Seq<char>,
}

impl ConnectView {
    /// The address handed to the tool: the address, a colon and the port,
    /// each as entered.
    pub open spec fn address(self) -> Seq<char> {
        self.ip + seq![':'] + self.port
    }
}

/// What a run of the connect command leads to. Where the tool ran and
/// exited with success, its output is the message. Where it ran and failed,
/// what it wrote to standard error is the message, as it is. Either way the
/// list of devices is to be fetched anew. Where the tool could not be
/// started, the message is `Error: ` and the failure text, and no list is
/// fetched.
pub open spec fn connect_run_feedback(run: Result<CommandOutput, String>) -> FeedbackView {
    match run {
        Ok(output) => if output.exit_success {
            FeedbackView { message: Some(output.stdout_text@), refresh: true }
        } else {
            FeedbackView { message: Some(output.stderr_text@), refresh: true }
        },
        Err(failure) => FeedbackView { message: Some("Error: "@ + failure@), refresh: false },
    }
}

/// The connect panel: two text fields, both taken as they are entered.
pub struct ConnectTab {
    ip: String,
    port: String,
}

impl View for ConnectTab {
    type V = ConnectView;

    closed spec fn view(&self) -> ConnectView {
        ConnectView { ip: self.ip@, port: self.port@ }
    }
}

impl ConnectTab {
    /// The address of the device, as entered.
    pub fn ip(&self) -> (r: &str)
        ensures
            r@ == self@.ip,
    {
        self.ip.as_str()
    }

    /// The port, as entered.
    pub fn port(&self) -> (r: &str)
        ensures
            r@ == self@.port,
    {
        self.port.as_str()
    }

    /// Takes a new address from the text field.
    pub fn set_ip(&mut self, ip: String)
        ensures
            final(self)@ == (ConnectView { ip: ip@, ..old(self)@ }),
    {
        self.ip = ip;
    }

    /// Takes a new port from the text field. Any text is accepted.
    pub fn set_port(&mut self, port: String)
        ensures
            final(self)@ == (ConnectView { port: port@, ..old(self)@ }),
    {
        self.port = port;
    }

    /// The address handed to the tool. An empty port gives an address that
    /// ends in the colon.
    pub fn address(&self) -> (r: String)
        ensures
            r@ == self@.address(),
    {
        let r = String::from_str(self.ip.as_str()).concat(":").concat(self.port.as_str());
        proof {
            reveal_strlit(":");
            assert(":"@ =~= seq![':']);
        }
        r
    }

    /// The command that connects to the entered address.
    pub fn connect_command(&self) -> (args: Vec<String>)
        ensures
            args.deep_view() == seq!["connect"@, self@.address()],
    {
        let address = self.address();
        AdbManager::new().connect_args(address.as_str())
    }

    /// Reads the run of the connect command: standard output on success,
    /// standard error where the tool failed, the failure text where it could
    /// not be started. The list of devices is due whenever the tool ran.
    pub fn connected_run(&self, run: Result<CommandOutput, String>) -> (r: Feedback)
        ensures
            r@ == connect_run_feedback(run),
    {
        match run {
            Ok(output) => if output.exit_success {
                Feedback { message: Some(output.stdout_text), refresh: true }
            } else {
                Feedback { message: Some(output.stderr_text), refresh: true }
            },
            Err(failure) => Feedback {
                message: Some(String::from_str("Error: ").concat(failure.as_str())),
                refresh: false,
            },
        }
    }
}

impl Default for ConnectTab {
    /// The panel as the application opens it: an example address in a
    /// private network, and no port.
    fn default() -> (tab: Self)
        ensures
            tab@ == (ConnectView { ip: "192.168.1.105"@, port: Seq::empty() }),
    {
        ConnectTab { ip: String::from_str("192.168.1.105"), port: String::new() }
    }
}

} // verus!
