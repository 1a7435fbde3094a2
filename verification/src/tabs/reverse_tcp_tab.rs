//! The panel that makes every attached device forward a TCP port to this
//! machine. The devices are taken one after the other, and each outcome
//! gives one line of the report; a failure for one device does not keep the
//! others from their turn.

use crate::adb::{echo_of, result_of, tcp_spec, AdbManager, CommandOutput};
use crate::tabs::devices_tab::{listed_devices, read_devices, Device, DeviceView};
use crate::text::{trim, trimmed};
use vstd::prelude::*;
use vstd::string::StringExecFns;

verus! {

/// The state of the panel as plain values.
pub struct ReverseTcpView {
    /// The port, as entered: any text.
    pub port: Seq<char>,
    /// The devices as last listed.
    pub devices: Seq<DeviceView>,
    /// The report of the last batch, one line for each device handled.
    pub status_messages: Seq<Seq<char>>,
}

/// The command for one device: forward the port to the same port here.
pub open spec fn reverse_command(device_id: Seq<char>, port: Seq<char>) -> Seq<Seq<char>> {
    seq!["-s"@, device_id, "reverse"@, tcp_spec(port), tcp_spec(port)]
}

/// One step of a batch: the device, and the command to run for it.
pub struct ReverseJob {
    /// The identifier of the device.
    pub device_id: String,
    /// The arguments for the tool.
    pub args: Vec<String>,
}

/// A step of a batch as plain text.
pub struct ReverseJobView {
    pub device_id: Seq<char>,
    pub args: Seq<Seq<char>>,
}

impl View for ReverseJob {
    type V = ReverseJobView;

    open spec fn view(&self) -> ReverseJobView {
        ReverseJobView { device_id: self.device_id@, args: self.args.deep_view() }
    }
}

impl DeepView for ReverseJob {
    type V = ReverseJobView;

    open spec fn deep_view(&self) -> ReverseJobView {
        self@
    }
}

/// The steps of a batch: one for each device, in the order of the list.
pub open spec fn reverse_jobs(devices: Seq<DeviceView>, port: Seq<char>) -> Seq<ReverseJobView> {
    Seq::new(
        devices.len(),
        |i: int|
            ReverseJobView { device_id: devices[i].id, args: reverse_command(devices[i].id, port) },
    )
}

/// The line of the report for one device. Where the tool ran: `Device `, the
/// identifier, a colon and a space, and the output without the white space
/// around it. Where it could not be started: `Error for device `, the
/// identifier, a colon and a space, and the failure text.
pub open spec fn reverse_message(
    device_id: Seq<char>,
    outcome: Result<Seq<char>, Seq<char>>,
) -> Seq<char> {
    match outcome {
        Ok(text) => "Device "@ + device_id + ": "@ + trimmed(text),
        Err(failure) => "Error for device "@ + device_id + ": "@ + failure,
    }
}

/// The port forwarding panel.
pub struct ReverseTcpTab {
    port: String,
    devices: Vec<Device>,
    status_messages: Vec<String>,
}

impl View for ReverseTcpTab {
    type V = ReverseTcpView;

    closed spec fn view(&self) -> ReverseTcpView {
        ReverseTcpView {
            port: self.port@,
            devices: self.devices.deep_view(),
            status_messages: self.status_messages.deep_view(),
        }
    }
}

impl ReverseTcpTab {
    /// The port, as entered.
    pub fn port(&self) -> (r: &str)
        ensures
            r@ == self@.port,
    {
        self.port.as_str()
    }

    /// The devices as last listed.
    pub fn devices(&self) -> (r: &Vec<Device>)
        ensures
            r.deep_view() == self@.devices,
    {
        &self.devices
    }

    /// The report of the last batch.
    pub fn status_messages(&self) -> (r: &Vec<String>)
        ensures
            r.deep_view() == self@.status_messages,
    {
        &self.status_messages
    }

    /// Takes a new port from the text field. Any text is accepted.
    pub fn set_port(&mut self, port: String)
        ensures
            final(self)@ == (ReverseTcpView { port: port@, ..old(self)@ }),
    {
        self.port = port;
    }

    /// The command that lists the attached devices.
    pub fn refresh_command(&self) -> (args: Vec<String>)
        ensures
            args.deep_view() == seq!["devices"@],
    {
        AdbManager::new().devices_args()
    }

    /// Replaces the devices by those that the run of the device listing
    /// reports; none are left where the tool failed or could not be started.
    pub fn refresh_devices(&mut self, run: &Result<CommandOutput, String>)
        ensures
            final(self)@ == (ReverseTcpView {
                devices: listed_devices(result_of(*run)),
                ..old(self)@
            }),
    {
        self.devices = read_devices(run);
    }

    /// Starts a batch: the report is emptied, and the steps to take come
    /// back, one for each listed device, in the order of the list. For each
    /// step in turn the command is run and its outcome handed to
    /// `record_outcome`, whatever the outcomes before it were.
    pub fn setup_reverse_tcp_all(&mut self) -> (jobs: Vec<ReverseJob>)
        ensures
            final(self)@ == (ReverseTcpView { status_messages: Seq::empty(), ..old(self)@ }),
            jobs.deep_view() == reverse_jobs(old(self)@.devices, old(self)@.port),
    {
        self.status_messages = Vec::new();
        assert(self.status_messages.deep_view() =~= Seq::<Seq<char>>::empty());
        let adb = AdbManager::new();
        let mut jobs: Vec<ReverseJob> = Vec::new();
        let mut i: usize = 0;
        assert(self.devices.deep_view().len() == self.devices.len());
        while i < self.devices.len()
            invariant
                i <= self.devices.len(),
                self.devices.deep_view().len() == self.devices.len(),
                jobs.deep_view() == reverse_jobs(self@.devices, self@.port).take(i as int),
            decreases self.devices.len() - i,
        {
            let ghost before = jobs.deep_view();
            assert(self.devices.deep_view()[i as int] == self.devices[i as int]@);
            let args = adb.reverse_args(self.devices[i].id.as_str(), self.port.as_str());
            let job = ReverseJob { device_id: self.devices[i].id.clone(), args };
            jobs.push(job);
            assert(jobs.deep_view() =~= before.push(job@));
            assert(jobs.deep_view() =~= reverse_jobs(self@.devices, self@.port).take(i + 1));
            i += 1;
        }
        assert(jobs.deep_view() =~= reverse_jobs(self@.devices, self@.port));
        jobs
    }

    /// Adds to the report the line for the device `device_id`, whose command
    /// had the run `run`: what the tool printed where it could be started,
    /// whatever its exit status, and the failure text where not.
    pub fn record_outcome(&mut self, device_id: &str, run: &Result<CommandOutput, String>)
        ensures
            final(self)@ == (ReverseTcpView {
                status_messages: old(self)@.status_messages.push(
                    reverse_message(device_id@, echo_of(*run)),
                ),
                ..old(self)@
            }),
    {
        let ghost before = self.status_messages.deep_view();
        let message = match run {
            Ok(output) => {
                let shown = trim(output.stdout_text.as_str());
                String::from_str("Device ").concat(device_id).concat(": ").concat(shown.as_str())
            },
            Err(failure) => String::from_str("Error for device ").concat(device_id).concat(
                ": ",
            ).concat(failure.as_str()),
        };
        self.status_messages.push(message);
        assert(self.status_messages.deep_view() =~= before.push(message@));
    }
}

impl Default for ReverseTcpTab {
    /// The panel as the application opens it: port 8081, no device listed,
    /// no report.
    fn default() -> (tab: Self)
        ensures
            tab@ == (ReverseTcpView {
                port: "8081"@,
                devices: Seq::empty(),
                status_messages: Seq::empty(),
            }),
    {
        let devices: Vec<Device> = Vec::new();
        let status_messages: Vec<String> = Vec::new();
        assert(devices.deep_view() =~= Seq::<DeviceView>::empty());
        assert(status_messages.deep_view() =~= Seq::<Seq<char>>::empty());
        ReverseTcpTab { port: String::from_str("8081"), devices, status_messages }
    }
}

} // verus!
