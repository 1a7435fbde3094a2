//! The command lines sent to the `adb` tool and the reading of what it
//! reports. Running the tool is left to the caller: this module says which
//! arguments to pass and what an outcome means.

use crate::tabs::devices_tab::{devices_of, parse_devices, DeviceView};
use vstd::prelude::*;
use vstd::string::StringExecFns;

verus! {

/// What one run of the tool gave back, once it could be started.
#[derive(Clone, Debug)]
pub struct CommandOutput {
    /// Standard output, decoded leniently.
    pub stdout_text: String,
    /// Standard error, decoded leniently.
    pub stderr_text: String,
    /// Whether the tool exited with success.
    pub exit_success: bool,
}

/// The vocabulary of the `adb` tool.
#[derive(Clone, Copy, Debug)]
pub struct AdbManager;

/// An outcome as plain text: the text that a run gave, or the text of its
/// failure.
pub open spec fn outcome_view(outcome: Result<String, String>) -> Result<Seq<char>, Seq<char>> {
    match outcome {
        Ok(text) => Ok(text@),
        Err(failure) => Err(failure@),
    }
}

/// The text that a run yields: standard output where the tool exited with
/// success, else standard error as the failure; a run that could not be
/// started keeps its own failure text.
pub open spec fn result_of(invocation: Result<CommandOutput, String>) -> Result<
    Seq<char>,
    Seq<char>,
> {
    match invocation {
        Ok(output) => if output.exit_success {
            Ok(output.stdout_text@)
        } else {
            Err(output.stderr_text@)
        },
        Err(failure) => Err(failure@),
    }
}

/// What the tool printed, whatever its exit status: standard output where it
/// could be started, else the failure text.
pub open spec fn echo_of(invocation: Result<CommandOutput, String>) -> Result<
    Seq<char>,
    Seq<char>,
> {
    match invocation {
        Ok(output) => Ok(output.stdout_text@),
        Err(failure) => Err(failure@),
    }
}

/// The identifiers of `devices`, in order.
pub open spec fn ids_of(devices: Seq<DeviceView>) -> Seq<Seq<char>> {
    Seq::new(devices.len(), |i: int| devices[i].id)
}

/// The identifiers that the device listing `text` names: those of the
/// devices that it reports, in order.
pub open spec fn device_ids_of(text: Seq<char>) -> Seq<Seq<char>> {
    ids_of(devices_of(text))
}

/// `tcp:` followed by `port`.
pub open spec fn tcp_spec(port: Seq<char>) -> Seq<char> {
    "tcp:"@ + port
}

impl AdbManager {
    /// The vocabulary, ready for use. It holds no state.
    pub fn new() -> (manager: Self) {
        AdbManager
    }

    /// The arguments that list the attached devices.
    pub fn devices_args(&self) -> (args: Vec<String>)
        ensures
            args.deep_view() == seq!["devices"@],
    {
        let mut args: Vec<String> = Vec::new();
        args.push(String::from_str("devices"));
        assert(args.deep_view() =~= seq!["devices"@]);
        args
    }

    /// The arguments that connect to `address`, which is passed on as it is.
    pub fn connect_args(&self, address: &str) -> (args: Vec<String>)
        ensures
            args.deep_view() == seq!["connect"@, address@],
    {
        let mut args: Vec<String> = Vec::new();
        args.push(String::from_str("connect"));
        args.push(String::from_str(address));
        assert(args.deep_view() =~= seq!["connect"@, address@]);
        args
    }

    /// The arguments that disconnect the device `device_id`.
    pub fn disconnect_args(&self, device_id: &str) -> (args: Vec<String>)
        ensures
            args.deep_view() == seq!["disconnect"@, device_id@],
    {
        let mut args: Vec<String> = Vec::new();
        args.push(String::from_str("disconnect"));
        args.push(String::from_str(device_id));
        assert(args.deep_view() =~= seq!["disconnect"@, device_id@]);
        args
    }

    /// The arguments that list the directory `path` on `device` in long
    /// format, hidden entries included.
    pub fn list_args(&self, device: &str, path: &str) -> (args: Vec<String>)
        ensures
            args.deep_view() == seq!["-s"@, device@, "shell"@, "ls"@, "-la"@, path@],
    {
        let mut args: Vec<String> = Vec::new();
        args.push(String::from_str("-s"));
        args.push(String::from_str(device));
        args.push(String::from_str("shell"));
        args.push(String::from_str("ls"));
        args.push(String::from_str("-la"));
        args.push(String::from_str(path));
        assert(args.deep_view() =~= seq!["-s"@, device@, "shell"@, "ls"@, "-la"@, path@]);
        args
    }

    /// The arguments that remove `path` on `device`, recursively and without
    /// asking.
    pub fn remove_args(&self, device: &str, path: &str) -> (args: Vec<String>)
        ensures
            args.deep_view() == seq!["-s"@, device@, "shell"@, "rm"@, "-rf"@, path@],
    {
        let mut args: Vec<String> = Vec::new();
        args.push(String::from_str("-s"));
        args.push(String::from_str(device));
        args.push(String::from_str("shell"));
        args.push(String::from_str("rm"));
        args.push(String::from_str("-rf"));
        args.push(String::from_str(path));
        assert(args.deep_view() =~= seq!["-s"@, device@, "shell"@, "rm"@, "-rf"@, path@]);
        args
    }

    /// The arguments that copy `remote` on `device` to `local` on this
    /// machine.
    pub fn pull_args(&self, device: &str, remote: &str, local: &str) -> (args: Vec<String>)
        ensures
            args.deep_view() == seq!["-s"@, device@, "pull"@, remote@, local@],
    {
        let mut args: Vec<String> = Vec::new();
        args.push(String::from_str("-s"));
        args.push(String::from_str(device));
        args.push(String::from_str("pull"));
        args.push(String::from_str(remote));
        args.push(String::from_str(local));
        assert(args.deep_view() =~= seq!["-s"@, device@, "pull"@, remote@, local@]);
        args
    }

    /// The arguments that copy `local` on this machine to `remote` on
    /// `device`.
    pub fn push_args(&self, device: &str, local: &str, remote: &str) -> (args: Vec<String>)
        ensures
            args.deep_view() == seq!["-s"@, device@, "push"@, local@, remote@],
    {
        let mut args: Vec<String> = Vec::new();
        args.push(String::from_str("-s"));
        args.push(String::from_str(device));
        args.push(String::from_str("push"));
        args.push(String::from_str(local));
        args.push(String::from_str(remote));
        assert(args.deep_view() =~= seq!["-s"@, device@, "push"@, local@, remote@]);
        args
    }

    /// The arguments that make `device` forward its TCP port `port` to the
    /// same port of this machine. `port` is passed on as it is.
    pub fn reverse_args(&self, device: &str, port: &str) -> (args: Vec<String>)
        ensures
            args.deep_view() == seq!["-s"@, device@, "reverse"@, tcp_spec(port@), tcp_spec(port@)],
    {
        let mut args: Vec<String> = Vec::new();
        args.push(String::from_str("-s"));
        args.push(String::from_str(device));
        args.push(String::from_str("reverse"));
        args.push(String::from_str("tcp:").concat(port));
        args.push(String::from_str("tcp:").concat(port));
        assert(args.deep_view() =~= seq![
            "-s"@,
            device@,
            "reverse"@,
            tcp_spec(port@),
            tcp_spec(port@),
        ]);
        args
    }

    /// Reads the outcome of one run: the text of standard output where the
    /// tool ran and exited with success, a failure text otherwise.
    pub fn command_result(&self, invocation: Result<CommandOutput, String>) -> (r: Result<
        String,
        String,
    >)
        ensures
            outcome_view(r) == result_of(invocation),
    {
        match invocation {
            Ok(output) => if output.exit_success {
                Ok(output.stdout_text)
            } else {
                Err(output.stderr_text)
            },
            Err(failure) => Err(failure),
        }
    }

    /// Reads the identifiers of the attached devices from the outcome of the
    /// device listing: one for each device that the listing reports, in
    /// order. A line with fewer than two tokens reports no device. A failure
    /// is handed on.
    pub fn get_devices(&self, listing: Result<String, String>) -> (r: Result<Vec<String>, String>)
        ensures
            match listing {
                Ok(text) => r matches Ok(ids) && ids.deep_view() == device_ids_of(text@),
                Err(failure) => r matches Err(handed) && handed@ == failure@,
            },
    {
        match listing {
            Err(failure) => Err(failure),
            Ok(text) => {
                let devices = parse_devices(text.as_str());
                let mut ids: Vec<String> = Vec::new();
                let mut i: usize = 0;
                assert(devices.deep_view().len() == devices.len());
                while i < devices.len()
                    invariant
                        i <= devices.len(),
                        devices.deep_view().len() == devices.len(),
                        ids.deep_view() == ids_of(devices.deep_view()).take(i as int),
                    decreases devices.len() - i,
                {
                    let ghost before = ids.deep_view();
                    assert(devices.deep_view()[i as int] == devices[i as int]@);
                    let id = devices[i].id.clone();
                    ids.push(id);
                    assert(ids.deep_view() =~= before.push(id@));
                    assert(ids.deep_view() =~= ids_of(devices.deep_view()).take(i + 1));
                    i += 1;
                }
                assert(ids.deep_view() =~= ids_of(devices.deep_view()));
                Ok(ids)
            },
        }
    }
}

} // verus!
