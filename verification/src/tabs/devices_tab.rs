//! The list of attached devices and the panel that shows it.

use crate::adb::{echo_of, result_of, AdbManager, CommandOutput};
use crate::feedback::{Feedback, FeedbackView};
use crate::text::{
    is_blank, is_one_line, joined, lemma_lines_of_first, lemma_lines_of_joined,
    lemma_lines_of_one_line, lemma_tokens_of_blank, lemma_tokens_of_strip_cr, lines, lines_of,
    split_whitespace, strip_cr, tokens_of,
};
use vstd::prelude::*;

verus! {

/// One attached device, as the device listing reports it.
#[derive(Clone, Debug)]
pub struct Device {
    /// Serial number or `ip:port`.
    pub id: String,
    /// State reported for the device, such as `device` or `offline`.
    pub status: String,
}

/// A device as plain text.
pub struct DeviceView {
    pub id: Seq<char>,
    pub status: Seq<char>,
}

impl View for Device {
    type V = DeviceView;

    open spec fn view(&self) -> DeviceView {
        DeviceView { id: self.id@, status: self.status@ }
    }
}

impl DeepView for Device {
    type V = DeviceView;

    open spec fn deep_view(&self) -> DeviceView {
        self@
    }
}

/// The device that one line of the listing describes: its first token is the
/// identifier, its second the status. A line with fewer tokens describes none.
pub open spec fn device_of(line: Seq<char>) -> Option<DeviceView> {
    let t = tokens_of(line);
    if t.len() >= 2 {
        Some(DeviceView { id: t[0], status: t[1] })
    } else {
        None
    }
}

/// The devices that `lines` describe, in the order of the lines.
pub open spec fn devices_in(lines: Seq<Seq<char>>) -> Seq<DeviceView>
    decreases lines.len(),
{
    if lines.len() == 0 {
        Seq::empty()
    } else {
        let before = devices_in(lines.drop_last());
        match device_of(lines.last()) {
            Some(d) => before.push(d),
            None => before,
        }
    }
}

/// The lines of `text` after its first line, the header.
pub open spec fn body_lines(text: Seq<char>) -> Seq<Seq<char>> {
    let all = lines_of(text);
    if all.len() == 0 {
        all
    } else {
        all.skip(1)
    }
}

/// The devices that the listing `text` reports.
pub open spec fn devices_of(text: Seq<char>) -> Seq<DeviceView> {
    devices_in(body_lines(text))
}

/// The text of a device listing: the header line, then the lines of `body`,
/// each line followed by a line feed, then the line `last`, which has no
/// line feed and may be empty.
pub open spec fn listing_text(header: Seq<char>, body: Seq<Seq<char>>, last: Seq<char>) -> Seq<
    char,
> {
    header + seq!['\n'] + (joined(body) + last)
}

/// The device that a line with two tokens or more describes.
pub open spec fn record_of(line: Seq<char>) -> DeviceView {
    DeviceView { id: tokens_of(line)[0], status: tokens_of(line)[1] }
}

/// The test that picks the lines that are not blank.
pub open spec fn not_blank() -> spec_fn(Seq<char>) -> bool {
    |line: Seq<char>| !is_blank(line)
}

/// The step from a line to the device that it describes.
pub open spec fn to_record() -> spec_fn(Seq<char>) -> DeviceView {
    |line: Seq<char>| record_of(line)
}

/// Carriage returns at the ends of lines change no device.
pub proof fn lemma_devices_in_stripped(lines: Seq<Seq<char>>)
    ensures
        devices_in(lines.map_values(|l: Seq<char>| strip_cr(l))) == devices_in(lines),
    decreases lines.len(),
{
    let stripped = lines.map_values(|l: Seq<char>| strip_cr(l));
    if lines.len() > 0 {
        lemma_devices_in_stripped(lines.drop_last());
        assert(stripped.drop_last() =~= lines.drop_last().map_values(|l: Seq<char>| strip_cr(l)));
        assert(stripped.last() == strip_cr(lines.last()));
        lemma_tokens_of_strip_cr(lines.last());
    }
}

/// Reading a listing gives back the devices of the lines that it was made
/// of: the header counts for nothing, and nothing is lost or added.
pub proof fn lemma_devices_of_listing_text(
    header: Seq<char>,
    body: Seq<Seq<char>>,
    last: Seq<char>,
)
    requires
        is_one_line(header),
        forall|i: int| 0 <= i < body.len() ==> is_one_line(#[trigger] body[i]),
        is_one_line(last),
    ensures
        devices_of(listing_text(header, body, last)) == devices_in(body.push(last)),
{
    let text = listing_text(header, body, last);
    let stripped = body.map_values(|l: Seq<char>| strip_cr(l));
    lemma_lines_of_first(header, joined(body) + last);
    lemma_lines_of_joined(body, last);
    lemma_lines_of_one_line(last);
    assert(lines_of(text) == seq![strip_cr(header)] + (stripped + lines_of(last)));
    assert(body_lines(text) =~= stripped + lines_of(last));
    lemma_devices_in_stripped(body);
    assert(body.push(last).drop_last() =~= body);
    if last.len() > 0 {
        assert(stripped + lines_of(last) =~= stripped.push(last));
        assert(stripped.push(last).drop_last() =~= stripped);
    } else {
        assert(stripped + lines_of(last) =~= stripped);
        assert(tokens_of(last) =~= Seq::<Seq<char>>::empty());
    }
}

/// A listing made of a header line, lines with two tokens or more, and
/// blank lines gives exactly one device for each line that is not blank, in
/// the order of the lines: the first token is the identifier, the second the
/// status. The last line may or may not end in a line feed.
pub proof fn well_formed_listing_gives_its_devices(
    header: Seq<char>,
    body: Seq<Seq<char>>,
    last: Seq<char>,
)
    requires
        is_one_line(header),
        forall|i: int|
            0 <= i < body.len() ==> is_one_line(#[trigger] body[i]) && (is_blank(body[i])
                || tokens_of(body[i]).len() >= 2),
        is_one_line(last),
        is_blank(last) || tokens_of(last).len() >= 2,
    ensures
        devices_of(listing_text(header, body, last)) == body.push(last).filter(
            not_blank(),
        ).map_values(to_record()),
        devices_of(listing_text(header, body, last)).len() == body.push(last).filter(
            not_blank(),
        ).len(),
{
    lemma_devices_of_listing_text(header, body, last);
    let all = body.push(last);
    assert forall|i: int| 0 <= i < all.len() implies is_blank(#[trigger] all[i]) || tokens_of(
        all[i],
    ).len() >= 2 by {
        if i < body.len() {
            assert(all[i] == body[i]);
        }
    }
    lemma_devices_in_records(all);
}

/// Where every line is blank or has two tokens or more, the devices of the
/// lines are the records of the lines that are not blank, in order.
proof fn lemma_devices_in_records(body: Seq<Seq<char>>)
    requires
        forall|i: int|
            0 <= i < body.len() ==> is_blank(#[trigger] body[i]) || tokens_of(body[i]).len() >= 2,
    ensures
        devices_in(body) == body.filter(not_blank()).map_values(to_record()),
    decreases body.len(),
{
    reveal(Seq::filter);
    if body.len() == 0 {
        assert(devices_in(body) =~= body.filter(not_blank()).map_values(to_record()));
    } else {
        let before = body.drop_last();
        let last = body.last();
        assert forall|i: int| 0 <= i < before.len() implies is_blank(#[trigger] before[i])
            || tokens_of(before[i]).len() >= 2 by {
            assert(before[i] == body[i]);
        }
        lemma_devices_in_records(before);
        assert(is_blank(body[body.len() - 1]) || tokens_of(body[body.len() - 1]).len() >= 2);
        if is_blank(last) {
            lemma_tokens_of_blank(last, 0);
        } else {
            assert(before.filter(not_blank()).push(last).map_values(to_record())
                =~= before.filter(not_blank()).map_values(to_record()).push(record_of(last)));
        }
    }
}

/// Reads one line of the device listing.
pub fn parse_device_line(line: &str) -> (r: Option<Device>)
    ensures
        r.deep_view() == device_of(line@),
{
    let parts = split_whitespace(line);
    assert(parts.deep_view().len() == parts.len());
    if parts.len() >= 2 {
        let id = parts[0].clone();
        let status = parts[1].clone();
        assert(parts.deep_view()[0] == parts[0]@);
        assert(parts.deep_view()[1] == parts[1]@);
        Some(Device { id, status })
    } else {
        None
    }
}

/// Reads the device listing: the first line is dropped, then every line with
/// at least two tokens gives one device, in the order of the lines.
pub fn parse_devices(text: &str) -> (out: Vec<Device>)
    ensures
        out.deep_view() == devices_of(text@),
{
    let all = lines(text);
    let mut out: Vec<Device> = Vec::new();
    let ghost body = body_lines(text@);
    let mut i: usize = 1;
    assert(all.deep_view().len() == all.len());
    assert(body.take(0) == Seq::<Seq<char>>::empty());
    while i < all.len()
        invariant
            1 <= i,
            all.deep_view() == lines_of(text@),
            all.deep_view().len() == all.len(),
            body == body_lines(text@),
            i <= all.len() ==> out.deep_view() == devices_in(body.take(i - 1)),
            i > all.len() ==> out.deep_view() == Seq::<DeviceView>::empty() && all.len() == 0,
        decreases all.len() - i,
    {
        let ghost before = out.deep_view();
        assert(all.deep_view()[i as int] == all[i as int]@);
        assert(body.take(i as int).drop_last() == body.take(i - 1));
        assert(body.take(i as int).last() == all[i as int]@);
        match parse_device_line(all[i].as_str()) {
            Some(d) => {
                out.push(d);
                assert(out.deep_view() == before.push(d@));
            },
            None => {},
        }
        i += 1;
    }
    assert(all.len() > 0 ==> body.take(all.len() - 1) == body);
    out
}

/// The devices that the outcome of the device listing reports: those of
/// its text where the tool ran and exited with success, none otherwise.
pub open spec fn listed_devices(outcome: Result<Seq<char>, Seq<char>>) -> Seq<DeviceView> {
    match outcome {
        Ok(text) => devices_of(text),
        Err(_) => Seq::empty(),
    }
}

/// What an attempt to disconnect a device leads to. Where the tool ran, what
/// it printed is the message, whatever its exit status. Where it could not
/// be started, there is no message. Either way the list of devices is to be
/// fetched anew.
pub open spec fn disconnect_feedback(outcome: Result<Seq<char>, Seq<char>>) -> FeedbackView {
    match outcome {
        Ok(text) => FeedbackView { message: Some(text), refresh: true },
        Err(_) => FeedbackView { message: None, refresh: true },
    }
}

/// Reads the run of the device listing: the devices that its standard
/// output reports where the tool ran and exited with success, none where it
/// failed or could not be started.
pub fn read_devices(run: &Result<CommandOutput, String>) -> (out: Vec<Device>)
    ensures
        out.deep_view() == listed_devices(result_of(*run)),
{
    match run {
        Ok(output) => {
            if output.exit_success {
                return parse_devices(output.stdout_text.as_str());
            }
        },
        Err(_) => {},
    }
    let out: Vec<Device> = Vec::new();
    assert(out.deep_view() =~= Seq::<DeviceView>::empty());
    out
}

/// The panel that lists the attached devices.
pub struct DevicesTab {
    devices: Vec<Device>,
}

impl View for DevicesTab {
    type V = Seq<DeviceView>;

    closed spec fn view(&self) -> Seq<DeviceView> {
        self.devices.deep_view()
    }
}

impl DevicesTab {
    /// The devices as last listed.
    pub fn devices(&self) -> (r: &Vec<Device>)
        ensures
            r.deep_view() == self@,
    {
        &self.devices
    }

    /// The command that lists the attached devices.
    pub fn refresh_command(&self) -> (args: Vec<String>)
        ensures
            args.deep_view() == seq!["devices"@],
    {
        AdbManager::new().devices_args()
    }

    /// Replaces the devices by those that the run of the device listing
    /// reports; none are left where the tool failed or could not be started.
    pub fn refresh_devices(&mut self, run: &Result<CommandOutput, String>)
        ensures
            final(self)@ == listed_devices(result_of(*run)),
    {
        self.devices = read_devices(run);
    }

    /// The command that disconnects the device at `index` of the list, if
    /// there is one.
    pub fn disconnect_command(&self, index: usize) -> (r: Option<Vec<String>>)
        ensures
            r is Some <==> index < self@.len(),
            r matches Some(args) ==> args.deep_view() == seq![
                "disconnect"@,
                self@[index as int].id,
            ],
    {
        assert(self.devices.deep_view().len() == self.devices.len());
        if index < self.devices.len() {
            assert(self.devices.deep_view()[index as int] == self.devices[index as int]@);
            Some(AdbManager::new().disconnect_args(self.devices[index].id.as_str()))
        } else {
            None
        }
    }

    /// Reads the run of a disconnect command: what the tool printed is the
    /// message, and the list of devices is to be fetched anew whatever came
    /// of the command.
    pub fn disconnected(&self, run: Result<CommandOutput, String>) -> (r: Feedback)
        ensures
            r@ == disconnect_feedback(echo_of(run)),
    {
        match run {
            Ok(output) => Feedback { message: Some(output.stdout_text), refresh: true },
            Err(_) => Feedback { message: None, refresh: true },
        }
    }
}

impl Default for DevicesTab {
    /// The panel as the application opens it: no device listed.
    fn default() -> (tab: Self)
        ensures
            tab@ == Seq::<DeviceView>::empty(),
    {
        let devices: Vec<Device> = Vec::new();
        assert(devices.deep_view() =~= Seq::<DeviceView>::empty());
        DevicesTab { devices }
    }
}

} // verus!
