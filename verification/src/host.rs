//! The devices that the platform has announced, and what can be asked of
//! them: which of them are visible, which is the default one, and which
//! formats each of them offers.

use vstd::prelude::*;
use vstd::std_specs::cmp::PartialEqSpecImpl;
use crate::error::{CreationError, FormatsEnumerationError};
use crate::format::{Format, FormatView};

verus! {

/// The views of a sequence of formats, in the same order.
pub open spec fn format_views(formats: Seq<Format>) -> Seq<FormatView> {
    formats.map_values(|f: Format| f@)
}

/// The valid formats among `formats`, in the same order.
pub open spec fn valid_formats(formats: Seq<FormatView>) -> Seq<FormatView>
    decreases formats.len(),
{
    if formats.len() == 0 {
        Seq::empty()
    } else if formats.last().is_valid() {
        valid_formats(formats.drop_last()).push(formats.last())
    } else {
        valid_formats(formats.drop_last())
    }
}

/// An opaque handle that identifies one output device of a host. Two
/// endpoints are equal when they identify the same device.
#[derive(Debug)]
pub struct Endpoint {
    index: usize,
    name: String,
}

/// What an `Endpoint` stands for: the place of its device in the host's
/// table, and the label that the device had when it was enumerated.
pub ghost struct EndpointView {
    pub index: nat,
    pub name: Seq<char>,
}

impl View for Endpoint {
    type V = EndpointView;

    closed spec fn view(&self) -> EndpointView {
        EndpointView { index: self.index as nat, name: self.name@ }
    }
}

impl Clone for Endpoint {
    fn clone(&self) -> (copy: Endpoint)
        ensures
            copy@ == self@,
    {
        Endpoint { index: self.index, name: self.name.clone() }
    }
}

impl PartialEq for Endpoint {
    fn eq(&self, other: &Endpoint) -> (equal: bool) {
        self.index == other.index
    }
}

impl PartialEqSpecImpl for Endpoint {
    open spec fn obeys_eq_spec() -> bool {
        true
    }

    open spec fn eq_spec(&self, other: &Endpoint) -> bool {
        self@.index == other@.index
    }
}

impl Eq for Endpoint {

}

/// The views of a sequence of endpoints, in the same order.
pub open spec fn endpoint_views(endpoints: Seq<Endpoint>) -> Seq<EndpointView> {
    endpoints.map_values(|e: Endpoint| e@)
}

/// One device as the platform announced it.
struct Device {
    name: String,
    present: bool,
    formats: Vec<Format>,
    max_frames: usize,
}

/// What the host knows of one device.
pub ghost struct DeviceView {
    /// The label of the device.
    pub name: Seq<char>,
    /// Whether the device is still connected.
    pub present: bool,
    /// The formats that the device announced, the preferred one first.
    pub formats: Seq<FormatView>,
    /// The largest number of frames that the device takes in one fill cycle.
    pub max_frames: nat,
}

impl View for Device {
    type V = DeviceView;

    closed spec fn view(&self) -> DeviceView {
        DeviceView {
            name: self.name@,
            present: self.present,
            formats: format_views(self.formats@),
            max_frames: self.max_frames as nat,
        }
    }
}

/// The table of the devices that the platform has announced. A device keeps
/// its place in the table for good: one that went away is marked absent. A
/// host without devices stands for a platform without audio output.
pub struct Host {
    devices: Vec<Device>,
    default_device: Option<usize>,
}

/// What a `Host` stands for.
pub ghost struct HostView {
    pub devices: Seq<DeviceView>,
    pub default_device: Option<nat>,
}

impl HostView {
    /// Whether `index` names a device that is still connected.
    pub open spec fn is_live(self, index: nat) -> bool {
        index < self.devices.len() && self.devices[index as int].present
    }

    /// The handle of the device at `index`.
    pub open spec fn endpoint_at(self, index: nat) -> EndpointView {
        EndpointView { index, name: self.devices[index as int].name }
    }

    /// The handles of the connected devices among the first `n`, in the order
    /// of the table.
    pub open spec fn visible_among(self, n: nat) -> Seq<EndpointView>
        decreases n,
    {
        if n == 0 {
            Seq::empty()
        } else if self.devices[n - 1].present {
            self.visible_among((n - 1) as nat).push(self.endpoint_at((n - 1) as nat))
        } else {
            self.visible_among((n - 1) as nat)
        }
    }

    /// The handles of all connected devices, in the order of the table.
    pub open spec fn endpoints(self) -> Seq<EndpointView> {
        self.visible_among(self.devices.len())
    }

    /// The handle of the default device, if one is set and still connected.
    pub open spec fn default_endpoint(self) -> Option<EndpointView> {
        match self.default_device {
            Some(index) => if self.is_live(index) {
                Some(self.endpoint_at(index))
            } else {
                None
            },
            None => None,
        }
    }

    /// The formats that a voice on the device at `index` can be bound to:
    /// the valid ones among those that the device announced, the preferred
    /// one first.
    pub open spec fn supported_formats(self, index: nat) -> Seq<FormatView> {
        valid_formats(self.devices[index as int].formats)
    }

    /// What asking the device at `index` for its formats gives.
    pub open spec fn formats_of(self, index: nat) -> Result<
        Seq<FormatView>,
        FormatsEnumerationError,
    > {
        if self.is_live(index) {
            Ok(self.supported_formats(index))
        } else {
            Err(FormatsEnumerationError::DeviceNotAvailable)
        }
    }

    /// Whether a voice with `format` can be created on the device at `index`,
    /// and if not, why.
    pub open spec fn accepts(self, index: nat, format: FormatView) -> Result<(), CreationError> {
        if !self.is_live(index) {
            Err(CreationError::DeviceNotAvailable)
        } else if !self.supported_formats(index).contains(format) {
            Err(CreationError::FormatNotSupported)
        } else {
            Ok(())
        }
    }

    /// The table after a device with this label, these formats and this
    /// limit has been connected.
    pub open spec fn connected(self, name: Seq<char>, formats: Seq<FormatView>, max_frames: nat)
        -> HostView {
        HostView {
            devices: self.devices.push(DeviceView { name, present: true, formats, max_frames }),
            default_device: self.default_device,
        }
    }

    /// The table after the device at `index` has gone away.
    pub open spec fn disconnected(self, index: nat) -> HostView {
        if index < self.devices.len() {
            HostView {
                devices: self.devices.update(
                    index as int,
                    DeviceView { present: false, ..self.devices[index as int] },
                ),
                default_device: self.default_device,
            }
        } else {
            self
        }
    }
}

impl View for Host {
    type V = HostView;

    closed spec fn view(&self) -> HostView {
        HostView {
            devices: self.devices@.map_values(|d: Device| d@),
            default_device: match self.default_device {
                Some(index) => Some(index as nat),
                None => None,
            },
        }
    }
}

impl Host {
    /// A host that knows no device.
    pub fn new() -> (host: Host)
        ensures
            host@.devices.len() == 0,
            host@.default_device is None,
    {
        Host { devices: Vec::new(), default_device: None }
    }

    /// Records a device that the platform announced, and returns its handle.
    /// `formats` are the formats it offers, the preferred one first, and
    /// `max_frames` is the largest number of frames it takes in one fill
    /// cycle.
    pub fn connect(&mut self, name: String, formats: Vec<Format>, max_frames: usize) -> (endpoint: Endpoint)
        ensures
            final(self)@ == old(self)@.connected(
                name@,
                format_views(formats@),
                max_frames as nat,
            ),
            endpoint@ == final(self)@.endpoint_at(old(self)@.devices.len()),
    {
        let index = self.devices.len();
        let endpoint = Endpoint { index, name: name.clone() };
        let device = Device { name, present: true, formats, max_frames };
        self.devices.push(device);
        assert(self@.devices == old(self)@.connected(
            name@,
            format_views(formats@),
            max_frames as nat,
        ).devices);
        endpoint
    }

    /// Records that the device of `endpoint` went away. Without effect if
    /// this host has no such device.
    pub fn disconnect(&mut self, endpoint: &Endpoint)
        ensures
            final(self)@ == old(self)@.disconnected(endpoint@.index),
    {
        if endpoint.index < self.devices.len() {
            self.devices[endpoint.index].present = false;
            assert(self@.devices == old(self)@.disconnected(endpoint@.index).devices);
        }
    }

    /// Makes the device of `endpoint` the default one.
    pub fn set_default(&mut self, endpoint: &Endpoint)
        ensures
            final(self)@.devices == old(self)@.devices,
            final(self)@.default_device == Some(endpoint@.index),
    {
        self.default_device = Some(endpoint.index);
    }

    /// Decides whether a voice with `format` can be created on the device of
    /// `endpoint`. If it can, the answer is the largest number of frames
    /// that the device takes in one fill cycle.
    #[verifier::loop_isolation(false)]
    pub(crate) fn accept(&self, endpoint: &Endpoint, format: &Format) -> (answer: Result<
        usize,
        CreationError,
    >)
        ensures
            match self@.accepts(endpoint@.index, format@) {
                Ok(()) => answer matches Ok(frames) && frames
                    == self@.devices[endpoint@.index as int].max_frames && format@.is_valid(),
                Err(error) => answer == Err::<usize, CreationError>(error),
            },
    {
        if !self.is_available(endpoint) {
            return Err(CreationError::DeviceNotAvailable);
        }
        let device = &self.devices[endpoint.index];
        let ghost announced = format_views(device.formats@);
        proof {
            assert(self@.devices[endpoint@.index as int] == device@);
            lemma_valid_formats_contains(announced, format@);
        }
        if !format.is_valid() {
            return Err(CreationError::FormatNotSupported);
        }
        let mut i: usize = 0;
        while i < device.formats.len()
            invariant
                i <= device.formats.len(),
                announced == format_views(device.formats@),
                forall|j: int| 0 <= j < i ==> announced[j] != format@,
            decreases device.formats.len() - i,
        {
            if device.formats[i] == *format {
                assert(announced[i as int] == format@);
                assert(announced.contains(format@));
                return Ok(device.max_frames);
            }
            i += 1;
        }
        Err(CreationError::FormatNotSupported)
    }

    /// Whether the device of `endpoint` is still connected.
    pub fn is_available(&self, endpoint: &Endpoint) -> (live: bool)
        ensures
            live == self@.is_live(endpoint@.index),
    {
        endpoint.index < self.devices.len() && self.devices[endpoint.index].present
    }
}

/// The endpoints that were visible when the list was asked for, handed out
/// one by one. A device that goes away later stays in the list.
pub struct EndpointsIterator {
    endpoints: Vec<Endpoint>,
    position: usize,
}

impl View for EndpointsIterator {
    type V = Seq<EndpointView>;

    /// The endpoints that are still to come, the next one first.
    closed spec fn view(&self) -> Seq<EndpointView> {
        if self.position <= self.endpoints.len() {
            endpoint_views(self.endpoints@).skip(self.position as int)
        } else {
            Seq::empty()
        }
    }
}

impl EndpointsIterator {
    /// The next endpoint, or `None` when all have been handed out.
    pub fn next(&mut self) -> (item: Option<Endpoint>)
        ensures
            old(self)@.len() == 0 ==> item is None && final(self)@ == old(self)@,
            old(self)@.len() > 0 ==> item is Some && item->0@ == old(self)@[0] && final(self)@
                == old(self)@.skip(1),
    {
        if self.position < self.endpoints.len() {
            let endpoint = self.endpoints[self.position].clone();
            self.position += 1;
            assert(self@ == old(self)@.skip(1));
            Some(endpoint)
        } else {
            None
        }
    }

    /// The number of endpoints that are still to come, as a lower and an
    /// upper bound.
    pub fn size_hint(&self) -> (bounds: (usize, Option<usize>))
        ensures
            bounds.0 == self@.len(),
            bounds.1 == Some(bounds.0),
    {
        let left = if self.position <= self.endpoints.len() {
            self.endpoints.len() - self.position
        } else {
            0
        };
        (left, Some(left))
    }
}

/// The formats that an endpoint supported when it was asked, handed out one
/// by one, the preferred one first.
pub struct SupportedFormatsIterator {
    formats: Vec<Format>,
    position: usize,
}

impl View for SupportedFormatsIterator {
    type V = Seq<FormatView>;

    /// The formats that are still to come, the next one first.
    closed spec fn view(&self) -> Seq<FormatView> {
        if self.position <= self.formats.len() {
            format_views(self.formats@).skip(self.position as int)
        } else {
            Seq::empty()
        }
    }
}

impl SupportedFormatsIterator {
    /// The next format, or `None` when all have been handed out.
    pub fn next(&mut self) -> (item: Option<Format>)
        ensures
            old(self)@.len() == 0 ==> item is None && final(self)@ == old(self)@,
            old(self)@.len() > 0 ==> item is Some && item->0@ == old(self)@[0] && final(self)@
                == old(self)@.skip(1),
    {
        if self.position < self.formats.len() {
            let format = self.formats[self.position].clone();
            self.position += 1;
            assert(self@ == old(self)@.skip(1));
            Some(format)
        } else {
            None
        }
    }

    /// The number of formats that are still to come, as a lower and an upper
    /// bound.
    pub fn size_hint(&self) -> (bounds: (usize, Option<usize>))
        ensures
            bounds.0 == self@.len(),
            bounds.1 == Some(bounds.0),
    {
        let left = if self.position <= self.formats.len() {
            self.formats.len() - self.position
        } else {
            0
        };
        (left, Some(left))
    }
}

/// The endpoints of the devices that are connected to `host` now, in the
/// order in which they were announced.
pub fn get_endpoints_list(host: &Host) -> (list: EndpointsIterator)
    ensures
        list@ == host@.endpoints(),
{
    let mut endpoints: Vec<Endpoint> = Vec::new();
    let mut i: usize = 0;
    while i < host.devices.len()
        invariant
            i <= host.devices.len(),
            endpoint_views(endpoints@) == host@.visible_among(i as nat),
        decreases host.devices.len() - i,
    {
        if host.devices[i].present {
            let endpoint = Endpoint { index: i, name: host.devices[i].name.clone() };
            endpoints.push(endpoint);
            assert(endpoint_views(endpoints@) == host@.visible_among(i as nat).push(
                host@.endpoint_at(i as nat),
            ));
        }
        i += 1;
    }
    let list = EndpointsIterator { endpoints, position: 0 };
    assert(list@ == endpoint_views(endpoints@));
    list
}

/// The endpoint of the default device of `host`, or `None` if none is set or
/// the one that is set went away.
pub fn get_default_endpoint(host: &Host) -> (endpoint: Option<Endpoint>)
    ensures
        match host@.default_endpoint() {
            Some(view) => endpoint is Some && endpoint->0@ == view,
            None => endpoint is None,
        },
{
    match host.default_device {
        Some(index) => {
            if index < host.devices.len() && host.devices[index].present {
                Some(Endpoint { index, name: host.devices[index].name.clone() })
            } else {
                None
            }
        },
        None => None,
    }
}

impl Endpoint {
    /// The formats that the device supports now, the preferred one first.
    /// Fails if the device went away since it was enumerated.
    pub fn get_supported_formats_list(&self, host: &Host) -> (list: Result<
        SupportedFormatsIterator,
        FormatsEnumerationError,
    >)
        ensures
            match host@.formats_of(self@.index) {
                Ok(formats) => list is Ok && list->Ok_0@ == formats,
                Err(error) => list == Err::<SupportedFormatsIterator, _>(error),
            },
    {
        if !host.is_available(self) {
            return Err(FormatsEnumerationError::DeviceNotAvailable);
        }
        let device = &host.devices[self.index];
        let ghost announced = format_views(device.formats@);
        let mut formats: Vec<Format> = Vec::new();
        let mut i: usize = 0;
        while i < device.formats.len()
            invariant
                i <= device.formats.len(),
                announced == format_views(device.formats@),
                format_views(formats@) == valid_formats(announced.take(i as int)),
            decreases device.formats.len() - i,
        {
            assert(announced.take(i + 1).drop_last() == announced.take(i as int));
            if device.formats[i].is_valid() {
                formats.push(device.formats[i].clone());
                assert(format_views(formats@) == valid_formats(announced.take(i as int)).push(
                    announced[i as int],
                ));
            }
            i += 1;
        }
        assert(announced.take(i as int) == announced);
        let list = SupportedFormatsIterator { formats, position: 0 };
        assert(list@ == format_views(formats@));
        Ok(list)
    }

    /// The label of the device, as it was when the endpoint was enumerated.
    pub fn get_name(&self) -> (name: String)
        ensures
            name@ == self@.name,
    {
        self.name.clone()
    }
}


/// A format is among the valid ones of a list exactly if it is valid and in
/// the list.
pub proof fn lemma_valid_formats_contains(formats: Seq<FormatView>, format: FormatView)
    ensures
        valid_formats(formats).contains(format) <==> format.is_valid() && formats.contains(format),
    decreases formats.len(),
{
    if formats.len() > 0 {
        let rest = formats.drop_last();
        lemma_valid_formats_contains(rest, format);
        if formats.contains(format) && format != formats.last() {
            let i = choose|i: int| 0 <= i < formats.len() && formats[i] == format;
            assert(rest[i] == format);
        }
        if rest.contains(format) {
            let i = choose|i: int| 0 <= i < rest.len() && rest[i] == format;
            assert(formats[i] == format);
        }
        if formats.last().is_valid() {
            let kept = valid_formats(rest);
            let all = kept.push(formats.last());
            assert(all[kept.len() as int] == formats.last());
            if kept.contains(format) {
                let i = choose|i: int| 0 <= i < kept.len() && kept[i] == format;
                assert(all[i] == format);
            }
            if all.contains(format) {
                let i = choose|i: int| 0 <= i < all.len() && all[i] == format;
                if i < kept.len() {
                    assert(kept[i] == format);
                }
            }
            assert(formats[formats.len() - 1] == formats.last());
        }
    }
}

/// An endpoint is in the list of a host exactly if its device is connected,
/// and it carries the label of that device.
pub proof fn lemma_endpoints_are_the_live_devices(host: HostView, endpoint: EndpointView)
    ensures
        host.endpoints().contains(endpoint) <==> host.is_live(endpoint.index) && endpoint
            == host.endpoint_at(endpoint.index),
{
    lemma_visible_among(host, host.devices.len(), endpoint);
}

proof fn lemma_visible_among(host: HostView, n: nat, endpoint: EndpointView)
    requires
        n <= host.devices.len(),
    ensures
        host.visible_among(n).contains(endpoint) <==> endpoint.index < n && host.is_live(
            endpoint.index,
        ) && endpoint == host.endpoint_at(endpoint.index),
    decreases n,
{
    if n > 0 {
        let before = host.visible_among((n - 1) as nat);
        lemma_visible_among(host, (n - 1) as nat, endpoint);
        if host.devices[n - 1].present {
            let all = before.push(host.endpoint_at((n - 1) as nat));
            assert(all[before.len() as int] == host.endpoint_at((n - 1) as nat));
            if before.contains(endpoint) {
                let i = choose|i: int| 0 <= i < before.len() && before[i] == endpoint;
                assert(all[i] == endpoint);
            }
            if all.contains(endpoint) {
                let i = choose|i: int| 0 <= i < all.len() && all[i] == endpoint;
                if i < before.len() {
                    assert(before[i] == endpoint);
                }
            }
        }
    }
}

/// Every format that a connected device is listed with is one that a voice
/// can be created with on that device.
pub proof fn lemma_listed_format_is_accepted(host: HostView, index: nat, i: int)
    requires
        host.is_live(index),
        0 <= i < host.supported_formats(index).len(),
    ensures
        host.formats_of(index) == Ok::<Seq<FormatView>, FormatsEnumerationError>(
            host.supported_formats(index),
        ),
        host.accepts(index, host.supported_formats(index)[i]) is Ok,
        host.supported_formats(index)[i].is_valid(),
{
    let listed = host.supported_formats(index);
    assert(listed.contains(listed[i]));
    lemma_valid_formats_contains(host.devices[index as int].formats, listed[i]);
}

/// A device that went away is no longer listed, offers no formats and takes
/// no voice; the other devices are as they were.
pub proof fn lemma_disconnected_device_is_gone(host: HostView, index: nat, format: FormatView)
    requires
        index < host.devices.len(),
    ensures
        !host.disconnected(index).is_live(index),
        host.disconnected(index).formats_of(index) == Err::<Seq<FormatView>, _>(
            FormatsEnumerationError::DeviceNotAvailable,
        ),
        host.disconnected(index).accepts(index, format) == Err::<(), _>(
            CreationError::DeviceNotAvailable,
        ),
        forall|other: nat|
            other != index ==> host.disconnected(index).formats_of(other) == host.formats_of(
                other,
            ),
{
}

} // verus!
