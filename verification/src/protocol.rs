//! What the service exchanges with the device services, and what it reads from their answers.

use vstd::prelude::*;
use crate::text::reads;

verus! {

/// What a request asks for.
#[derive(Debug)]
pub enum Method {
    Read,
    Write,
    Execute,
    /// Any other method, by its name.
    Other(String),
}

/// Who a request is meant for.
#[derive(Debug)]
pub enum EntityKind {
    Gateway { service: String },
    Device { device: String },
    /// Any other receiver.
    Other,
}

/// The receiver of a request, and the place there. A path is a byte string.
#[derive(Debug)]
pub struct Entity {
    pub path: Vec<u8>,
    pub kind: EntityKind,
}

/// The data of a value.
#[derive(Debug)]
pub enum ValueData {
    String(Option<String>),
    StringArray(Vec<Option<String>>),
    Bytes(Vec<u8>),
    /// Data of any other type.
    Other,
}

/// What a request carries.
#[derive(Debug)]
pub enum Payload {
    Value(ValueData),
    /// Anything that is not a single value.
    Other,
}

/// A request, sent or received.
#[derive(Debug)]
pub struct Request {
    pub op: Method,
    pub entity: Entity,
    pub payload: Option<Payload>,
}

/// What a device says of its firmware download.
#[derive(Clone, Copy, Debug, PartialEq, Eq, Structural)]
pub enum FirmwareUpdateState {
    Idle,
    Downloading,
    DownloadComplete,
    Updating,
}

/// How the last firmware download or update of a device went.
#[derive(Clone, Copy, Debug, PartialEq, Eq, Structural)]
pub enum FirmwareUpdateResult {
    Initial,
    Success,
    UpdateFailed,
    /// Any other result, by its number.
    Other(u64),
}

impl FirmwareUpdateResult {
    /// Whether a device in this condition takes an image: the last image was not refused on its
    /// way to the device.
    pub open spec fn is_ready(self) -> bool {
        self == FirmwareUpdateResult::Initial || self == FirmwareUpdateResult::Success || self
            == FirmwareUpdateResult::UpdateFailed
    }

    /// Whether a device in this condition takes an image.
    pub fn ready(self) -> (r: bool)
        ensures
            r == self.is_ready(),
    {
        match self {
            FirmwareUpdateResult::Initial => true,
            FirmwareUpdateResult::Success => true,
            FirmwareUpdateResult::UpdateFailed => true,
            _ => false,
        }
    }
}

/// The objects of a device that the service looks at.
#[derive(Clone, Copy, Debug, PartialEq, Eq, Structural)]
pub enum ObjectType {
    FirmwareUpdate,
    Device,
    ConnectionStatus,
    /// Any other object.
    Other,
}

/// What the protocol has a number stand for: as the state of a firmware download, and as the result
/// of one.
#[derive(Clone, Copy, Debug)]
pub struct Number {
    pub state: Option<FirmwareUpdateState>,
    pub result: Option<FirmwareUpdateResult>,
}

/// The value of a resource, as far as it can be read: as a text, as a number, as a flag.
#[derive(Debug)]
pub struct Resource {
    pub text: Option<String>,
    pub number: Option<Number>,
    pub flag: Option<bool>,
}

/// A resource under its name.
#[derive(Debug)]
pub struct NamedResource {
    pub name: String,
    pub value: Resource,
}

/// An instance of an object under its identifier. No two resources share a name.
#[derive(Debug)]
pub struct ObjectInstance {
    pub id: String,
    pub resources: Vec<NamedResource>,
}

/// An object of a device. No two instances share an identifier.
#[derive(Debug)]
pub struct DeviceObject {
    pub kind: ObjectType,
    pub instances: Vec<ObjectInstance>,
}

/// A device as its device service describes it. No two objects of the kinds that have a name of
/// their own share a kind.
#[derive(Debug)]
pub struct RawDevice {
    pub objects: Vec<DeviceObject>,
}

/// The first object of the kind.
pub open spec fn object_of(objects: Seq<DeviceObject>, kind: ObjectType) -> Option<DeviceObject>
    decreases objects.len(),
{
    if objects.len() == 0 {
        None
    } else if objects.first().kind == kind {
        Some(objects.first())
    } else {
        object_of(objects.drop_first(), kind)
    }
}

/// The first instance with the identifier.
pub open spec fn instance_of(
    instances: Seq<ObjectInstance>,
    id: Seq<char>,
) -> Option<ObjectInstance>
    decreases instances.len(),
{
    if instances.len() == 0 {
        None
    } else if instances.first().id@ == id {
        Some(instances.first())
    } else {
        instance_of(instances.drop_first(), id)
    }
}

/// The first resource with the name.
pub open spec fn resource_of(resources: Seq<NamedResource>, name: Seq<char>) -> Option<Resource>
    decreases resources.len(),
{
    if resources.len() == 0 {
        None
    } else if resources.first().name@ == name {
        Some(resources.first().value)
    } else {
        resource_of(resources.drop_first(), name)
    }
}

impl RawDevice {
    /// The object of the kind.
    pub fn object(&self, kind: ObjectType) -> (r: Option<&DeviceObject>)
        ensures
            match r {
                Some(object) => object_of(self.objects@, kind) == Some(*object),
                None => object_of(self.objects@, kind) is None,
            },
    {
        let mut i: usize = 0;
        assert(self.objects@.skip(0) =~= self.objects@);
        while i < self.objects.len()
            invariant
                i <= self.objects.len(),
                object_of(self.objects@, kind) == object_of(self.objects@.skip(i as int), kind),
            decreases self.objects.len() - i,
        {
            assert(self.objects@.skip(i as int).drop_first() =~= self.objects@.skip(i + 1));
            if self.objects[i].kind == kind {
                return Some(&self.objects[i]);
            }
            i += 1;
        }
        None
    }
}

impl DeviceObject {
    /// The instance with the identifier.
    pub fn instance(&self, id: &str) -> (r: Option<&ObjectInstance>)
        ensures
            match r {
                Some(instance) => instance_of(self.instances@, id@) == Some(*instance),
                None => instance_of(self.instances@, id@) is None,
            },
    {
        let mut i: usize = 0;
        assert(self.instances@.skip(0) =~= self.instances@);
        while i < self.instances.len()
            invariant
                i <= self.instances.len(),
                instance_of(self.instances@, id@) == instance_of(
                    self.instances@.skip(i as int),
                    id@,
                ),
            decreases self.instances.len() - i,
        {
            assert(self.instances@.skip(i as int).drop_first() =~= self.instances@.skip(i + 1));
            if reads(self.instances[i].id.as_str(), id) {
                return Some(&self.instances[i]);
            }
            i += 1;
        }
        None
    }
}

impl ObjectInstance {
    /// The resource with the name.
    pub fn resource(&self, name: &str) -> (r: Option<&Resource>)
        ensures
            match r {
                Some(resource) => resource_of(self.resources@, name@) == Some(*resource),
                None => resource_of(self.resources@, name@) is None,
            },
    {
        let mut i: usize = 0;
        assert(self.resources@.skip(0) =~= self.resources@);
        while i < self.resources.len()
            invariant
                i <= self.resources.len(),
                resource_of(self.resources@, name@) == resource_of(
                    self.resources@.skip(i as int),
                    name@,
                ),
            decreases self.resources.len() - i,
        {
            assert(self.resources@.skip(i as int).drop_first() =~= self.resources@.skip(i + 1));
            if reads(self.resources[i].name.as_str(), name) {
                return Some(&self.resources[i].value);
            }
            i += 1;
        }
        None
    }
}

} // verus!
