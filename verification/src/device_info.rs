//! What the service knows of each device.

use vstd::prelude::*;
use crate::protocol;
use crate::protocol::{
    FirmwareUpdateResult,
    FirmwareUpdateState,
    Number,
    ObjectType,
    RawDevice,
    Resource,
};

verus! {

/// What the service knows of a device.
#[derive(Debug)]
pub struct DeviceInfo {
    pub model_number: String,
    pub software_version: String,
    pub firmware_version: String,
    pub firmware_update_state: FirmwareUpdateState,
    pub firmware_update_result: FirmwareUpdateResult,
    pub pkg_version: String,
    pub online: bool,
}

impl DeviceInfo {
    /// Whether two descriptions read the same.
    pub open spec fn same(self, other: DeviceInfo) -> bool {
        &&& self.model_number@ == other.model_number@
        &&& self.software_version@ == other.software_version@
        &&& self.firmware_version@ == other.firmware_version@
        &&& self.firmware_update_state == other.firmware_update_state
        &&& self.firmware_update_result == other.firmware_update_result
        &&& self.pkg_version@ == other.pkg_version@
        &&& self.online == other.online
    }

    /// Whether two descriptions read the same.
    pub fn reads_same(&self, other: &DeviceInfo) -> (r: bool)
        ensures
            r == self.same(*other),
    {
        self.model_number == other.model_number && self.software_version == other.software_version
            && self.firmware_version == other.firmware_version && self.firmware_update_state
            == other.firmware_update_state && self.firmware_update_result
            == other.firmware_update_result && self.pkg_version == other.pkg_version && self.online
            == other.online
    }
}

impl Clone for DeviceInfo {
    fn clone(&self) -> (r: DeviceInfo)
        ensures
            r == *self,
    {
        DeviceInfo {
            model_number: self.model_number.clone(),
            software_version: self.software_version.clone(),
            firmware_version: self.firmware_version.clone(),
            firmware_update_state: self.firmware_update_state,
            firmware_update_result: self.firmware_update_result,
            pkg_version: self.pkg_version.clone(),
            online: self.online,
        }
    }
}

/// The resources that a description is made of.
#[derive(Clone, Copy, Debug, PartialEq, Eq, Structural)]
pub enum ResourceName {
    PkgVersion,
    State,
    UpdateResult,
    SoftwareVersion,
    ModelNumber,
    FirmwareVersion,
    Online,
}

impl ResourceName {
    /// The object that holds the resource.
    pub open spec fn holder(self) -> ObjectType {
        match self {
            ResourceName::PkgVersion => ObjectType::FirmwareUpdate,
            ResourceName::State => ObjectType::FirmwareUpdate,
            ResourceName::UpdateResult => ObjectType::FirmwareUpdate,
            ResourceName::SoftwareVersion => ObjectType::Device,
            ResourceName::ModelNumber => ObjectType::Device,
            ResourceName::FirmwareVersion => ObjectType::Device,
            ResourceName::Online => ObjectType::ConnectionStatus,
        }
    }

    /// What the resource is called in its object.
    pub open spec fn key(self) -> Seq<char> {
        match self {
            ResourceName::PkgVersion => "pkg_version"@,
            ResourceName::State => "state"@,
            ResourceName::UpdateResult => "update_result"@,
            ResourceName::SoftwareVersion => "software_version"@,
            ResourceName::ModelNumber => "model_number"@,
            ResourceName::FirmwareVersion => "firmware_version"@,
            ResourceName::Online => "online"@,
        }
    }

    /// The object that holds the resource.
    pub fn object_type(self) -> (r: ObjectType)
        ensures
            r == self.holder(),
    {
        match self {
            ResourceName::PkgVersion => ObjectType::FirmwareUpdate,
            ResourceName::State => ObjectType::FirmwareUpdate,
            ResourceName::UpdateResult => ObjectType::FirmwareUpdate,
            ResourceName::SoftwareVersion => ObjectType::Device,
            ResourceName::ModelNumber => ObjectType::Device,
            ResourceName::FirmwareVersion => ObjectType::Device,
            ResourceName::Online => ObjectType::ConnectionStatus,
        }
    }

    /// What the resource is called in its object.
    pub fn name(self) -> (r: &'static str)
        ensures
            r@ == self.key(),
    {
        match self {
            ResourceName::PkgVersion => "pkg_version",
            ResourceName::State => "state",
            ResourceName::UpdateResult => "update_result",
            ResourceName::SoftwareVersion => "software_version",
            ResourceName::ModelNumber => "model_number",
            ResourceName::FirmwareVersion => "firmware_version",
            ResourceName::Online => "online",
        }
    }
}

/// Why a device cannot be described.
#[derive(Clone, Copy, Debug, PartialEq, Eq, Structural)]
pub enum DeviceInfoError {
    NoObject(ObjectType),
    NoInstance(ObjectType),
    NoResource(ResourceName),
    /// The resource holds a value of another type.
    WrongType(ResourceName),
    UnsupportedState,
    UnsupportedResult,
}

/// The resource as the device has it: in instance `0` of the object that holds it.
pub open spec fn resource_in(device: RawDevice, name: ResourceName) -> Result<
    Resource,
    DeviceInfoError,
> {
    match protocol::object_of(device.objects@, name.holder()) {
        None => Err(DeviceInfoError::NoObject(name.holder())),
        Some(object) => match protocol::instance_of(object.instances@, "0"@) {
            None => Err(DeviceInfoError::NoInstance(name.holder())),
            Some(instance) => match protocol::resource_of(instance.resources@, name.key()) {
                None => Err(DeviceInfoError::NoResource(name)),
                Some(resource) => Ok(resource),
            },
        },
    }
}

/// The resource as a text.
pub open spec fn text_in(device: RawDevice, name: ResourceName) -> Result<String, DeviceInfoError> {
    match resource_in(device, name) {
        Err(e) => Err(e),
        Ok(resource) => match resource.text {
            Some(text) => Ok(text),
            None => Err(DeviceInfoError::WrongType(name)),
        },
    }
}

/// The resource as a number.
pub open spec fn number_in(device: RawDevice, name: ResourceName) -> Result<
    Number,
    DeviceInfoError,
> {
    match resource_in(device, name) {
        Err(e) => Err(e),
        Ok(resource) => match resource.number {
            Some(number) => Ok(number),
            None => Err(DeviceInfoError::WrongType(name)),
        },
    }
}

/// The resource as a flag.
pub open spec fn flag_in(device: RawDevice, name: ResourceName) -> Result<bool, DeviceInfoError> {
    match resource_in(device, name) {
        Err(e) => Err(e),
        Ok(resource) => match resource.flag {
            Some(flag) => Ok(flag),
            None => Err(DeviceInfoError::WrongType(name)),
        },
    }
}

/// The state of the firmware download.
pub open spec fn state_in(device: RawDevice) -> Result<FirmwareUpdateState, DeviceInfoError> {
    match number_in(device, ResourceName::State) {
        Err(e) => Err(e),
        Ok(number) => match number.state {
            Some(state) => Ok(state),
            None => Err(DeviceInfoError::UnsupportedState),
        },
    }
}

/// The result of the last firmware download or update.
pub open spec fn result_in(device: RawDevice) -> Result<FirmwareUpdateResult, DeviceInfoError> {
    match number_in(device, ResourceName::UpdateResult) {
        Err(e) => Err(e),
        Ok(number) => match number.result {
            Some(result) => Ok(result),
            None => Err(DeviceInfoError::UnsupportedResult),
        },
    }
}

/// What is wrong with a device: of its resources, taken in this order, the first one that cannot
/// be had.
pub open spec fn first_error(device: RawDevice) -> Option<DeviceInfoError> {
    if text_in(device, ResourceName::PkgVersion) is Err {
        Some(text_in(device, ResourceName::PkgVersion)->Err_0)
    } else if state_in(device) is Err {
        Some(state_in(device)->Err_0)
    } else if result_in(device) is Err {
        Some(result_in(device)->Err_0)
    } else if text_in(device, ResourceName::SoftwareVersion) is Err {
        Some(text_in(device, ResourceName::SoftwareVersion)->Err_0)
    } else if text_in(device, ResourceName::ModelNumber) is Err {
        Some(text_in(device, ResourceName::ModelNumber)->Err_0)
    } else if text_in(device, ResourceName::FirmwareVersion) is Err {
        Some(text_in(device, ResourceName::FirmwareVersion)->Err_0)
    } else if flag_in(device, ResourceName::Online) is Err {
        Some(flag_in(device, ResourceName::Online)->Err_0)
    } else {
        None
    }
}

/// The description of a device, or what is wrong with the device.
pub open spec fn device_info_of(device: RawDevice) -> Result<DeviceInfo, DeviceInfoError> {
    match first_error(device) {
        Some(e) => Err(e),
        None => Ok(
            DeviceInfo {
                model_number: text_in(device, ResourceName::ModelNumber)->Ok_0,
                software_version: text_in(device, ResourceName::SoftwareVersion)->Ok_0,
                firmware_version: text_in(device, ResourceName::FirmwareVersion)->Ok_0,
                firmware_update_state: state_in(device)->Ok_0,
                firmware_update_result: result_in(device)->Ok_0,
                pkg_version: text_in(device, ResourceName::PkgVersion)->Ok_0,
                online: flag_in(device, ResourceName::Online)->Ok_0,
            },
        ),
    }
}

fn find_resource(device: &RawDevice, name: ResourceName) -> (r: Result<&Resource, DeviceInfoError>)
    ensures
        match r {
            Ok(resource) => resource_in(*device, name) == Ok::<Resource, DeviceInfoError>(
                *resource,
            ),
            Err(e) => resource_in(*device, name) == Err::<Resource, DeviceInfoError>(e),
        },
{
    match device.object(name.object_type()) {
        None => Err(DeviceInfoError::NoObject(name.object_type())),
        Some(object) => match object.instance("0") {
            None => Err(DeviceInfoError::NoInstance(name.object_type())),
            Some(instance) => match instance.resource(name.name()) {
                None => Err(DeviceInfoError::NoResource(name)),
                Some(resource) => Ok(resource),
            },
        },
    }
}

fn read_text(device: &RawDevice, name: ResourceName) -> (r: Result<String, DeviceInfoError>)
    ensures
        r == text_in(*device, name),
{
    match find_resource(device, name) {
        Err(e) => Err(e),
        Ok(resource) => match &resource.text {
            Some(text) => Ok(text.clone()),
            None => Err(DeviceInfoError::WrongType(name)),
        },
    }
}

fn read_number(device: &RawDevice, name: ResourceName) -> (r: Result<Number, DeviceInfoError>)
    ensures
        r == number_in(*device, name),
{
    match find_resource(device, name) {
        Err(e) => Err(e),
        Ok(resource) => match resource.number {
            Some(number) => Ok(number),
            None => Err(DeviceInfoError::WrongType(name)),
        },
    }
}

fn read_flag(device: &RawDevice, name: ResourceName) -> (r: Result<bool, DeviceInfoError>)
    ensures
        r == flag_in(*device, name),
{
    match find_resource(device, name) {
        Err(e) => Err(e),
        Ok(resource) => match resource.flag {
            Some(flag) => Ok(flag),
            None => Err(DeviceInfoError::WrongType(name)),
        },
    }
}

/// Describes a device.
pub fn parse_device_info(device: &RawDevice) -> (r: Result<DeviceInfo, DeviceInfoError>)
    ensures
        r == device_info_of(*device),
{
    let pkg_version = match read_text(device, ResourceName::PkgVersion) {
        Ok(v) => v,
        Err(e) => return Err(e),
    };
    let firmware_update_state = match read_number(device, ResourceName::State) {
        Ok(number) => match number.state {
            Some(state) => state,
            None => return Err(DeviceInfoError::UnsupportedState),
        },
        Err(e) => return Err(e),
    };
    let firmware_update_result = match read_number(device, ResourceName::UpdateResult) {
        Ok(number) => match number.result {
            Some(result) => result,
            None => return Err(DeviceInfoError::UnsupportedResult),
        },
        Err(e) => return Err(e),
    };
    let software_version = match read_text(device, ResourceName::SoftwareVersion) {
        Ok(v) => v,
        Err(e) => return Err(e),
    };
    let model_number = match read_text(device, ResourceName::ModelNumber) {
        Ok(v) => v,
        Err(e) => return Err(e),
    };
    let firmware_version = match read_text(device, ResourceName::FirmwareVersion) {
        Ok(v) => v,
        Err(e) => return Err(e),
    };
    let online = match read_flag(device, ResourceName::Online) {
        Ok(v) => v,
        Err(e) => return Err(e),
    };
    Ok(
        DeviceInfo {
            model_number,
            software_version,
            firmware_version,
            firmware_update_state,
            firmware_update_result,
            pkg_version,
            online,
        },
    )
}

/// A description under the identifier of its device.
#[derive(Debug)]
pub struct DeviceRecord {
    pub id: String,
    pub info: DeviceInfo,
}

/// The descriptions of the devices of one device service, by identifier.
#[derive(Debug)]
pub struct DeviceInfos {
    records: Vec<DeviceRecord>,
}

impl View for DeviceInfos {
    type V = Map<Seq<char>, DeviceInfo>;

    closed spec fn view(&self) -> Map<Seq<char>, DeviceInfo> {
        Map::new(
            |id: Seq<char>| self.ids().contains(id),
            |id: Seq<char>| self.records@[self.ids().index_of(id)].info,
        )
    }
}

impl DeviceInfos {
    /// The identifiers, in the order in which they are walked.
    pub closed spec fn ids(self) -> Seq<Seq<char>> {
        self.records@.map_values(|record: DeviceRecord| record.id@)
    }

    /// No identifier occurs twice.
    #[verifier::type_invariant]
    pub closed spec fn wf(self) -> bool {
        self.ids().no_duplicates()
    }

    /// Every identifier is walked once.
    pub proof fn lemma_ids(self)
        requires
            self.wf(),
        ensures
            self.ids().no_duplicates(),
            self@.dom() == self.ids().to_set(),
    {
        assert(self@.dom() =~= self.ids().to_set());
    }

    /// No descriptions.
    pub fn new() -> (r: DeviceInfos)
        ensures
            r@ == Map::<Seq<char>, DeviceInfo>::empty(),
            r.ids() == Seq::<Seq<char>>::empty(),
    {
        let r = DeviceInfos { records: Vec::new() };
        assert(r.ids() =~= Seq::<Seq<char>>::empty());
        assert(r@ =~= Map::<Seq<char>, DeviceInfo>::empty());
        r
    }

    /// The number of descriptions.
    pub fn len(&self) -> (r: usize)
        ensures
            r == self.ids().len(),
    {
        self.records.len()
    }

    /// The description in the given place of the walk.
    pub fn record(&self, i: usize) -> (r: &DeviceRecord)
        requires
            i < self.ids().len(),
        ensures
            r.id@ == self.ids()[i as int],
            self@.contains_key(r.id@),
            self@[r.id@] == r.info,
    {
        proof {
            use_type_invariant(self);
            let id = self.ids()[i as int];
            assert(self.ids().contains(id));
            assert(self.ids()[self.ids().index_of(id)] == id);
        }
        &self.records[i]
    }

    fn position(&self, id: &String) -> (r: Option<usize>)
        ensures
            match r {
                Some(i) => i < self.ids().len() && self.ids()[i as int] == id@,
                None => !self.ids().contains(id@),
            },
    {
        let mut i: usize = 0;
        while i < self.records.len()
            invariant
                i <= self.records.len(),
                forall|j: int| 0 <= j < i ==> self.ids()[j] != id@,
            decreases self.records.len() - i,
        {
            if self.records[i].id == *id {
                return Some(i);
            }
            i += 1;
        }
        None
    }

    /// The description of a device.
    pub fn get(&self, id: &String) -> (r: Option<&DeviceInfo>)
        ensures
            match r {
                Some(info) => self@.contains_key(id@) && self@[id@] == *info,
                None => !self@.contains_key(id@),
            },
    {
        match self.position(id) {
            Some(i) => Some(&self.record(i).info),
            None => None,
        }
    }

    /// Notes the description of a device, in place of an earlier one.
    pub fn insert(&mut self, id: String, info: DeviceInfo)
        ensures
            final(self)@ == old(self)@.insert(id@, info),
    {
        proof {
            use_type_invariant(&*self);
        }
        let ghost before = *self;
        let position = self.position(&id);
        let mut records: Vec<DeviceRecord> = Vec::new();
        std::mem::swap(&mut records, &mut self.records);
        match position {
            Some(i) => {
                records.set(i, DeviceRecord { id, info });
                proof {
                    let after = DeviceInfos { records };
                    assert(after.ids() =~= before.ids());
                    assert forall|k: Seq<char>| #[trigger] after.ids().contains(k) implies after@[k]
                        == before@.insert(id@, info)[k] by {
                        let p = after.ids().index_of(k);
                        assert(after.ids()[p] == k);
                    }
                    assert(before.ids().contains(id@));
                    assert(after@ =~= before@.insert(id@, info));
                }
            },
            None => {
                records.push(DeviceRecord { id, info });
                proof {
                    let after = DeviceInfos { records };
                    assert(after.ids() =~= before.ids().push(id@));
                    let n = before.ids().len() as int;
                    assert(after.ids()[n] == id@);
                    assert forall|k: Seq<char>|
                        before.ids().contains(k) implies #[trigger] after.ids().contains(k) by {
                        let p = before.ids().index_of(k);
                        assert(after.ids()[p] == k);
                    }
                    assert forall|k: Seq<char>| #[trigger] after.ids().contains(k) implies after@[k]
                        == before@.insert(id@, info)[k] && (before.ids().contains(k) || k
                        == id@) by {
                        let p = after.ids().index_of(k);
                        assert(after.ids()[p] == k);
                        if p < n {
                            assert(before.ids()[p] == k);
                            let q = before.ids().index_of(k);
                            assert(before.ids()[q] == k);
                        }
                    }
                    assert(after@ =~= before@.insert(id@, info));
                }
            },
        }
        self.records = records;
    }
}

/// Whether one of the devices is fetching an image.
pub open spec fn someone_downloads(infos: Map<Seq<char>, DeviceInfo>) -> bool {
    exists|id: Seq<char>| #[trigger]
        infos.contains_key(id) && infos[id].firmware_update_state
            == FirmwareUpdateState::Downloading
}

impl DeviceInfos {
    /// Whether one of the devices is fetching an image.
    pub fn any_downloading(&self) -> (r: bool)
        ensures
            r == someone_downloads(self@),
    {
        let mut i: usize = 0;
        while i < self.len()
            invariant
                i <= self.ids().len(),
                forall|j: int| 0 <= j < i ==> self@[#[trigger] self.ids()[j]].firmware_update_state
                    != FirmwareUpdateState::Downloading,
            decreases self.ids().len() - i,
        {
            let record = self.record(i);
            if record.info.firmware_update_state == FirmwareUpdateState::Downloading {
                return true;
            }
            i += 1;
        }
        proof {
            use_type_invariant(self);
            self.lemma_ids();
            assert forall|id: Seq<char>| #[trigger] self@.contains_key(id) implies
                self@[id].firmware_update_state != FirmwareUpdateState::Downloading by {
                assert(self.ids().contains(id));
                assert(self.ids()[self.ids().index_of(id)] == id);
            }
        }
        false
    }
}

/// A device as its device service lists it.
#[derive(Debug)]
pub struct ListedDevice {
    pub id: String,
    pub device: RawDevice,
}

/// A device that cannot be described.
#[derive(Debug)]
pub struct DeviceFault {
    pub id: String,
    pub error: DeviceInfoError,
}

/// The descriptions of the listed devices that can be described.
pub open spec fn described(devices: Seq<ListedDevice>) -> Map<Seq<char>, DeviceInfo>
    decreases devices.len(),
{
    if devices.len() == 0 {
        Map::empty()
    } else {
        let earlier = described(devices.drop_last());
        match device_info_of(devices.last().device) {
            Ok(info) => earlier.insert(devices.last().id@, info),
            Err(_) => earlier,
        }
    }
}

/// The listed devices that cannot be described.
pub open spec fn undescribed(devices: Seq<ListedDevice>) -> Seq<DeviceFault>
    decreases devices.len(),
{
    if devices.len() == 0 {
        Seq::empty()
    } else {
        let earlier = undescribed(devices.drop_last());
        match device_info_of(devices.last().device) {
            Ok(_) => earlier,
            Err(error) => earlier.push(DeviceFault { id: devices.last().id, error }),
        }
    }
}

/// Describes the listed devices. A device that cannot be described is left out and reported.
pub fn collect_device_infos(devices: &Vec<ListedDevice>) -> (r: (DeviceInfos, Vec<DeviceFault>))
    ensures
        r.0@ == described(devices@),
        r.1@ == undescribed(devices@),
{
    let mut infos = DeviceInfos::new();
    let mut faults: Vec<DeviceFault> = Vec::new();
    let mut i: usize = 0;
    while i < devices.len()
        invariant
            i <= devices.len(),
            infos@ == described(devices@.take(i as int)),
            faults@ == undescribed(devices@.take(i as int)),
        decreases devices.len() - i,
    {
        let listed = &devices[i];
        assert(devices@.take(i + 1).drop_last() =~= devices@.take(i as int));
        match parse_device_info(&listed.device) {
            Ok(info) => {
                infos.insert(listed.id.clone(), info);
            },
            Err(error) => {
                faults.push(DeviceFault { id: listed.id.clone(), error });
            },
        }
        i += 1;
    }
    assert(devices@.take(i as int) =~= devices@);
    (infos, faults)
}

} // verus!
