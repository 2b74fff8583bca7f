//! What holds of the descriptions of devices.

use vstd::prelude::*;
use vstd::string::*;
use crate::device_info;
use crate::device_info::{DeviceFault, DeviceInfo, DeviceInfoError, ListedDevice, ResourceName};
use crate::protocol;
use crate::protocol::{
    DeviceObject,
    FirmwareUpdateResult,
    FirmwareUpdateState,
    NamedResource,
    ObjectInstance,
    ObjectType,
    RawDevice,
    Resource,
};

verus! {

/// Whether the object in the given place is the first one of the kind.
pub open spec fn is_first_object(objects: Seq<DeviceObject>, kind: ObjectType, o: int) -> bool {
    &&& 0 <= o < objects.len()
    &&& objects[o].kind == kind
    &&& forall|j: int| 0 <= j < o ==> (#[trigger] objects[j]).kind != kind
}

/// Whether the instance in the given place is the first one with the identifier.
pub open spec fn is_first_instance(
    instances: Seq<ObjectInstance>,
    id: Seq<char>,
    i: int,
) -> bool {
    &&& 0 <= i < instances.len()
    &&& instances[i].id@ == id
    &&& forall|j: int| 0 <= j < i ==> (#[trigger] instances[j]).id@ != id
}

/// Whether the resource in the given place is the first one with the name.
pub open spec fn is_first_resource(
    resources: Seq<NamedResource>,
    name: Seq<char>,
    k: int,
) -> bool {
    &&& 0 <= k < resources.len()
    &&& resources[k].name@ == name
    &&& forall|j: int| 0 <= j < k ==> (#[trigger] resources[j]).name@ != name
}

/// The object of a kind is the first one of that kind, and there is none just where no object is of
/// that kind.
pub proof fn law_object_is_found_by_kind(objects: Seq<DeviceObject>, kind: ObjectType)
    ensures
        forall|o: int| #[trigger]
            is_first_object(objects, kind, o) ==> protocol::object_of(objects, kind) == Some(
                objects[o],
            ),
        protocol::object_of(objects, kind) is Some ==> exists|o: int| #[trigger]
            is_first_object(objects, kind, o),
        protocol::object_of(objects, kind) is None <==> forall|o: int|
            0 <= o < objects.len() ==> (#[trigger] objects[o]).kind != kind,
    decreases objects.len(),
{
    if objects.len() > 0 {
        let rest = objects.drop_first();
        law_object_is_found_by_kind(rest, kind);
        assert(objects[0] == objects.first());
        if objects.first().kind == kind {
            assert(is_first_object(objects, kind, 0));
        } else {
            assert forall|o: int| #[trigger]
                is_first_object(objects, kind, o) implies protocol::object_of(objects, kind)
                == Some(objects[o]) by {
                assert forall|j: int| 0 <= j < o - 1 implies (#[trigger] rest[j]).kind != kind by {
                    assert(rest[j] == objects[j + 1]);
                }
                assert(rest[o - 1] == objects[o]);
                assert(is_first_object(rest, kind, o - 1));
            }
            if protocol::object_of(objects, kind) is Some {
                let o = choose|o: int| #[trigger] is_first_object(rest, kind, o);
                assert(rest[o] == objects[o + 1]);
                assert forall|j: int| 0 <= j < o + 1 implies (#[trigger] objects[j]).kind
                    != kind by {
                    if j > 0 {
                        assert(rest[j - 1] == objects[j]);
                    }
                }
                assert(is_first_object(objects, kind, o + 1));
            } else {
                assert forall|o: int| 0 <= o < objects.len() implies (#[trigger] objects[o]).kind
                    != kind by {
                    if o > 0 {
                        assert(rest[o - 1] == objects[o]);
                    }
                }
            }
        }
    }
}

/// The instance with an identifier is the first one that has it, and there is none just where no
/// instance has it.
pub proof fn law_instance_is_found_by_identifier(instances: Seq<ObjectInstance>, id: Seq<char>)
    ensures
        forall|i: int| #[trigger]
            is_first_instance(instances, id, i) ==> protocol::instance_of(instances, id) == Some(
                instances[i],
            ),
        protocol::instance_of(instances, id) is Some ==> exists|i: int| #[trigger]
            is_first_instance(instances, id, i),
        protocol::instance_of(instances, id) is None <==> forall|i: int|
            0 <= i < instances.len() ==> (#[trigger] instances[i]).id@ != id,
    decreases instances.len(),
{
    if instances.len() > 0 {
        let rest = instances.drop_first();
        law_instance_is_found_by_identifier(rest, id);
        assert(instances[0] == instances.first());
        if instances.first().id@ == id {
            assert(is_first_instance(instances, id, 0));
        } else {
            assert forall|i: int| #[trigger]
                is_first_instance(instances, id, i) implies protocol::instance_of(instances, id)
                == Some(instances[i]) by {
                assert forall|j: int| 0 <= j < i - 1 implies (#[trigger] rest[j]).id@ != id by {
                    assert(rest[j] == instances[j + 1]);
                }
                assert(rest[i - 1] == instances[i]);
                assert(is_first_instance(rest, id, i - 1));
            }
            if protocol::instance_of(instances, id) is Some {
                let i = choose|i: int| #[trigger] is_first_instance(rest, id, i);
                assert(rest[i] == instances[i + 1]);
                assert forall|j: int| 0 <= j < i + 1 implies (#[trigger] instances[j]).id@
                    != id by {
                    if j > 0 {
                        assert(rest[j - 1] == instances[j]);
                    }
                }
                assert(is_first_instance(instances, id, i + 1));
            } else {
                assert forall|i: int| 0 <= i < instances.len() implies (#[trigger] instances[i]).id@
                    != id by {
                    if i > 0 {
                        assert(rest[i - 1] == instances[i]);
                    }
                }
            }
        }
    }
}

/// The resource with a name is the first one that has it, and there is none just where no resource
/// has it.
pub proof fn law_resource_is_found_by_name(resources: Seq<NamedResource>, name: Seq<char>)
    ensures
        forall|k: int| #[trigger]
            is_first_resource(resources, name, k) ==> protocol::resource_of(resources, name)
                == Some(resources[k].value),
        protocol::resource_of(resources, name) is Some ==> exists|k: int| #[trigger]
            is_first_resource(resources, name, k),
        protocol::resource_of(resources, name) is None <==> forall|k: int|
            0 <= k < resources.len() ==> (#[trigger] resources[k]).name@ != name,
    decreases resources.len(),
{
    if resources.len() > 0 {
        let rest = resources.drop_first();
        law_resource_is_found_by_name(rest, name);
        assert(resources[0] == resources.first());
        if resources.first().name@ == name {
            assert(is_first_resource(resources, name, 0));
        } else {
            assert forall|k: int| #[trigger]
                is_first_resource(resources, name, k) implies protocol::resource_of(
                resources,
                name,
            ) == Some(resources[k].value) by {
                assert forall|j: int| 0 <= j < k - 1 implies (#[trigger] rest[j]).name@ != name by {
                    assert(rest[j] == resources[j + 1]);
                }
                assert(rest[k - 1] == resources[k]);
                assert(is_first_resource(rest, name, k - 1));
            }
            if protocol::resource_of(resources, name) is Some {
                let k = choose|k: int| #[trigger] is_first_resource(rest, name, k);
                assert(rest[k] == resources[k + 1]);
                assert forall|j: int| 0 <= j < k + 1 implies (#[trigger] resources[j]).name@
                    != name by {
                    if j > 0 {
                        assert(rest[j - 1] == resources[j]);
                    }
                }
                assert(is_first_resource(resources, name, k + 1));
            } else {
                assert forall|k: int| 0 <= k < resources.len() implies (
                #[trigger] resources[k]).name@ != name by {
                    if k > 0 {
                        assert(rest[k - 1] == resources[k]);
                    }
                }
            }
        }
    }
}

/// Whether the resource with the name, in instance `0` of the object of the kind, is the one in the
/// given place: object, instance and resource.
pub open spec fn lies_at(
    device: RawDevice,
    kind: ObjectType,
    name: Seq<char>,
    o: int,
    i: int,
    k: int,
) -> bool {
    &&& is_first_object(device.objects@, kind, o)
    &&& is_first_instance(device.objects@[o].instances@, "0"@, i)
    &&& is_first_resource(device.objects@[o].instances@[i].resources@, name, k)
}

/// The value in the given place.
pub open spec fn value_at(device: RawDevice, o: int, i: int, k: int) -> Resource {
    device.objects@[o].instances@[i].resources@[k].value
}

/// Whether the resource of that name in instance `0` of the object of that kind has the value.
pub open spec fn has_value(
    device: RawDevice,
    kind: ObjectType,
    name: Seq<char>,
    value: Resource,
) -> bool {
    exists|o: int, i: int, k: int| #[trigger]
        lies_at(device, kind, name, o, i, k) && value == value_at(device, o, i, k)
}

/// Whether that resource reads the text.
pub open spec fn reads_text(
    device: RawDevice,
    kind: ObjectType,
    name: Seq<char>,
    text: String,
) -> bool {
    exists|value: Resource| #[trigger]
        has_value(device, kind, name, value) && value.text == Some(text)
}

/// Whether that resource is the flag.
pub open spec fn reads_flag(
    device: RawDevice,
    kind: ObjectType,
    name: Seq<char>,
    flag: bool,
) -> bool {
    exists|value: Resource| #[trigger]
        has_value(device, kind, name, value) && value.flag == Some(flag)
}

/// Whether that resource is a number that stands for the state.
pub open spec fn reads_state(
    device: RawDevice,
    kind: ObjectType,
    name: Seq<char>,
    state: FirmwareUpdateState,
) -> bool {
    exists|value: Resource|
        {
            &&& #[trigger] has_value(device, kind, name, value)
            &&& value.number matches Some(number)
            &&& number.state == Some(state)
        }
}

/// Whether that resource is a number that stands for the result.
pub open spec fn reads_result(
    device: RawDevice,
    kind: ObjectType,
    name: Seq<char>,
    result: FirmwareUpdateResult,
) -> bool {
    exists|value: Resource|
        {
            &&& #[trigger] has_value(device, kind, name, value)
            &&& value.number matches Some(number)
            &&& number.result == Some(result)
        }
}

proof fn lemma_resource(device: RawDevice, name: ResourceName)
    ensures
        match device_info::resource_in(device, name) {
            Ok(value) => has_value(device, name.holder(), name.key(), value),
            Err(error) => {
                &&& blames(device, name.holder(), name.key(), name, error)
                &&& !(error is WrongType || error is UnsupportedState || error is UnsupportedResult)
            },
        },
        forall|value: Resource| #[trigger]
            has_value(device, name.holder(), name.key(), value) ==> device_info::resource_in(
                device,
                name,
            ) == Ok::<Resource, DeviceInfoError>(value),
{
    let kind = name.holder();
    let key = name.key();
    let objects = device.objects@;
    law_object_is_found_by_kind(objects, kind);
    if protocol::object_of(objects, kind) is Some {
        let o = choose|o: int| #[trigger] is_first_object(objects, kind, o);
        let instances = objects[o].instances@;
        law_instance_is_found_by_identifier(instances, "0"@);
        if protocol::instance_of(instances, "0"@) is Some {
            let i = choose|i: int| #[trigger] is_first_instance(instances, "0"@, i);
            let resources = instances[i].resources@;
            law_resource_is_found_by_name(resources, key);
            if protocol::resource_of(resources, key) is Some {
                let k = choose|k: int| #[trigger] is_first_resource(resources, key, k);
                assert(lies_at(device, kind, key, o, i, k));
            }
        }
    }
    assert forall|value: Resource| #[trigger] has_value(device, kind, key, value) implies
        device_info::resource_in(device, name) == Ok::<Resource, DeviceInfoError>(value) by {
        let (o, i, k) = choose|o: int, i: int, k: int| #[trigger]
            lies_at(device, kind, key, o, i, k) && value == value_at(device, o, i, k);
        law_instance_is_found_by_identifier(objects[o].instances@, "0"@);
        law_resource_is_found_by_name(objects[o].instances@[i].resources@, key);
    }
}

/// Whether the error says what is wrong with the resource of that name in instance `0` of the object
/// of that kind.
pub open spec fn blames(
    device: RawDevice,
    kind: ObjectType,
    name: Seq<char>,
    label: ResourceName,
    error: DeviceInfoError,
) -> bool {
    let objects = device.objects@;
    match error {
        DeviceInfoError::NoObject(k) => k == kind && forall|o: int|
            0 <= o < objects.len() ==> (#[trigger] objects[o]).kind != kind,
        DeviceInfoError::NoInstance(k) => k == kind && exists|o: int|
            {
                &&& #[trigger] is_first_object(objects, kind, o)
                &&& forall|i: int|
                    0 <= i < objects[o].instances@.len() ==> (
                    #[trigger] objects[o].instances@[i]).id@ != "0"@
            },
        DeviceInfoError::NoResource(l) => l == label && exists|o: int, i: int|
            {
                &&& #[trigger] is_first_object(objects, kind, o)
                &&& #[trigger] is_first_instance(objects[o].instances@, "0"@, i)
                &&& forall|k: int|
                    0 <= k < objects[o].instances@[i].resources@.len() ==> (
                    #[trigger] objects[o].instances@[i].resources@[k]).name@ != name
            },
        DeviceInfoError::WrongType(l) => l == label && exists|value: Resource|
            {
                &&& #[trigger] has_value(device, kind, name, value)
                &&& match label {
                    ResourceName::Online => value.flag is None,
                    ResourceName::State | ResourceName::UpdateResult => value.number is None,
                    _ => value.text is None,
                }
            },
        DeviceInfoError::UnsupportedState => label == ResourceName::State && exists|value: Resource|
            {
                &&& #[trigger] has_value(device, kind, name, value)
                &&& value.number matches Some(number)
                &&& number.state is None
            },
        DeviceInfoError::UnsupportedResult => label == ResourceName::UpdateResult && exists|
            value: Resource,
        |
            {
                &&& #[trigger] has_value(device, kind, name, value)
                &&& value.number matches Some(number)
                &&& number.result is None
            },
    }
}

/// The description of a device is what the device itself says, resource by resource: each part is
/// the value of the resource that is called after it, in instance `0` of the object that it belongs
/// to. A device is online in its description just where its connection status says so, and offline
/// just where that says so.
pub proof fn law_description_is_what_the_device_says(device: RawDevice, info: DeviceInfo)
    ensures
        device_info::device_info_of(device) == Ok::<DeviceInfo, DeviceInfoError>(info) <==> {
            &&& reads_text(device, ObjectType::Device, "model_number"@, info.model_number)
            &&& reads_text(device, ObjectType::Device, "software_version"@, info.software_version)
            &&& reads_text(device, ObjectType::Device, "firmware_version"@, info.firmware_version)
            &&& reads_state(
                device,
                ObjectType::FirmwareUpdate,
                "state"@,
                info.firmware_update_state,
            )
            &&& reads_result(
                device,
                ObjectType::FirmwareUpdate,
                "update_result"@,
                info.firmware_update_result,
            )
            &&& reads_text(device, ObjectType::FirmwareUpdate, "pkg_version"@, info.pkg_version)
            &&& reads_flag(device, ObjectType::ConnectionStatus, "online"@, info.online)
        },
{
    lemma_resource(device, ResourceName::PkgVersion);
    lemma_resource(device, ResourceName::State);
    lemma_resource(device, ResourceName::UpdateResult);
    lemma_resource(device, ResourceName::SoftwareVersion);
    lemma_resource(device, ResourceName::ModelNumber);
    lemma_resource(device, ResourceName::FirmwareVersion);
    lemma_resource(device, ResourceName::Online);
}

/// Whatever the flag in the connection status of a device says, its description says too.
pub proof fn law_online_follows_the_flag(
    device: RawDevice,
    info: DeviceInfo,
    o: int,
    i: int,
    k: int,
)
    requires
        device_info::device_info_of(device) == Ok::<DeviceInfo, DeviceInfoError>(info),
        lies_at(device, ObjectType::ConnectionStatus, "online"@, o, i, k),
    ensures
        device.objects@[o].instances@[i].resources@[k].value.flag == Some(info.online),
{
    lemma_resource(device, ResourceName::Online);
    assert(has_value(
        device,
        ObjectType::ConnectionStatus,
        "online"@,
        value_at(device, o, i, k),
    ));
}

/// The kind of the object that the part of a description belongs to, by the order in which the parts
/// are read.
pub open spec fn kind_of_part(n: int) -> ObjectType {
    if n < 3 {
        ObjectType::FirmwareUpdate
    } else if n < 6 {
        ObjectType::Device
    } else {
        ObjectType::ConnectionStatus
    }
}

/// The name of the resource that the part of a description is read from.
pub open spec fn name_of_part(n: int) -> Seq<char> {
    if n == 0 {
        "pkg_version"@
    } else if n == 1 {
        "state"@
    } else if n == 2 {
        "update_result"@
    } else if n == 3 {
        "software_version"@
    } else if n == 4 {
        "model_number"@
    } else if n == 5 {
        "firmware_version"@
    } else {
        "online"@
    }
}

/// The sign for the resource that the part of a description is read from.
pub open spec fn label_of_part(n: int) -> ResourceName {
    if n == 0 {
        ResourceName::PkgVersion
    } else if n == 1 {
        ResourceName::State
    } else if n == 2 {
        ResourceName::UpdateResult
    } else if n == 3 {
        ResourceName::SoftwareVersion
    } else if n == 4 {
        ResourceName::ModelNumber
    } else if n == 5 {
        ResourceName::FirmwareVersion
    } else {
        ResourceName::Online
    }
}

/// Whether the part of a description can be read.
pub open spec fn part_is_there(device: RawDevice, n: int) -> bool {
    exists|value: Resource|
        {
            &&& #[trigger] has_value(device, kind_of_part(n), name_of_part(n), value)
            &&& if n == 1 {
                value.number matches Some(number) && number.state is Some
            } else if n == 2 {
                value.number matches Some(number) && number.result is Some
            } else if n == 6 {
                value.flag is Some
            } else {
                value.text is Some
            }
        }
}

proof fn lemma_part(device: RawDevice, n: int)
    requires
        0 <= n < 7,
    ensures
        label_of_part(n).holder() == kind_of_part(n),
        label_of_part(n).key() == name_of_part(n),
        n == 1 ==> (part_is_there(device, n) <==> device_info::state_in(device) is Ok),
        n == 1 ==> (device_info::state_in(device) matches Err(e) ==> blames(
            device,
            kind_of_part(n),
            name_of_part(n),
            label_of_part(n),
            e,
        )),
        n == 2 ==> (part_is_there(device, n) <==> device_info::result_in(device) is Ok),
        n == 2 ==> (device_info::result_in(device) matches Err(e) ==> blames(
            device,
            kind_of_part(n),
            name_of_part(n),
            label_of_part(n),
            e,
        )),
        n == 6 ==> (part_is_there(device, n) <==> device_info::flag_in(
            device,
            ResourceName::Online,
        ) is Ok),
        n == 6 ==> (device_info::flag_in(device, ResourceName::Online) matches Err(e) ==> blames(
            device,
            kind_of_part(n),
            name_of_part(n),
            label_of_part(n),
            e,
        )),
        n == 0 || 3 <= n < 6 ==> (part_is_there(device, n) <==> device_info::text_in(
            device,
            label_of_part(n),
        ) is Ok),
        n == 0 || 3 <= n < 6 ==> (device_info::text_in(device, label_of_part(n)) matches Err(e)
            ==> blames(device, kind_of_part(n), name_of_part(n), label_of_part(n), e)),
{
    let label = label_of_part(n);
    lemma_resource(device, label);
    if part_is_there(device, n) {
        let value = choose|value: Resource|
            {
                &&& #[trigger] has_value(device, kind_of_part(n), name_of_part(n), value)
                &&& if n == 1 {
                    value.number matches Some(number) && number.state is Some
                } else if n == 2 {
                    value.number matches Some(number) && number.result is Some
                } else if n == 6 {
                    value.flag is Some
                } else {
                    value.text is Some
                }
            };
        assert(has_value(device, label.holder(), label.key(), value));
    }
    match device_info::resource_in(device, label) {
        Ok(value) => {
            assert(has_value(device, kind_of_part(n), name_of_part(n), value));
        },
        Err(_) => {},
    }
}

/// A device that cannot be described is reported with the first of its parts that cannot be read,
/// and with what is wrong with that part; and a device is described just where all its parts can be
/// read.
pub proof fn law_fault_names_the_first_unreadable_part(device: RawDevice)
    ensures
        device_info::device_info_of(device) is Ok <==> forall|n: int|
            0 <= n < 7 ==> #[trigger] part_is_there(device, n),
        device_info::device_info_of(device) matches Err(error) ==> exists|n: int|
            {
                &&& 0 <= n < 7
                &&& !(#[trigger] part_is_there(device, n))
                &&& forall|m: int| 0 <= m < n ==> #[trigger] part_is_there(device, m)
                &&& blames(device, kind_of_part(n), name_of_part(n), label_of_part(n), error)
            },
{
    lemma_part(device, 0);
    lemma_part(device, 1);
    lemma_part(device, 2);
    lemma_part(device, 3);
    lemma_part(device, 4);
    lemma_part(device, 5);
    lemma_part(device, 6);
    if device_info::device_info_of(device) is Err {
        let n: int = if !part_is_there(device, 0) {
            0
        } else if !part_is_there(device, 1) {
            1
        } else if !part_is_there(device, 2) {
            2
        } else if !part_is_there(device, 3) {
            3
        } else if !part_is_there(device, 4) {
            4
        } else if !part_is_there(device, 5) {
            5
        } else {
            6
        };
        assert(!part_is_there(device, n));
    }
}

/// Each listed device is described or reported by itself, in the order of the list: a list that is
/// made of two is taken as the one and then the other, and where both describe a device of the same
/// identifier the later description counts.
pub proof fn law_lists_are_taken_in_order(a: Seq<ListedDevice>, b: Seq<ListedDevice>)
    ensures
        device_info::described(a + b) == device_info::described(a).union_prefer_right(
            device_info::described(b),
        ),
        device_info::undescribed(a + b) == device_info::undescribed(a) + device_info::undescribed(
            b,
        ),
    decreases b.len(),
{
    if b.len() == 0 {
        assert(a + b =~= a);
        assert(device_info::described(a).union_prefer_right(device_info::described(b))
            =~= device_info::described(a));
        assert(device_info::undescribed(a) + device_info::undescribed(b)
            =~= device_info::undescribed(a));
    } else {
        law_lists_are_taken_in_order(a, b.drop_last());
        assert((a + b).drop_last() =~= a + b.drop_last());
        assert((a + b).last() == b.last());
        assert(device_info::described(a + b) =~= device_info::described(a).union_prefer_right(
            device_info::described(b),
        ));
        assert(device_info::undescribed(a + b) =~= device_info::undescribed(a)
            + device_info::undescribed(b));
    }
}

/// A single listed device is known by its description under its identifier, or, where it has none, is
/// reported under its identifier with what is wrong with it.
pub proof fn law_single_device_is_described_or_reported(listed: ListedDevice)
    ensures
        match device_info::device_info_of(listed.device) {
            Ok(info) => {
                &&& device_info::described(seq![listed]) == map![listed.id@ => info]
                &&& device_info::undescribed(seq![listed]) == Seq::<DeviceFault>::empty()
            },
            Err(error) => {
                &&& device_info::described(seq![listed]) == Map::<Seq<char>, DeviceInfo>::empty()
                &&& device_info::undescribed(seq![listed]) == seq![
                    DeviceFault { id: listed.id, error },
                ]
            },
        },
{
    let list = seq![listed];
    let none = list.drop_last();
    assert(none.len() == 0);
    assert(list.last() == listed);
    assert(device_info::described(none) == Map::<Seq<char>, DeviceInfo>::empty());
    assert(device_info::undescribed(none) == Seq::<DeviceFault>::empty());
    match device_info::device_info_of(listed.device) {
        Ok(info) => {
            assert(device_info::described(list) =~= map![listed.id@ => info]);
        },
        Err(error) => {
            assert(device_info::undescribed(list) =~= seq![DeviceFault { id: listed.id, error }]);
        },
    }
}

/// Two descriptions read the same just where they agree in each of their parts.
pub proof fn law_descriptions_read_the_same_part_by_part(a: DeviceInfo, b: DeviceInfo)
    ensures
        a.same(b) <==> {
            &&& a.model_number@ == b.model_number@
            &&& a.software_version@ == b.software_version@
            &&& a.firmware_version@ == b.firmware_version@
            &&& a.firmware_update_state == b.firmware_update_state
            &&& a.firmware_update_result == b.firmware_update_result
            &&& a.pkg_version@ == b.pkg_version@
            &&& a.online == b.online
        },
{
}

/// A device takes an image unless the last one was refused on its way: after none, after one that was
/// installed, and after one that could not be installed.
pub proof fn law_only_refused_images_block(result: FirmwareUpdateResult)
    ensures
        !result.is_ready() <==> result is Other,
{
}

} // verus!
