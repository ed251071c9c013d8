//! Devices: their kinds, the parameters each kind needs, the actions each
//! exposes, and the registry that a run resolves sequence steps against.

use vstd::prelude::*;
use crate::json::key;

verus! {

/// A named construction parameter of a device kind.
#[derive(Debug, Clone, Copy, PartialEq, Eq, Structural)]
pub enum ParameterName {
    Address,
}

/// A parameter that a device kind requires, with the type of its value.
#[derive(Debug, Clone, Copy, PartialEq, Eq, Structural)]
pub enum Parameter {
    String(ParameterName),
}

/// The kinds of device.
#[derive(Debug, Clone, Copy, PartialEq, Eq, Structural)]
pub enum DeviceTypes {
    BunnyEars,
    Timer,
    BleDevice,
}

/// The kind that a configuration's type tag names.
pub open spec fn device_type_of(tag: Seq<char>) -> Option<DeviceTypes> {
    if tag == "BUNNY_EARS"@ {
        Some(DeviceTypes::BunnyEars)
    } else if tag == "TIMER"@ {
        Some(DeviceTypes::Timer)
    } else if tag == "BLE_DEVICE"@ {
        Some(DeviceTypes::BleDevice)
    } else {
        None
    }
}

/// The parameters that a device kind needs before it can be built.
pub open spec fn parameters_of(t: DeviceTypes) -> Seq<Parameter> {
    match t {
        DeviceTypes::BunnyEars => seq![Parameter::String(ParameterName::Address)],
        _ => seq![],
    }
}

/// The ids of the actions that a device of kind `t` exposes.
pub open spec fn actions_of(t: DeviceTypes) -> Seq<Seq<char>> {
    match t {
        DeviceTypes::BunnyEars => seq!["leftEar"@, "rightEar"@],
        DeviceTypes::Timer => seq!["delay"@],
        DeviceTypes::BleDevice => seq![],
    }
}

impl DeviceTypes {
    /// The kind named by a configuration's type tag.
    pub fn from_string(value: &String) -> (r: Self)
        requires
            device_type_of(value@) is Some,
        ensures
            device_type_of(value@) == Some(r),
    {
        match Self::parse(value) {
            Some(t) => t,
            None => DeviceTypes::BleDevice,
        }
    }

    /// The kind named by a type tag, or `None` for a tag that names none.
    pub fn parse(value: &String) -> (r: Option<Self>)
        ensures
            r == device_type_of(value@),
    {
        proof {
            reveal_strlit("BUNNY_EARS");
            reveal_strlit("TIMER");
            reveal_strlit("BLE_DEVICE");
        }
        if *value == key("BUNNY_EARS") {
            Some(DeviceTypes::BunnyEars)
        } else if *value == key("TIMER") {
            Some(DeviceTypes::Timer)
        } else if *value == key("BLE_DEVICE") {
            Some(DeviceTypes::BleDevice)
        } else {
            None
        }
    }

    /// The parameters that this kind needs before a device can be built.
    pub fn get_device_parameters(&self) -> (r: Vec<Parameter>)
        ensures
            r@ == parameters_of(*self),
    {
        let mut r: Vec<Parameter> = Vec::new();
        match self {
            DeviceTypes::BunnyEars => r.push(Parameter::String(ParameterName::Address)),
            _ => {},
        }
        proof {
            assert(r@ =~= parameters_of(*self));
        }
        r
    }
}

/// One configured device, as the settings list it.
#[derive(Debug, Clone, PartialEq)]
pub struct DeviceConfig {
    pub id: String,
    pub name: String,
    /// The kind's type tag, such as `TIMER`.
    pub device_type: String,
    pub address: Option<String>,
}

/// Why a configured device could not be built.
#[derive(Debug, Clone, PartialEq)]
pub enum ValidationError {
    /// The kind needs this parameter and the configuration lacks it.
    MissingValue(ParameterName),
    /// The type tag names no kind of device.
    UnknownDeviceType(String),
}

/// Whether the configuration gives a value for the parameter.
pub open spec fn has_value(c: DeviceConfig, p: Parameter) -> bool {
    match p {
        Parameter::String(ParameterName::Address) => c.address is Some,
    }
}

pub open spec fn name_of(p: Parameter) -> ParameterName {
    match p {
        Parameter::String(n) => n,
    }
}

/// Checks that the configuration gives a value for every parameter; the
/// error names the first one it lacks.
pub fn validate_parameters(device: &DeviceConfig, params: &Vec<Parameter>) -> (r: Result<(), ValidationError>)
    ensures
        r is Ok <==> forall|k: int| 0 <= k < params@.len() ==> has_value(*device, #[trigger] params@[k]),
        r matches Err(e) ==> exists|k: int|
            0 <= k < params@.len() && !has_value(*device, #[trigger] params@[k])
                && (forall|p: int| 0 <= p < k ==> has_value(*device, params@[p]))
                && e == ValidationError::MissingValue(name_of(params@[k])),
{
    let mut i: usize = 0;
    while i < params.len()
        invariant
            i <= params@.len(),
            forall|k: int| 0 <= k < i ==> has_value(*device, #[trigger] params@[k]),
        decreases params@.len() - i,
    {
        match params[i] {
            Parameter::String(ParameterName::Address) => {
                if device.address.is_none() {
                    return Err(ValidationError::MissingValue(ParameterName::Address));
                }
            },
        }
        i = i + 1;
    }
    Ok(())
}

/// A configured device: its id, its name, its kind and the ids of the
/// actions it exposes.
#[derive(Debug, Clone, PartialEq)]
pub struct Device {
    pub id: String,
    pub name: String,
    pub device_type: DeviceTypes,
    pub actions: Vec<String>,
}

pub struct DeviceModel {
    pub id: Seq<char>,
    pub name: Seq<char>,
    pub device_type: DeviceTypes,
    pub actions: Seq<Seq<char>>,
}

impl View for Device {
    type V = DeviceModel;

    open spec fn view(&self) -> DeviceModel {
        DeviceModel {
            id: self.id@,
            name: self.name@,
            device_type: self.device_type,
            actions: self.actions@.map_values(|a: String| a@),
        }
    }
}

impl Device {
    /// The ids of the device's actions.
    pub fn get_actions(&self) -> (r: &Vec<String>)
        ensures
            r == &self.actions,
    {
        &self.actions
    }

    pub fn get_name(&self) -> (r: &String)
        ensures
            r == &self.name,
    {
        &self.name
    }

    pub fn get_device_type(&self) -> (r: DeviceTypes)
        ensures
            r == self.device_type,
    {
        self.device_type
    }
}

/// The device of kind `t` with the given id and name.
pub open spec fn device_model(id: Seq<char>, name: Seq<char>, t: DeviceTypes) -> DeviceModel {
    DeviceModel { id, name, device_type: t, actions: actions_of(t) }
}

fn device_of(id: String, name: String, t: DeviceTypes) -> (r: Device)
    ensures
        r@ == device_model(id@, name@, t),
{
    let mut actions: Vec<String> = Vec::new();
    match t {
        DeviceTypes::BunnyEars => {
            actions.push(key("leftEar"));
            actions.push(key("rightEar"));
        },
        DeviceTypes::Timer => actions.push(key("delay")),
        DeviceTypes::BleDevice => {},
    }
    let r = Device { id, name, device_type: t, actions };
    assert(r@.actions =~= actions_of(t));
    r
}

/// A software device that waits.
#[derive(Debug, Clone, PartialEq)]
pub struct Timer {
    pub id: String,
    pub name: String,
    pub actions: Vec<Delay>,
    pub device_type: DeviceTypes,
}

/// The timer's one action: wait one second.
#[derive(Debug, Clone, PartialEq)]
pub struct Delay {
    pub id: String,
    pub name: String,
}

impl Delay {
    pub fn new(id: String, name: String) -> (r: Delay)
        ensures
            r.id@ == id@,
            r.name@ == name@,
    {
        Delay { id, name }
    }
}

fn create_actions() -> (r: Vec<Delay>)
    ensures
        r@.len() == 1,
        r@[0].id@ == "delay"@,
        r@[0].name@ == "Delay"@,
{
    let mut r: Vec<Delay> = Vec::new();
    r.push(Delay::new(key("delay"), key("Delay")));
    r
}

impl Timer {
    pub fn new(id: String, name: String) -> (r: Timer)
        ensures
            r.id@ == id@,
            r.name@ == name@,
            r.device_type == DeviceTypes::Timer,
            r.actions@.len() == 1,
            r.actions@[0].id@ == "delay"@,
            r.actions@[0].name@ == "Delay"@,
    {
        Timer { id, name, actions: create_actions(), device_type: DeviceTypes::Timer }
    }

    /// The timer as a registry entry.
    pub fn to_device(self) -> (r: Device)
        ensures
            r@ == device_model(self.id@, self.name@, DeviceTypes::Timer),
    {
        device_of(self.id, self.name, DeviceTypes::Timer)
    }
}

/// A two-eared BLE toy; both ears are driven over one connection to the
/// peripheral at `address`.
#[derive(Debug, Clone, PartialEq)]
pub struct BunnyEars {
    pub id: String,
    pub name: String,
    pub address: String,
    pub device_type: DeviceTypes,
}

impl BunnyEars {
    pub fn new(id: String, name: String, address: String) -> (r: BunnyEars)
        ensures
            r.id@ == id@,
            r.name@ == name@,
            r.address@ == address@,
            r.device_type == DeviceTypes::BunnyEars,
    {
        BunnyEars { id, name, address, device_type: DeviceTypes::BunnyEars }
    }

    /// The toy as a registry entry.
    pub fn to_device(self) -> (r: Device)
        ensures
            r@ == device_model(self.id@, self.name@, DeviceTypes::BunnyEars),
    {
        device_of(self.id, self.name, DeviceTypes::BunnyEars)
    }
}

/// An ear of the toy.
#[derive(Debug, Clone, Copy, PartialEq, Eq, Structural)]
pub enum Ear {
    Left,
    Right,
}

/// The ear that an action id of the toy drives.
pub open spec fn ear_of(action_id: Seq<char>) -> Option<Ear> {
    if action_id == "leftEar"@ {
        Some(Ear::Left)
    } else if action_id == "rightEar"@ {
        Some(Ear::Right)
    } else {
        None
    }
}

/// The ear that an action id of the toy drives, if any.
pub fn ear_for_action(action_id: &String) -> (r: Option<Ear>)
    ensures
        r == ear_of(action_id@),
{
    proof {
        reveal_strlit("leftEar");
        reveal_strlit("rightEar");
    }
    if *action_id == key("leftEar") {
        Some(Ear::Left)
    } else if *action_id == key("rightEar") {
        Some(Ear::Right)
    } else {
        None
    }
}

/// The bytes written to the toy's receive characteristic to wave an ear:
/// `H`, the ear's digit (`1` left, `2` right), `80`, and a line feed.
pub fn ear_command(ear: Ear) -> (r: Vec<u8>)
    ensures
        r@ == seq![0x48u8, if ear == Ear::Left { 0x31u8 } else { 0x32u8 }, 0x38u8, 0x30u8, 0x0Au8],
{
    let mut r: Vec<u8> = Vec::new();
    r.push(0x48);
    match ear {
        Ear::Left => r.push(0x31),
        Ear::Right => r.push(0x32),
    }
    r.push(0x38);
    r.push(0x30);
    r.push(0x0A);
    assert(r@ =~= seq![0x48u8, if ear == Ear::Left { 0x31u8 } else { 0x32u8 }, 0x38u8, 0x30u8, 0x0Au8]);
    r
}

/// A generic BLE device with no actions of its own.
pub fn ble_device(id: String, name: String) -> (r: Device)
    ensures
        r@ == device_model(id@, name@, DeviceTypes::BleDevice),
{
    device_of(id, name, DeviceTypes::BleDevice)
}

/// The device that a valid configuration describes.
pub open spec fn configured_model(c: DeviceConfig) -> DeviceModel {
    device_model(c.id@, c.name@, device_type_of(c.device_type@)->Some_0)
}

/// Whether a configuration describes a device that can be built: its tag
/// names a kind and it gives every parameter that kind needs.
pub open spec fn config_valid(c: DeviceConfig) -> bool {
    &&& device_type_of(c.device_type@) is Some
    &&& forall|k: int| 0 <= k < parameters_of(device_type_of(c.device_type@)->Some_0).len()
        ==> has_value(c, #[trigger] parameters_of(device_type_of(c.device_type@)->Some_0)[k])
}

/// `e` is the error reported for the invalid configuration `c`.
pub open spec fn config_error_fits(c: DeviceConfig, e: ValidationError) -> bool {
    if device_type_of(c.device_type@) is None {
        e matches ValidationError::UnknownDeviceType(t) && t@ == c.device_type@
    } else {
        e == ValidationError::MissingValue(ParameterName::Address)
    }
}

/// Builds the registry entry that a configuration describes, after
/// checking its type tag and its parameters.
pub fn parse_device(device: &DeviceConfig) -> (r: Result<Device, ValidationError>)
    ensures
        r is Ok <==> config_valid(*device),
        r matches Ok(d) ==> d@ == configured_model(*device),
        r matches Err(e) ==> config_error_fits(*device, e),
{
    match DeviceTypes::parse(&device.device_type) {
        None => Err(ValidationError::UnknownDeviceType(device.device_type.clone())),
        Some(t) => {
            let params = t.get_device_parameters();
            match validate_parameters(device, &params) {
                Err(e) => Err(e),
                Ok(()) => Ok(device_of(device.id.clone(), device.name.clone(), t)),
            }
        },
    }
}

/// The first device in `devs` whose id is `id`.
pub open spec fn find_device(devs: Seq<DeviceModel>, id: Seq<char>) -> Option<DeviceModel>
    decreases devs.len(),
{
    if devs.len() == 0 {
        None
    } else if devs[0].id == id {
        Some(devs[0])
    } else {
        find_device(devs.drop_first(), id)
    }
}

proof fn lemma_find_at(devs: Seq<DeviceModel>, id: Seq<char>, i: int)
    requires
        0 <= i < devs.len(),
        devs[i].id == id,
        forall|p: int| 0 <= p < i ==> devs[p].id != id,
    ensures
        find_device(devs, id) == Some(devs[i]),
    decreases i,
{
    if i > 0 {
        lemma_find_at(devs.drop_first(), id, i - 1);
    }
}

proof fn lemma_find_none(devs: Seq<DeviceModel>, id: Seq<char>)
    requires
        forall|p: int| 0 <= p < devs.len() ==> devs[p].id != id,
    ensures
        find_device(devs, id) is None,
    decreases devs.len(),
{
    if devs.len() > 0 {
        lemma_find_none(devs.drop_first(), id);
    }
}

proof fn lemma_find_update(devs: Seq<DeviceModel>, i: int, d: DeviceModel, k: Seq<char>)
    requires
        0 <= i < devs.len(),
        devs[i].id == d.id,
        k != d.id,
    ensures
        find_device(devs.update(i, d), k) == find_device(devs, k),
    decreases devs.len(),
{
    if i > 0 {
        assert(devs.update(i, d)[0] == devs[0]);
        assert(devs.update(i, d).drop_first() =~= devs.drop_first().update(i - 1, d));
        lemma_find_update(devs.drop_first(), i - 1, d, k);
    } else {
        assert(devs.update(i, d)[0] == d);
        assert(devs.update(i, d).drop_first() =~= devs.drop_first());
    }
}

proof fn lemma_find_push(devs: Seq<DeviceModel>, d: DeviceModel, k: Seq<char>)
    ensures
        find_device(devs.push(d), k) == (if find_device(devs, k) is Some {
            find_device(devs, k)
        } else if d.id == k {
            Some(d)
        } else {
            None
        }),
    decreases devs.len(),
{
    if devs.len() > 0 {
        assert(devs.push(d)[0] == devs[0]);
        assert(devs.push(d).drop_first() =~= devs.drop_first().push(d));
        lemma_find_push(devs.drop_first(), d, k);
    } else {
        assert(devs.push(d)[0] == d);
        assert(devs.push(d).drop_first() =~= Seq::<DeviceModel>::empty());
        assert(find_device(Seq::<DeviceModel>::empty(), k) is None);
        assert(find_device(devs, k) is None);
    }
}

/// The devices configured for a run, by id. Each id stands for one device;
/// registering an id again replaces its device.
#[derive(Debug, Clone, PartialEq)]
pub struct DeviceRegistry {
    devices: Vec<Device>,
}

impl View for DeviceRegistry {
    type V = Seq<DeviceModel>;

    closed spec fn view(&self) -> Seq<DeviceModel> {
        self.devices@.map_values(|d: Device| d@)
    }
}

impl DeviceRegistry {
    /// The device registered under `id`.
    pub open spec fn lookup(&self, id: Seq<char>) -> Option<DeviceModel> {
        find_device(self@, id)
    }

    /// A registry with no device.
    pub fn new() -> (r: DeviceRegistry)
        ensures
            forall|id: Seq<char>| r.lookup(id) is None,
    {
        let r = DeviceRegistry { devices: Vec::new() };
        assert(r@ =~= Seq::<DeviceModel>::empty());
        r
    }

    fn position(&self, id: &String) -> (r: Option<usize>)
        ensures
            r matches Some(i) ==> i < self@.len() && self@[i as int].id == id@ && self.devices@[i as int].id@ == id@
                && forall|p: int| 0 <= p < i ==> self@[p].id != id@,
            r is None ==> forall|p: int| 0 <= p < self@.len() ==> self@[p].id != id@,
    {
        let mut i: usize = 0;
        while i < self.devices.len()
            invariant
                i <= self@.len(),
                self@.len() == self.devices@.len(),
                forall|p: int| 0 <= p < i ==> self@[p].id != id@,
            decreases self@.len() - i,
        {
            if self.devices[i].id == *id {
                return Some(i);
            }
            i = i + 1;
        }
        None
    }

    /// Registers `d` under its id, in place of any device registered there.
    pub fn insert(&mut self, d: Device)
        ensures
            final(self).lookup(d.id@) == Some(d@),
            forall|k: Seq<char>| k != d.id@ ==> final(self).lookup(k) == old(self).lookup(k),
    {
        let ghost before = self@;
        let ghost dm = d@;
        match self.position(&d.id) {
            Some(i) => {
                self.devices.set(i, d);
                proof {
                    assert(self@ =~= before.update(i as int, dm));
                    lemma_find_at(self@, dm.id, i as int);
                    assert forall|k: Seq<char>| k != dm.id implies find_device(self@, k) == find_device(before, k) by {
                        lemma_find_update(before, i as int, dm, k);
                    }
                }
            },
            None => {
                self.devices.push(d);
                proof {
                    assert(self@ =~= before.push(dm));
                    lemma_find_none(before, dm.id);
                    assert forall|k: Seq<char>| true implies find_device(self@, k) == (if find_device(before, k) is Some {
                        find_device(before, k)
                    } else if dm.id == k {
                        Some(dm)
                    } else {
                        None
                    }) by {
                        lemma_find_push(before, dm, k);
                    }
                }
            },
        }
    }

    /// The device registered under `id`.
    pub fn get_device_by_id(&self, id: &String) -> (r: Option<&Device>)
        ensures
            r matches Some(d) ==> self.lookup(id@) == Some(d@),
            r is None <==> self.lookup(id@) is None,
    {
        match self.position(id) {
            Some(i) => {
                proof {
                    lemma_find_at(self@, id@, i as int);
                }
                Some(&self.devices[i])
            },
            None => {
                proof {
                    lemma_find_none(self@, id@);
                }
                None
            },
        }
    }
}

/// Registers the timer under the id `timer`.
pub fn setup(devices: DeviceRegistry) -> (r: DeviceRegistry)
    ensures
        r.lookup("timer"@) == Some(device_model("timer"@, "Timer"@, DeviceTypes::Timer)),
        forall|k: Seq<char>| k != "timer"@ ==> r.lookup(k) == devices.lookup(k),
{
    let mut devices = devices;
    let timer = Timer::new(key("timer"), key("Timer"));
    devices.insert(timer.to_device());
    devices
}

/// The device that the last configuration with id `id` describes.
pub open spec fn configured_lookup(configs: Seq<DeviceConfig>, id: Seq<char>) -> Option<DeviceModel>
    decreases configs.len(),
{
    if configs.len() == 0 {
        None
    } else if configs.last().id@ == id {
        Some(configured_model(configs.last()))
    } else {
        configured_lookup(configs.drop_last(), id)
    }
}

/// Builds the registry of a run from the configured devices. The first
/// configuration that cannot be built fails the whole registry; where two
/// configurations share an id, the later one counts.
pub fn format_configured_devices(configs: &Vec<DeviceConfig>) -> (r: Result<DeviceRegistry, ValidationError>)
    ensures
        r is Ok <==> forall|k: int| 0 <= k < configs@.len() ==> config_valid(#[trigger] configs@[k]),
        r matches Ok(reg) ==> forall|id: Seq<char>| reg.lookup(id) == configured_lookup(configs@, id),
        r matches Err(e) ==> exists|k: int|
            0 <= k < configs@.len() && !config_valid(#[trigger] configs@[k]) && (forall|p: int|
                0 <= p < k ==> config_valid(configs@[p])) && config_error_fits(configs@[k], e),
{
    let mut reg = DeviceRegistry::new();
    let mut i: usize = 0;
    while i < configs.len()
        invariant
            i <= configs@.len(),
            forall|k: int| 0 <= k < i ==> config_valid(#[trigger] configs@[k]),
            forall|id: Seq<char>| reg.lookup(id) == configured_lookup(configs@.subrange(0, i as int), id),
        decreases configs@.len() - i,
    {
        match parse_device(&configs[i]) {
            Err(e) => {
                return Err(e);
            },
            Ok(d) => {
                reg.insert(d);
                proof {
                    let s = configs@.subrange(0, i + 1);
                    assert(s.drop_last() =~= configs@.subrange(0, i as int));
                    assert(s.last() == configs@[i as int]);
                }
            },
        }
        i = i + 1;
    }
    assert(configs@.subrange(0, configs@.len() as int) =~= configs@);
    Ok(reg)
}

} // verus!
