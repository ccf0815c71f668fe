//! The unified device list: how each kind of hardware is classified, the
//! summary counts, and which handler an action on a device goes to.
use vstd::prelude::*;
use crate::text::{push_str, str_equal, string_of};

verus! {

#[derive(Debug, Clone, Copy, PartialEq, Eq, Structural)]
pub enum DeviceType {
    Camera,
    DepthCamera,
    Phone,
    Turntable,
    Sensor,
    Microphone,
    Light,
    Storage,
    RobotArm,
}

#[derive(Debug, Clone, Copy, PartialEq, Eq, Structural)]
pub enum ConnectionType {
    Usb,
    Network,
    Bluetooth,
    Serial,
    Cloud,
}

#[derive(Debug, Clone, Copy, PartialEq, Eq, Structural)]
pub enum DeviceStatus {
    Connected,
    Disconnected,
    Error,
    Busy,
    Initializing,
    /// A phone that is ready to capture.
    Ready,
}

impl DeviceType {
    /// The name the API uses for the type.
    pub fn as_str(&self) -> (r: &'static str)
        ensures
            r@ == (match *self {
                DeviceType::Camera => "camera"@,
                DeviceType::DepthCamera => "depth_camera"@,
                DeviceType::Phone => "phone"@,
                DeviceType::Turntable => "turntable"@,
                DeviceType::Sensor => "sensor"@,
                DeviceType::Microphone => "microphone"@,
                DeviceType::Light => "light"@,
                DeviceType::Storage => "storage"@,
                DeviceType::RobotArm => "robot_arm"@,
            }),
    {
        match self {
            DeviceType::Camera => "camera",
            DeviceType::DepthCamera => "depth_camera",
            DeviceType::Phone => "phone",
            DeviceType::Turntable => "turntable",
            DeviceType::Sensor => "sensor",
            DeviceType::Microphone => "microphone",
            DeviceType::Light => "light",
            DeviceType::Storage => "storage",
            DeviceType::RobotArm => "robot_arm",
        }
    }
}

impl ConnectionType {
    /// The name the API uses for the connection.
    pub fn as_str(&self) -> (r: &'static str)
        ensures
            r@ == (match *self {
                ConnectionType::Usb => "usb"@,
                ConnectionType::Network => "network"@,
                ConnectionType::Bluetooth => "bluetooth"@,
                ConnectionType::Serial => "serial"@,
                ConnectionType::Cloud => "cloud"@,
            }),
    {
        match self {
            ConnectionType::Usb => "usb",
            ConnectionType::Network => "network",
            ConnectionType::Bluetooth => "bluetooth",
            ConnectionType::Serial => "serial",
            ConnectionType::Cloud => "cloud",
        }
    }
}

impl DeviceStatus {
    /// The name the API uses for the status.
    pub fn as_str(&self) -> (r: &'static str)
        ensures
            r@ == (match *self {
                DeviceStatus::Connected => "connected"@,
                DeviceStatus::Disconnected => "disconnected"@,
                DeviceStatus::Error => "error"@,
                DeviceStatus::Busy => "busy"@,
                DeviceStatus::Initializing => "initializing"@,
                DeviceStatus::Ready => "ready"@,
            }),
    {
        match self {
            DeviceStatus::Connected => "connected",
            DeviceStatus::Disconnected => "disconnected",
            DeviceStatus::Error => "error",
            DeviceStatus::Busy => "busy",
            DeviceStatus::Initializing => "initializing",
            DeviceStatus::Ready => "ready",
        }
    }
}

/// A registered camera is a depth camera when it has depth; it is connected
/// when the camera manager holds it.
pub fn camera_entry(has_depth: bool, connected: bool) -> (r: (DeviceType, DeviceStatus, ConnectionType))
    ensures
        r.0 == (if has_depth { DeviceType::DepthCamera } else { DeviceType::Camera }),
        r.1 == (if connected { DeviceStatus::Connected } else { DeviceStatus::Disconnected }),
        r.2 == ConnectionType::Usb,
{
    (
        if has_depth { DeviceType::DepthCamera } else { DeviceType::Camera },
        if connected { DeviceStatus::Connected } else { DeviceStatus::Disconnected },
        ConnectionType::Usb,
    )
}

/// The turntable is busy while it moves, and is named after its driver.
pub fn turntable_entry(connected: bool, moving: bool, driver_name: &str) -> (r: (DeviceStatus, String))
    ensures
        r.0 == (if connected { if moving { DeviceStatus::Busy } else { DeviceStatus::Connected } } else { DeviceStatus::Disconnected }),
        r.1@ == (if driver_name@.len() == 0 { "Turntable"@ } else { driver_name@ }),
{
    let status = if connected {
        if moving { DeviceStatus::Busy } else { DeviceStatus::Connected }
    } else {
        DeviceStatus::Disconnected
    };
    let name = if driver_name.unicode_len() == 0 { "Turntable".to_string() } else { driver_name.to_string() };
    (status, name)
}

/// A phone is ready or merely connected.
pub fn phone_status(is_ready: bool) -> (r: DeviceStatus)
    ensures
        r == (if is_ready { DeviceStatus::Ready } else { DeviceStatus::Connected }),
{
    if is_ready { DeviceStatus::Ready } else { DeviceStatus::Connected }
}

/// A disk's id, display name and connection: `storage:<name>`,
/// `Storage <name>`, USB when removable.
pub fn storage_entry(disk_name: &str, removable: bool) -> (r: (String, String, ConnectionType))
    ensures
        r.0@ == "storage:"@ + disk_name@,
        r.1@ == "Storage "@ + disk_name@,
        r.2 == (if removable { ConnectionType::Usb } else { ConnectionType::Network }),
{
    let mut id: Vec<char> = Vec::new();
    push_str(&mut id, "storage:");
    push_str(&mut id, disk_name);
    let mut name: Vec<char> = Vec::new();
    push_str(&mut name, "Storage ");
    push_str(&mut name, disk_name);
    (string_of(id.as_slice()), string_of(name.as_slice()), if removable { ConnectionType::Usb } else { ConnectionType::Network })
}

/// What the device list reads of a registered camera.
#[derive(Debug, Clone, PartialEq, Eq)]
pub struct CameraProfileFacts {
    pub id: String,
    pub name: String,
    pub nickname: Option<String>,
    pub has_depth: bool,
    pub enabled: bool,
    pub battery_level: Option<u8>,
}

/// What the device list reads of a connected phone.
#[derive(Debug, Clone, PartialEq, Eq)]
pub struct PhoneFacts {
    pub id: String,
    pub name: String,
    pub is_ready: bool,
    pub device_info: String,
    pub battery_level: u8,
}

/// What the device list reads of a local disk.
#[derive(Debug, Clone, PartialEq, Eq)]
pub struct DiskFacts {
    pub name: String,
    pub removable: bool,
}

/// A device as the unified list presents it; its telemetry and the time it
/// was last seen are attached by the caller.
#[derive(Debug, Clone, PartialEq, Eq)]
pub struct UnifiedDevice {
    pub id: String,
    pub device_type: DeviceType,
    pub name: String,
    pub nickname: Option<String>,
    pub status: DeviceStatus,
    pub connection: ConnectionType,
    pub model: Option<String>,
    pub battery_level: Option<u8>,
    pub enabled: bool,
}

pub open spec fn ids_contain(ids: Seq<String>, id: Seq<char>) -> bool {
    exists|i: int| 0 <= i < ids.len() && ids[i]@ == id
}

/// A registered camera: a depth camera when it has depth, connected when
/// its id is among the connected cameras', over USB.
pub open spec fn is_camera_device(d: UnifiedDevice, p: CameraProfileFacts, connected: Seq<String>) -> bool {
    &&& d.id == p.id
    &&& d.device_type == (if p.has_depth { DeviceType::DepthCamera } else { DeviceType::Camera })
    &&& d.name == p.name
    &&& d.nickname == p.nickname
    &&& d.status == (if ids_contain(connected, p.id@) { DeviceStatus::Connected } else { DeviceStatus::Disconnected })
    &&& d.connection == ConnectionType::Usb
    &&& d.model is None
    &&& d.battery_level == p.battery_level
    &&& d.enabled == p.enabled
}

/// The turntable entry `turntable-main`, over serial.
pub open spec fn is_turntable_device(d: UnifiedDevice, connected: bool, moving: bool, driver_name: Seq<char>) -> bool {
    &&& d.id@ == "turntable-main"@
    &&& d.device_type == DeviceType::Turntable
    &&& d.name@ == (if driver_name.len() == 0 { "Turntable"@ } else { driver_name })
    &&& d.nickname is None
    &&& d.status == (if connected { if moving { DeviceStatus::Busy } else { DeviceStatus::Connected } } else { DeviceStatus::Disconnected })
    &&& d.connection == ConnectionType::Serial
    &&& d.model is None
    &&& d.battery_level is None
    &&& d.enabled
}

/// A phone: ready or connected, over the network, its device info as model.
pub open spec fn is_phone_device(d: UnifiedDevice, p: PhoneFacts) -> bool {
    &&& d.id == p.id
    &&& d.device_type == DeviceType::Phone
    &&& d.name == p.name
    &&& d.nickname is None
    &&& d.status == (if p.is_ready { DeviceStatus::Ready } else { DeviceStatus::Connected })
    &&& d.connection == ConnectionType::Network
    &&& d.model == Some(p.device_info)
    &&& d.battery_level == Some(p.battery_level)
    &&& d.enabled
}

/// The host sensor entry `sensor-host`.
pub open spec fn is_sensor_device(d: UnifiedDevice) -> bool {
    &&& d.id@ == "sensor-host"@
    &&& d.device_type == DeviceType::Sensor
    &&& d.name@ == "Host Sensors"@
    &&& d.nickname is None
    &&& d.status == DeviceStatus::Connected
    &&& d.connection == ConnectionType::Network
    &&& d.model is None
    &&& d.battery_level is None
    &&& d.enabled
}

/// A disk: `storage:<name>`, `Storage <name>`, USB when removable.
pub open spec fn is_disk_device(d: UnifiedDevice, k: DiskFacts) -> bool {
    &&& d.id@ == "storage:"@ + k.name@
    &&& d.device_type == DeviceType::Storage
    &&& d.name@ == "Storage "@ + k.name@
    &&& d.nickname is None
    &&& d.status == DeviceStatus::Connected
    &&& d.connection == (if k.removable { ConnectionType::Usb } else { ConnectionType::Network })
    &&& d.model is None
    &&& d.battery_level is None
    &&& d.enabled
}

pub open spec fn phone_count(phones: Option<Seq<PhoneFacts>>) -> int {
    match phones { Some(p) => p.len() as int, None => 0 }
}

/// The number of devices listed: every camera, phone and disk, and the
/// turntable and host sensor entries.
pub open spec fn spec_device_count(cameras: int, phones: int, disks: int) -> int {
    cameras + 1 + phones + 1 + disks
}

pub open spec fn opt_phones(phones: Option<&Vec<PhoneFacts>>) -> Option<Seq<PhoneFacts>> {
    match phones { Some(p) => Some(p@), None => None }
}

fn contains_id(ids: &Vec<String>, id: &str) -> (b: bool)
    ensures
        b == ids_contain(ids@, id@),
{
    let mut i: usize = 0;
    while i < ids.len()
        invariant
            i <= ids@.len(),
            forall|k: int| 0 <= k < i ==> ids@[k]@ != id@,
        decreases ids@.len() - i,
    {
        if str_equal(ids[i].as_str(), id) {
            return true;
        }
        i = i + 1;
    }
    false
}

/// The unified device list: the registered cameras in order, the turntable,
/// the phones (none without phone support), the host sensors, then the disks.
pub fn device_list(
    cameras: &Vec<CameraProfileFacts>,
    connected_ids: &Vec<String>,
    turntable_connected: bool,
    turntable_moving: bool,
    turntable_driver: &str,
    phones: Option<&Vec<PhoneFacts>>,
    disks: &Vec<DiskFacts>,
) -> (r: Vec<UnifiedDevice>)
    ensures
        r@.len() == spec_device_count(cameras@.len() as int, phone_count(opt_phones(phones)), disks@.len() as int),
        forall|i: int| 0 <= i < cameras@.len() ==> is_camera_device(#[trigger] r@[i], cameras@[i], connected_ids@),
        is_turntable_device(r@[cameras@.len() as int], turntable_connected, turntable_moving, turntable_driver@),
        forall|j: int| 0 <= j < phone_count(opt_phones(phones)) ==> is_phone_device(
            #[trigger] r@[cameras@.len() + 1 + j], opt_phones(phones)->0[j]),
        is_sensor_device(r@[cameras@.len() + 1 + phone_count(opt_phones(phones))]),
        forall|k: int| 0 <= k < disks@.len() ==> is_disk_device(
            #[trigger] r@[cameras@.len() + 2 + phone_count(opt_phones(phones)) + k], disks@[k]),
{
    let mut out: Vec<UnifiedDevice> = Vec::new();
    let mut i: usize = 0;
    while i < cameras.len()
        invariant
            i <= cameras@.len(),
            out@.len() == i,
            forall|a: int| 0 <= a < i ==> is_camera_device(#[trigger] out@[a], cameras@[a], connected_ids@),
        decreases cameras@.len() - i,
    {
        let p = &cameras[i];
        let (device_type, status, connection) = camera_entry(p.has_depth, contains_id(connected_ids, p.id.as_str()));
        out.push(UnifiedDevice {
            id: p.id.clone(),
            device_type,
            name: p.name.clone(),
            nickname: p.nickname.clone(),
            status,
            connection,
            model: None,
            battery_level: p.battery_level,
            enabled: p.enabled,
        });
        i = i + 1;
    }
    let nc = out.len();
    let (tt_status, tt_name) = turntable_entry(turntable_connected, turntable_moving, turntable_driver);
    out.push(UnifiedDevice {
        id: "turntable-main".to_string(),
        device_type: DeviceType::Turntable,
        name: tt_name,
        nickname: None,
        status: tt_status,
        connection: ConnectionType::Serial,
        model: None,
        battery_level: None,
        enabled: true,
    });
    let ghost base_len = out@.len();
    match phones {
        Some(ps) => {
            let mut j: usize = 0;
            while j < ps.len()
                invariant
                    j <= ps@.len(),
                    base_len == nc + 1,
                    nc == cameras@.len(),
                    out@.len() == base_len + j,
                    forall|a: int| 0 <= a < nc ==> is_camera_device(#[trigger] out@[a], cameras@[a], connected_ids@),
                    is_turntable_device(out@[nc as int], turntable_connected, turntable_moving, turntable_driver@),
                    forall|b: int| 0 <= b < j ==> is_phone_device(#[trigger] out@[nc + 1 + b], ps@[b]),
                decreases ps@.len() - j,
            {
                let p = &ps[j];
                out.push(UnifiedDevice {
                    id: p.id.clone(),
                    device_type: DeviceType::Phone,
                    name: p.name.clone(),
                    nickname: None,
                    status: phone_status(p.is_ready),
                    connection: ConnectionType::Network,
                    model: Some(p.device_info.clone()),
                    battery_level: Some(p.battery_level),
                    enabled: true,
                });
                j = j + 1;
            }
        },
        None => {},
    }
    let ns = out.len();
    out.push(UnifiedDevice {
        id: "sensor-host".to_string(),
        device_type: DeviceType::Sensor,
        name: "Host Sensors".to_string(),
        nickname: None,
        status: DeviceStatus::Connected,
        connection: ConnectionType::Network,
        model: None,
        battery_level: None,
        enabled: true,
    });
    let mut k: usize = 0;
    while k < disks.len()
        invariant
            k <= disks@.len(),
            nc == cameras@.len(),
            ns == nc + 1 + phone_count(opt_phones(phones)),
            out@.len() == ns + 1 + k,
            forall|a: int| 0 <= a < nc ==> is_camera_device(#[trigger] out@[a], cameras@[a], connected_ids@),
            is_turntable_device(out@[nc as int], turntable_connected, turntable_moving, turntable_driver@),
            forall|b: int| 0 <= b < phone_count(opt_phones(phones)) ==> is_phone_device(
                #[trigger] out@[nc + 1 + b], opt_phones(phones)->0[b]),
            is_sensor_device(out@[ns as int]),
            forall|c: int| 0 <= c < k ==> is_disk_device(#[trigger] out@[ns + 1 + c], disks@[c]),
        decreases disks@.len() - k,
    {
        let d = &disks[k];
        let (id, name, connection) = storage_entry(d.name.as_str(), d.removable);
        out.push(UnifiedDevice {
            id,
            device_type: DeviceType::Storage,
            name,
            nickname: None,
            status: DeviceStatus::Connected,
            connection,
            model: None,
            battery_level: None,
            enabled: true,
        });
        k = k + 1;
    }
    out
}

/// The device counts that the statistics read, taken from the same sources
/// as the device list.
pub open spec fn counts_match(c: DeviceCounts, cameras: int, phones: Option<Seq<PhoneFacts>>, disks: int) -> bool {
    &&& c.registered_cameras == cameras
    &&& (match phones { Some(p) => c.phones matches Some(n) && n == p.len(), None => c.phones is None })
    &&& c.disks == disks
}


/// The sum of the counts of a breakdown.
pub open spec fn count_sum(s: Seq<(Seq<char>, usize)>) -> int
    decreases s.len(),
{
    if s.len() == 0 { 0 } else { count_sum(s.drop_last()) + s.last().1 }
}

/// Both breakdowns of the statistics add up to its total, and the total is
/// the number of devices that the device list shows for the same cameras,
/// phones and disks.
pub proof fn stats_breakdowns_add_up_to_the_listed_devices(c: DeviceCounts, cameras: int, phones: Option<Seq<PhoneFacts>>, disks: int)
    requires
        spec_stats_total(c) <= usize::MAX,
        counts_match(c, cameras, phones, disks),
    ensures
        count_sum(spec_by_type(c)) == spec_stats_total(c),
        count_sum(spec_by_connection(c)) == spec_stats_total(c),
        spec_stats_total(c) == spec_device_count(cameras, phone_count(phones), disks),
{
    let a = seq![("camera"@, c.registered_cameras)];
    let b = match c.phones { Some(p) => a.push(("phone"@, p)), None => a };
    let d = b.push(("sensor"@, 1usize));
    let e = if c.disks > 0 { d.push(("storage"@, c.disks)) } else { d };
    assert(a.drop_last() =~= Seq::<(Seq<char>, usize)>::empty());
    assert(count_sum(a.drop_last()) == 0);
    assert(a.last().1 == c.registered_cameras);
    assert(count_sum(a) == c.registered_cameras);
    assert(count_sum(b) == c.registered_cameras + phones_of(c)) by {
        if c.phones is Some {
            assert(b.drop_last() =~= a);
        }
    }
    assert(d.drop_last() =~= b);
    assert(count_sum(d) == count_sum(b) + 1);
    if c.disks > 0 {
        assert(e.drop_last() =~= d);
        assert(count_sum(e) == count_sum(d) + c.disks);
    }
    let t = e.push(("turntable"@, 1usize));
    assert(t == spec_by_type(c));
    assert(t.drop_last() =~= e);
    assert(count_sum(t) == count_sum(e) + 1);
    let conn = spec_by_connection(c);
    let c1 = seq![("usb"@, c.registered_cameras)];
    let c2 = c1.push(("network"@, (phones_of(c) + 1 + c.disks) as usize));
    let c3 = c2.push(("serial"@, 1usize));
    assert(conn =~= c3);
    assert(c1.drop_last() =~= Seq::<(Seq<char>, usize)>::empty());
    assert(count_sum(c1.drop_last()) == 0);
    assert(count_sum(c1) == c.registered_cameras);
    assert(c2.drop_last() =~= c1);
    assert(count_sum(c2) == c.registered_cameras + phones_of(c) + 1 + c.disks);
    assert(c3.drop_last() =~= c2);
    assert(count_sum(c3) == count_sum(c2) + 1);
}

/// How many devices of each source there are.
#[derive(Debug, Clone, Copy, PartialEq, Eq, Structural)]
pub struct DeviceCounts {
    pub registered_cameras: usize,
    pub connected_cameras: usize,
    /// Phones, when phone support is running.
    pub phones: Option<usize>,
    pub disks: usize,
    pub turntable_connected: bool,
}

/// Device totals, with counts by type and by connection (each name once).
#[derive(Debug, Clone, PartialEq, Eq)]
pub struct DeviceStats {
    pub total: usize,
    pub connected: usize,
    pub by_type: Vec<(String, usize)>,
    pub by_connection: Vec<(String, usize)>,
}

pub open spec fn count_views(v: Seq<(String, usize)>) -> Seq<(Seq<char>, usize)> {
    Seq::new(v.len(), |i: int| (v[i].0@, v[i].1))
}

pub open spec fn phones_of(c: DeviceCounts) -> int {
    match c.phones { Some(p) => p as int, None => 0 }
}

/// Every source counts: cameras (connected when held), phones (all
/// connected), the host sensors, the disks, and the turntable.
pub open spec fn spec_stats_total(c: DeviceCounts) -> int {
    c.registered_cameras + phones_of(c) + 1 + c.disks + 1
}

pub open spec fn spec_stats_connected(c: DeviceCounts) -> int {
    c.connected_cameras + phones_of(c) + 1 + c.disks + (if c.turntable_connected { 1int } else { 0 })
}

pub open spec fn spec_by_type(c: DeviceCounts) -> Seq<(Seq<char>, usize)> {
    let a = seq![("camera"@, c.registered_cameras)];
    let b = match c.phones { Some(p) => a.push(("phone"@, p)), None => a };
    let d = b.push(("sensor"@, 1usize));
    let e = if c.disks > 0 { d.push(("storage"@, c.disks)) } else { d };
    e.push(("turntable"@, 1usize))
}

pub open spec fn spec_by_connection(c: DeviceCounts) -> Seq<(Seq<char>, usize)> {
    seq![
        ("usb"@, c.registered_cameras),
        ("network"@, (phones_of(c) + 1 + c.disks) as usize),
        ("serial"@, 1usize),
    ]
}

pub fn device_stats(c: DeviceCounts) -> (r: DeviceStats)
    requires
        spec_stats_total(c) <= usize::MAX,
        spec_stats_connected(c) <= usize::MAX,
    ensures
        r.total == spec_stats_total(c),
        r.connected == spec_stats_connected(c),
        count_views(r.by_type@) == spec_by_type(c),
        count_views(r.by_connection@) == spec_by_connection(c),
{
    let phones: usize = match c.phones { Some(p) => p, None => 0 };
    let total = c.registered_cameras + phones + 1 + c.disks + 1;
    let connected = c.connected_cameras + phones + 1 + c.disks + if c.turntable_connected { 1 } else { 0 };
    let mut by_type: Vec<(String, usize)> = Vec::new();
    by_type.push(("camera".to_string(), c.registered_cameras));
    match c.phones {
        Some(p) => by_type.push(("phone".to_string(), p)),
        None => {},
    }
    by_type.push(("sensor".to_string(), 1));
    if c.disks > 0 {
        by_type.push(("storage".to_string(), c.disks));
    }
    by_type.push(("turntable".to_string(), 1));
    let mut by_connection: Vec<(String, usize)> = Vec::new();
    by_connection.push(("usb".to_string(), c.registered_cameras));
    by_connection.push(("network".to_string(), phones + 1 + c.disks));
    by_connection.push(("serial".to_string(), 1));
    assert(count_views(by_type@) =~= spec_by_type(c));
    assert(count_views(by_connection@) =~= spec_by_connection(c));
    DeviceStats { total, connected, by_type, by_connection }
}

/// Which handler an action on a device goes to.
#[derive(Debug, Clone, Copy, PartialEq, Eq, Structural)]
pub enum DeviceActionRoute {
    PhoneCapture,
    CameraCapture,
    CameraEnable,
    CameraDisable,
    TurntableHome,
    TurntableRotate,
    /// "Device not found or action not supported"
    Unsupported,
}

/// Where the device is known.
#[derive(Debug, Clone, Copy, PartialEq, Eq, Structural)]
pub struct DeviceLookup {
    pub is_phone: bool,
    pub is_registered_camera: bool,
    pub camera_connected: bool,
    pub turntable_present: bool,
}

/// Phones are tried first (capture only), then registered cameras (capture
/// when connected, enable, disable), then the turntable (home, rotate, when
/// it is present).
pub open spec fn spec_device_route(device_id: Seq<char>, action: Seq<char>, l: DeviceLookup) -> DeviceActionRoute {
    if l.is_phone && action == "capture"@ {
        DeviceActionRoute::PhoneCapture
    } else if l.is_registered_camera && action == "capture"@ && l.camera_connected {
        DeviceActionRoute::CameraCapture
    } else if l.is_registered_camera && action == "enable"@ {
        DeviceActionRoute::CameraEnable
    } else if l.is_registered_camera && action == "disable"@ {
        DeviceActionRoute::CameraDisable
    } else if device_id == "turntable-main"@ && action == "home"@ && l.turntable_present {
        DeviceActionRoute::TurntableHome
    } else if device_id == "turntable-main"@ && action == "rotate"@ && l.turntable_present {
        DeviceActionRoute::TurntableRotate
    } else {
        DeviceActionRoute::Unsupported
    }
}

pub fn route_device_action(device_id: &str, action: &str, l: DeviceLookup) -> (r: DeviceActionRoute)
    ensures
        r == spec_device_route(device_id@, action@, l),
{
    let capture = str_equal(action, "capture");
    if l.is_phone && capture {
        return DeviceActionRoute::PhoneCapture;
    }
    if l.is_registered_camera {
        if capture && l.camera_connected {
            return DeviceActionRoute::CameraCapture;
        }
        if str_equal(action, "enable") {
            return DeviceActionRoute::CameraEnable;
        }
        if str_equal(action, "disable") {
            return DeviceActionRoute::CameraDisable;
        }
    }
    if str_equal(device_id, "turntable-main") && l.turntable_present {
        if str_equal(action, "home") {
            return DeviceActionRoute::TurntableHome;
        }
        if str_equal(action, "rotate") {
            return DeviceActionRoute::TurntableRotate;
        }
    }
    DeviceActionRoute::Unsupported
}

/// The settings of a phone capture: no flash, no countdown and quality 90 by
/// default; the numbers are cut to their widths.
pub fn phone_capture_settings(flash: Option<bool>, countdown_ms: Option<u64>, quality: Option<u64>) -> (r: (bool, u32, u8))
    ensures
        r.0 == (match flash { Some(b) => b, None => false }),
        r.1 == (match countdown_ms { Some(v) => v as u32, None => 0u32 }),
        r.2 == (match quality { Some(v) => v as u8, None => 90u8 }),
{
    (
        match flash { Some(b) => b, None => false },
        match countdown_ms { Some(v) => v as u32, None => 0 },
        match quality { Some(v) => v as u8, None => 90 },
    )
}

/// Actions on all devices at once.
#[derive(Debug, Clone, Copy, PartialEq, Eq, Structural)]
pub enum BatchAction {
    CaptureAllPhones,
    Scan,
    /// "Unknown batch action"
    Unknown,
}

pub fn batch_action(action: &str) -> (r: BatchAction)
    ensures
        r == (if action@ == "capture_all_phones"@ { BatchAction::CaptureAllPhones }
            else if action@ == "scan"@ { BatchAction::Scan }
            else { BatchAction::Unknown }),
{
    if str_equal(action, "capture_all_phones") {
        BatchAction::CaptureAllPhones
    } else if str_equal(action, "scan") {
        BatchAction::Scan
    } else {
        BatchAction::Unknown
    }
}

} // verus!
