//! PCI devices: how they are addressed, found and bound to a driver.
use vstd::prelude::*;

use crate::digits;
use crate::system;
use crate::system::{
    IoError, IoErrorKind, PCIEnumerationError, Progress, ReplyView, Step, Transcript, UdevDevice,
    UdevDeviceView,
};
use crate::text;

verus! {

/// The vendor and the product number of a device.
#[derive(Debug, Copy, Clone, PartialEq, Eq, Structural)]
pub struct PCIDeviceId {
    pub vendor_id: u16,
    pub product_id: u16,
}

/// The text is no device id.
#[derive(Debug, PartialEq, Eq)]
pub struct InvalidPCIDeviceIdError;

/// Where a device sits: its domain, bus, device and function number.
#[derive(Debug, Copy, Clone, PartialEq, Eq, Structural)]
pub struct PCIBusId {
    pub domain: u16,
    pub bus: u8,
    pub device: u8,
    pub function: u8,
}

/// The text is no bus id.
#[derive(Debug, PartialEq, Eq)]
pub struct InvalidPCIBusIdError;

/// The byte that the first two hexadecimal digits of a field spell, once the field is filled up to
/// two; nothing unless the whole field spells bytes.
pub open spec fn byte_field(field: Seq<char>) -> Option<u8> {
    let s = text::zero_filled(field, 2);
    if digits::spells_bytes(s) {
        Some(digits::spelled_byte(s[0], s[1]))
    } else {
        None
    }
}

/// The number that the first four hexadecimal digits of a field spell, once the field is filled up
/// to four; nothing unless the whole field spells bytes.
pub open spec fn word_field(field: Seq<char>) -> Option<u16> {
    let s = text::zero_filled(field, 4);
    if digits::spells_bytes(s) {
        Some((256 * digits::spelled_byte(s[0], s[1]) + digits::spelled_byte(s[2], s[3])) as u16)
    } else {
        None
    }
}

/// The device id that a text spells: vendor, colon, product.
pub open spec fn device_id(s: Seq<char>) -> Option<PCIDeviceId> {
    match text::split_at_first(s, ':') {
        Some((vendor, product)) => match (word_field(vendor), word_field(product)) {
            (Some(vendor_id), Some(product_id)) => Some(PCIDeviceId { vendor_id, product_id }),
            _ => None,
        },
        None => None,
    }
}

/// The bus id that a text spells: domain, colon, bus, colon, device and, after a dot, the function.
///
/// The domain has four digits at most. The function is zero if it is left out.
pub open spec fn bus_id(s: Seq<char>) -> Option<PCIBusId> {
    match text::split_at_first(s, ':') {
        Some((domain, rest)) => match text::split_at_first(rest, ':') {
            Some((bus, rest)) => {
                let (device, function) = match text::split_at_first(rest, '.') {
                    Some(parts) => parts,
                    None => (rest, seq!['0', '0']),
                };
                match (word_field(domain), byte_field(bus), byte_field(device), byte_field(function)) {
                    (
                        Some(domain_number),
                        Some(bus),
                        Some(device),
                        Some(function),
                    ) => if domain.len() <= 4 {
                        Some(PCIBusId { domain: domain_number, bus, device, function })
                    } else {
                        None
                    },
                    _ => None,
                }
            },
            None => None,
        },
        None => None,
    }
}

/// A bus id as text.
pub open spec fn bus_text(id: PCIBusId) -> Seq<char> {
    digits::four_digits(id.domain).push(':') + digits::two_digits(id.bus).push(':') + digits::two_digits(id.device).push(
        '.',
    ) + digits::few_digits(id.function)
}

/// Where the kernel shows the device.
pub open spec fn device_dir(id: PCIBusId) -> Seq<char> {
    "/sys/bus/pci/devices/"@ + bus_text(id)
}

/// Reads a field of one byte.
fn parse_byte_field(field: &str) -> (r: Option<u8>)
    ensures
        r == byte_field(field@),
{
    let s = text::zero_fill(field, 2);
    match digits::decode_hex(s.as_str()) {
        Ok(bytes) => Some(bytes[0]),
        Err(_) => None,
    }
}

/// Reads a field of two bytes.
fn parse_word_field(field: &str) -> (r: Option<u16>)
    ensures
        r == word_field(field@),
{
    let s = text::zero_fill(field, 4);
    match digits::decode_hex(s.as_str()) {
        Ok(bytes) => Some(bytes[0] as u16 * 256 + bytes[1] as u16),
        Err(_) => None,
    }
}

impl TryFrom<&str> for PCIDeviceId {
    type Error = InvalidPCIDeviceIdError;

    fn try_from(value: &str) -> (r: Result<Self, Self::Error>) {
        let (vendor, product) = match text::split_once(value, ':') {
            Some(parts) => parts,
            None => return Err(InvalidPCIDeviceIdError),
        };
        match (parse_word_field(vendor), parse_word_field(product)) {
            (Some(vendor_id), Some(product_id)) => Ok(PCIDeviceId { vendor_id, product_id }),
            _ => Err(InvalidPCIDeviceIdError),
        }
    }
}

impl vstd::std_specs::convert::TryFromSpecImpl<&str> for PCIDeviceId {
    open spec fn obeys_try_from_spec() -> bool {
        true
    }

    open spec fn try_from_spec(value: &str) -> Result<Self, Self::Error> {
        match device_id(value@) {
            Some(id) => Ok(id),
            None => Err(InvalidPCIDeviceIdError),
        }
    }
}

impl TryFrom<&str> for PCIBusId {
    type Error = InvalidPCIBusIdError;

    fn try_from(value: &str) -> (r: Result<Self, Self::Error>) {
        let (domain, rest) = match text::split_once(value, ':') {
            Some(parts) => parts,
            None => return Err(InvalidPCIBusIdError),
        };
        if domain.unicode_len() > 4 {
            return Err(InvalidPCIBusIdError);
        }
        let (bus, rest) = match text::split_once(rest, ':') {
            Some(parts) => parts,
            None => return Err(InvalidPCIBusIdError),
        };
        proof {
            reveal_strlit("00");
            assert("00"@ =~= seq!['0', '0']);
        }
        let (device, function) = match text::split_once(rest, '.') {
            Some(parts) => parts,
            None => (rest, "00"),
        };
        match (
            parse_word_field(domain),
            parse_byte_field(bus),
            parse_byte_field(device),
            parse_byte_field(function),
        ) {
            (Some(domain), Some(bus), Some(device), Some(function)) => Ok(
                PCIBusId { domain, bus, device, function },
            ),
            _ => Err(InvalidPCIBusIdError),
        }
    }
}

impl vstd::std_specs::convert::TryFromSpecImpl<&str> for PCIBusId {
    open spec fn obeys_try_from_spec() -> bool {
        true
    }

    open spec fn try_from_spec(value: &str) -> Result<Self, Self::Error> {
        match bus_id(value@) {
            Some(id) => Ok(id),
            None => Err(InvalidPCIBusIdError),
        }
    }
}

impl InvalidPCIDeviceIdError {
    /// The error's message.
    pub fn to_string(&self) -> (r: String)
        ensures
            r@ == "InvalidPCIDeviceIdError"@,
    {
        "InvalidPCIDeviceIdError".to_owned()
    }
}

impl InvalidPCIBusIdError {
    /// The error's message.
    pub fn to_string(&self) -> (r: String)
        ensures
            r@ == "InvalidPCIBusIdError"@,
    {
        "InvalidPCIBusIdError".to_owned()
    }
}

impl PCIBusId {
    /// The bus id as the kernel writes it.
    pub fn to_string(&self) -> (r: String)
        ensures
            r@ == bus_text(*self),
    {
        proof {
            reveal_strlit(":");
            reveal_strlit(".");
        }
        let mut r = digits::hex4(self.domain);
        r.append(":");
        r.append(digits::hex2(self.bus).as_str());
        r.append(":");
        r.append(digits::hex2(self.device).as_str());
        r.append(".");
        r.append(digits::hex1(self.function).as_str());
        assert(r@ =~= bus_text(*self));
        r
    }

    /// The bus id of another function of the same device.
    pub fn with_function(self, function: u8) -> (r: PCIBusId)
        ensures
            r == (PCIBusId { function, ..self }),
    {
        PCIBusId { domain: self.domain, bus: self.bus, device: self.device, function }
    }
}

/// A device, with the slot that it sits in if that is known.
#[derive(Debug, PartialEq, Eq)]
pub struct PCIDevice {
    pub bus_id: PCIBusId,
    pub device_id: Option<PCIDeviceId>,
    pub slot: Option<String>,
}

/// The view of a [`PCIDevice`].
pub struct PCIDeviceView {
    pub bus_id: PCIBusId,
    pub device_id: Option<PCIDeviceId>,
    pub slot: Option<Seq<char>>,
}

impl DeepView for PCIDevice {
    type V = PCIDeviceView;

    open spec fn deep_view(&self) -> PCIDeviceView {
        PCIDeviceView {
            bus_id: self.bus_id,
            device_id: self.device_id,
            slot: self.slot.deep_view(),
        }
    }
}

impl Clone for PCIDevice {
    fn clone(&self) -> (r: PCIDevice)
        ensures
            r.deep_view() == self.deep_view(),
    {
        let slot = match &self.slot {
            Some(slot) => Some(slot.clone()),
            None => None,
        };
        PCIDevice { bus_id: self.bus_id, device_id: self.device_id, slot }
    }
}

/// Why a device was not found.
#[derive(Debug)]
pub enum PCIFindDeviceError {
    Udev(IoError),
    Subsystem(IoError),
    DeviceScan(IoError),
    SlotEnumeration(IoError),
    SlotAddressFetch(IoError),
    InvalidSlotAddress(String),
    DeviceNotFound,
}

/// The view of a [`PCIFindDeviceError`].
pub enum PCIFindDeviceErrorView {
    Udev(IoError),
    Subsystem(IoError),
    DeviceScan(IoError),
    SlotEnumeration(IoError),
    SlotAddressFetch(IoError),
    InvalidSlotAddress(Seq<char>),
    DeviceNotFound,
}

impl DeepView for PCIFindDeviceError {
    type V = PCIFindDeviceErrorView;

    open spec fn deep_view(&self) -> PCIFindDeviceErrorView {
        match self {
            PCIFindDeviceError::Udev(e) => PCIFindDeviceErrorView::Udev(*e),
            PCIFindDeviceError::Subsystem(e) => PCIFindDeviceErrorView::Subsystem(*e),
            PCIFindDeviceError::DeviceScan(e) => PCIFindDeviceErrorView::DeviceScan(*e),
            PCIFindDeviceError::SlotEnumeration(e) => PCIFindDeviceErrorView::SlotEnumeration(*e),
            PCIFindDeviceError::SlotAddressFetch(e) => PCIFindDeviceErrorView::SlotAddressFetch(*e),
            PCIFindDeviceError::InvalidSlotAddress(slot) => {
                PCIFindDeviceErrorView::InvalidSlotAddress(slot@)
            },
            PCIFindDeviceError::DeviceNotFound => PCIFindDeviceErrorView::DeviceNotFound,
        }
    }
}

/// Why the slots could not be searched to the end.
#[derive(Debug)]
pub enum SlotSearchError {
    AddressFetch(IoError),
    InvalidAddress(String),
}

/// The view of a [`SlotSearchError`].
pub enum SlotSearchErrorView {
    AddressFetch(IoError),
    InvalidAddress(Seq<char>),
}

impl DeepView for SlotSearchError {
    type V = SlotSearchErrorView;

    open spec fn deep_view(&self) -> SlotSearchErrorView {
        match self {
            SlotSearchError::AddressFetch(e) => SlotSearchErrorView::AddressFetch(*e),
            SlotSearchError::InvalidAddress(slot) => SlotSearchErrorView::InvalidAddress(slot@),
        }
    }
}

/// Why a device was not bound to the pass-through driver.
#[derive(Debug, Copy, Clone, PartialEq, Eq, Structural)]
pub enum BindError {
    /// The device's vendor and product are not known.
    NotConnected,
    Io(IoError),
}

impl DeepView for BindError {
    type V = BindError;

    open spec fn deep_view(&self) -> BindError {
        *self
    }
}

/// The device id that the device manager lists for `bus`, if `device` is the one that sits there
/// and both its properties can be read.
pub open spec fn listed_id(device: UdevDeviceView, bus: PCIBusId) -> Option<PCIDeviceId> {
    match (device.slot_name, device.pci_id) {
        (Some(slot_name), Some(pci_id)) => if bus_id(slot_name) == Some(bus) {
            device_id(pci_id)
        } else {
            None
        },
        _ => None,
    }
}

/// The device id of the first listed device that sits at `bus`.
pub open spec fn first_listed_id(devices: Seq<UdevDeviceView>, bus: PCIBusId) -> Option<PCIDeviceId>
    decreases devices.len(),
{
    if devices.len() == 0 {
        None
    } else {
        match listed_id(devices[0], bus) {
            Some(id) => Some(id),
            None => first_listed_id(devices.skip(1), bus),
        }
    }
}

/// Asks the device manager for the device at `bus`.
pub open spec fn find_udev(t: Seq<ReplyView>, at: int, bus: PCIBusId) -> Step<
    Result<PCIDeviceView, PCIFindDeviceErrorView>,
> {
    match system::scan_pci(t, at) {
        Err(action) => Err(action),
        Ok((Err(PCIEnumerationError::Udev(e)), n)) => Ok((Err(PCIFindDeviceErrorView::Udev(e)), n)),
        Ok((Err(PCIEnumerationError::Subsystem(e)), n)) => Ok(
            (Err(PCIFindDeviceErrorView::Subsystem(e)), n),
        ),
        Ok((Err(PCIEnumerationError::DeviceScan(e)), n)) => Ok(
            (Err(PCIFindDeviceErrorView::DeviceScan(e)), n),
        ),
        Ok((Ok(devices), n)) => match first_listed_id(devices, bus) {
            Some(id) => Ok(
                (Ok(PCIDeviceView { bus_id: bus, device_id: Some(id), slot: None }), n),
            ),
            None => Ok((Err(PCIFindDeviceErrorView::DeviceNotFound), n)),
        },
    }
}

/// Where the kernel shows the hotplug slots.
pub open spec fn slots_dir() -> Seq<char> {
    "/sys/bus/pci/slots"@
}

/// Looks through the slots, from number `i` of `names` on, for the one whose address is `bus`.
pub open spec fn find_slot(
    t: Seq<ReplyView>,
    at: int,
    bus: PCIBusId,
    names: Seq<Seq<char>>,
    i: int,
) -> Step<Result<Option<Seq<char>>, SlotSearchErrorView>>
    decreases names.len() - i,
{
    if i < 0 || i >= names.len() {
        Ok((Ok(None), at))
    } else {
        let slot = text::path_in(slots_dir(), names[i]);
        match system::read(t, at, text::path_in(slot, "address"@)) {
            Err(action) => Err(action),
            Ok((Err(e), n)) => Ok((Err(SlotSearchErrorView::AddressFetch(e)), n)),
            Ok((Ok(address), n)) => match bus_id(text::trimmed(address)) {
                None => Ok((Err(SlotSearchErrorView::InvalidAddress(slot)), n)),
                Some(id) => if id == bus {
                    Ok((Ok(Some(slot)), n))
                } else {
                    find_slot(t, n, bus, names, i + 1)
                },
            },
        }
    }
}

/// Finds the device at `bus`: in its slot, with the id that the device manager lists if it does, or
/// else by the device manager alone.
pub open spec fn find_device(t: Seq<ReplyView>, at: int, bus: PCIBusId) -> Step<
    Result<PCIDeviceView, PCIFindDeviceErrorView>,
> {
    match system::list(t, at, slots_dir()) {
        Err(action) => Err(action),
        Ok((Err(e), n)) => Ok((Err(PCIFindDeviceErrorView::SlotEnumeration(e)), n)),
        Ok((Ok(names), n)) => match find_slot(t, n, bus, names, 0) {
            Err(action) => Err(action),
            Ok((Err(SlotSearchErrorView::AddressFetch(e)), n)) => Ok(
                (Err(PCIFindDeviceErrorView::SlotAddressFetch(e)), n),
            ),
            Ok((Err(SlotSearchErrorView::InvalidAddress(slot)), n)) => Ok(
                (Err(PCIFindDeviceErrorView::InvalidSlotAddress(slot)), n),
            ),
            Ok((Ok(Some(slot)), n)) => match find_udev(t, n, bus) {
                Err(action) => Err(action),
                Ok((listed, n)) => Ok(
                    (
                        Ok(
                            PCIDeviceView {
                                bus_id: bus,
                                device_id: match listed {
                                    Ok(device) => device.device_id,
                                    Err(_) => None,
                                },
                                slot: Some(slot),
                            },
                        ),
                        n,
                    ),
                ),
            },
            Ok((Ok(None), n)) => find_udev(t, n, bus),
        },
    }
}

/// The name of the driver that the device at `bus` is bound to.
pub open spec fn driver_of(t: Seq<ReplyView>, at: int, bus: PCIBusId) -> Step<
    Result<Seq<char>, IoError>,
> {
    match system::resolve(t, at, text::path_in(device_dir(bus), "driver"@)) {
        Err(action) => Err(action),
        Ok((Err(e), n)) => Ok((Err(e), n)),
        Ok((Ok(path), n)) => Ok((Ok(text::last_component(path)), n)),
    }
}

/// The line that makes a driver accept devices with this id.
pub open spec fn new_id_line(id: PCIDeviceId) -> Seq<char> {
    digits::four_digits(id.vendor_id).push(' ') + digits::four_digits(id.product_id)
}

/// Makes the pass-through driver accept the device's id, then binds the device unless that has
/// bound it already. That the id was known before is no failure.
pub open spec fn bind_vfio(t: Seq<ReplyView>, at: int, device: PCIDeviceView) -> Step<
    Result<(), BindError>,
> {
    match device.device_id {
        None => Ok((Err(BindError::NotConnected), at)),
        Some(id) => match system::write(
            t,
            at,
            "/sys/bus/pci/drivers/vfio-pci/new_id"@,
            new_id_line(id),
        ) {
            Err(action) => Err(action),
            Ok((added, n)) => if added is Err && added->Err_0.kind
                != IoErrorKind::AlreadyExists {
                Ok((Err(BindError::Io(added->Err_0)), n))
            } else {
                match driver_of(t, n, device.bus_id) {
                    Err(action) => Err(action),
                    Ok((driver, n)) => if driver == Ok::<Seq<char>, IoError>("vfio-pci"@) {
                        Ok((Ok(()), n))
                    } else {
                        match system::write(
                            t,
                            n,
                            "/sys/bus/pci/drivers/vfio-pci/bind"@,
                            bus_text(device.bus_id),
                        ) {
                            Err(action) => Err(action),
                            Ok((Ok(()), n)) => Ok((Ok(()), n)),
                            Ok((Err(e), n)) => Ok((Err(BindError::Io(e)), n)),
                        }
                    },
                }
            },
        },
    }
}

/// Takes the device at `bus` away from its driver.
pub open spec fn unbind(t: Seq<ReplyView>, at: int, bus: PCIBusId) -> Step<Result<(), IoError>> {
    let driver = text::path_in(device_dir(bus), "driver"@);
    system::write(t, at, text::path_in(driver, "unbind"@), bus_text(bus))
}

/// Takes the device at `bus` out of the kernel's list.
pub open spec fn remove(t: Seq<ReplyView>, at: int, bus: PCIBusId) -> Step<Result<(), IoError>> {
    system::write(t, at, text::path_in(device_dir(bus), "remove"@), "1"@)
}

impl UdevDevice {
    /// The device id, if this is the device that sits at `bus`.
    fn id_at(&self, bus: PCIBusId) -> (r: Option<PCIDeviceId>)
        ensures
            r == listed_id(self.deep_view(), bus),
    {
        match (&self.slot_name, &self.pci_id) {
            (Some(slot_name), Some(pci_id)) => {
                match (PCIBusId::try_from(slot_name.as_str()), PCIDeviceId::try_from(pci_id.as_str())) {
                    (Ok(found), Ok(id)) => {
                        if found == bus {
                            Some(id)
                        } else {
                            None
                        }
                    },
                    _ => None,
                }
            },
            _ => None,
        }
    }
}

/// Looks through the slots for the one whose address is `bus`.
pub fn search_slots(t: &Transcript, at: usize, bus: PCIBusId, names: &Vec<String>) -> (r: Progress<
    Result<Option<String>, SlotSearchError>,
>)
    ensures
        system::outcome_view(r) == find_slot(t@, at as int, bus, names.deep_view(), 0),
{
    let mut here: usize = at;
    let mut i: usize = 0;
    while i < names.len()
        invariant
            i <= names.len(),
            find_slot(t@, at as int, bus, names.deep_view(), 0) == find_slot(
                t@,
                here as int,
                bus,
                names.deep_view(),
                i as int,
            ),
        decreases names.len() - i,
    {
        let slot = text::join_path("/sys/bus/pci/slots", names[i].as_str());
        let (address, n) = t.read(here, text::join_path(slot.as_str(), "address"))?;
        match address {
            Err(e) => return Ok((Err(SlotSearchError::AddressFetch(e)), n)),
            Ok(address) => match PCIBusId::try_from(text::trim(address.as_str())) {
                Err(_) => return Ok((Err(SlotSearchError::InvalidAddress(slot)), n)),
                Ok(id) => {
                    if id == bus {
                        return Ok((Ok(Some(slot)), n));
                    }
                },
            },
        }
        here = n;
        i = i + 1;
    }
    Ok((Ok(None), here))
}

impl PCIDevice {
    /// Finds the device at `bus`.
    pub fn find_device(t: &Transcript, at: usize, bus: PCIBusId) -> (r: Progress<
        Result<PCIDevice, PCIFindDeviceError>,
    >)
        ensures
            system::outcome_view(r) == find_device(t@, at as int, bus),
    {
        let (names, n) = t.list(at, "/sys/bus/pci/slots".to_owned())?;
        let names = match names {
            Err(e) => return Ok((Err(PCIFindDeviceError::SlotEnumeration(e)), n)),
            Ok(names) => names,
        };
        let (slot, n) = search_slots(t, n, bus, names)?;
        match slot {
            Err(SlotSearchError::AddressFetch(e)) => {
                Ok((Err(PCIFindDeviceError::SlotAddressFetch(e)), n))
            },
            Err(SlotSearchError::InvalidAddress(slot)) => {
                Ok((Err(PCIFindDeviceError::InvalidSlotAddress(slot)), n))
            },
            Ok(Some(slot)) => {
                let (listed, n) = Self::find_udev(t, n, bus)?;
                let device_id = match listed {
                    Ok(device) => device.device_id,
                    Err(_) => None,
                };
                Ok((Ok(PCIDevice { bus_id: bus, device_id, slot: Some(slot) }), n))
            },
            Ok(None) => Self::find_udev(t, n, bus),
        }
    }

    /// Asks the device manager for the device at `bus`.
    pub fn find_udev(t: &Transcript, at: usize, bus: PCIBusId) -> (r: Progress<
        Result<PCIDevice, PCIFindDeviceError>,
    >)
        ensures
            system::outcome_view(r) == find_udev(t@, at as int, bus),
    {
        let (devices, n) = t.scan_pci(at)?;
        let devices = match devices {
            Err(PCIEnumerationError::Udev(e)) => return Ok((Err(PCIFindDeviceError::Udev(e)), n)),
            Err(PCIEnumerationError::Subsystem(e)) => {
                return Ok((Err(PCIFindDeviceError::Subsystem(e)), n));
            },
            Err(PCIEnumerationError::DeviceScan(e)) => {
                return Ok((Err(PCIFindDeviceError::DeviceScan(e)), n));
            },
            Ok(devices) => devices,
        };
        let ghost all = devices.deep_view();
        let mut i: usize = 0;
        assert(all.skip(0) == all);
        while i < devices.len()
            invariant
                i <= devices.len(),
                all == devices.deep_view(),
                first_listed_id(all, bus) == first_listed_id(all.skip(i as int), bus),
                system::scan_pci(t@, at as int) == Ok::<_, system::ActionView>(
                    (Ok::<_, PCIEnumerationError>(all), n as int),
                ),
            decreases devices.len() - i,
        {
            if let Some(id) = devices[i].id_at(bus) {
                return Ok((Ok(PCIDevice { bus_id: bus, device_id: Some(id), slot: None }), n));
            }
            assert(all.skip(i as int).skip(1) == all.skip(i + 1));
            i = i + 1;
        }
        Ok((Err(PCIFindDeviceError::DeviceNotFound), n))
    }

    /// Binds the device to the pass-through driver.
    pub fn bind_vfio(&self, t: &Transcript, at: usize) -> (r: Progress<Result<(), BindError>>)
        ensures
            system::outcome_view(r) == bind_vfio(t@, at as int, self.deep_view()),
    {
        let id = match self.device_id {
            None => return Ok((Err(BindError::NotConnected), at)),
            Some(id) => id,
        };
        let mut line = digits::hex4(id.vendor_id);
        proof {
            reveal_strlit(" ");
        }
        line.append(" ");
        line.append(digits::hex4(id.product_id).as_str());
        assert(line@ =~= new_id_line(id));
        let (added, n) = t.write(
            at,
            "/sys/bus/pci/drivers/vfio-pci/new_id".to_owned(),
            line.as_str(),
        )?;
        if let Err(e) = added {
            if e.kind != IoErrorKind::AlreadyExists {
                return Ok((Err(BindError::Io(e)), n));
            }
        }
        let (driver, n) = self.get_driver(t, n)?;
        let bound = match driver {
            Ok(name) => text::same(name, "vfio-pci"),
            Err(_) => false,
        };
        if bound {
            return Ok((Ok(()), n));
        }
        let (done, n) = t.write(
            n,
            "/sys/bus/pci/drivers/vfio-pci/bind".to_owned(),
            self.bus_id.to_string().as_str(),
        )?;
        match done {
            Ok(()) => Ok((Ok(()), n)),
            Err(e) => Ok((Err(BindError::Io(e)), n)),
        }
    }

    /// Takes the device away from its driver.
    pub fn unbind(&self, t: &Transcript, at: usize) -> (r: Progress<Result<(), IoError>>)
        ensures
            system::outcome_view(r) == unbind(t@, at as int, self.bus_id),
    {
        let driver = text::join_path(self.sysfs_path().as_str(), "driver");
        t.write(
            at,
            text::join_path(driver.as_str(), "unbind"),
            self.bus_id.to_string().as_str(),
        )
    }

    /// Takes the device out of the kernel's list.
    pub fn remove(&self, t: &Transcript, at: usize) -> (r: Progress<Result<(), IoError>>)
        ensures
            system::outcome_view(r) == remove(t@, at as int, self.bus_id),
    {
        t.write(at, text::join_path(self.sysfs_path().as_str(), "remove"), "1")
    }

    /// The name of the driver that the device is bound to.
    pub fn get_driver<'a>(&self, t: &'a Transcript, at: usize) -> (r: Progress<
        Result<&'a str, IoError>,
    >)
        ensures
            system::outcome_view(r) == driver_of(t@, at as int, self.bus_id),
    {
        let (path, n) = t.resolve(at, text::join_path(self.sysfs_path().as_str(), "driver"))?;
        match path {
            Ok(path) => Ok((Ok(text::file_name(path.as_str())), n)),
            Err(e) => Ok((Err(e), n)),
        }
    }

    /// Where the kernel shows the device.
    pub fn sysfs_path(&self) -> (r: String)
        ensures
            r@ == device_dir(self.bus_id),
    {
        text::concat("/sys/bus/pci/devices/", self.bus_id.to_string().as_str())
    }
}

/// Two digits neither contain a mark nor leave anything else to be read.
proof fn lemma_two_digit_field(n: u8)
    ensures
        byte_field(digits::two_digits(n)) == Some(n),
        digits::two_digits(n).len() == 2,
        forall|i: int|
            0 <= i < 2 ==> digits::is_hex(#[trigger] digits::two_digits(n)[i]) && digits::two_digits(
                n,
            )[i] != ':' && digits::two_digits(n)[i] != '.',
{
    digits::lemma_two_digits_read_back(n);
    digits::lemma_digit_is_no_mark(n as int / 16);
    digits::lemma_digit_is_no_mark(n as int % 16);
}

/// Four digits neither contain a mark nor leave anything else to be read.
proof fn lemma_four_digit_field(n: u16)
    ensures
        word_field(digits::four_digits(n)) == Some(n),
        digits::four_digits(n).len() == 4,
        forall|i: int|
            0 <= i < 4 ==> (#[trigger] digits::four_digits(n)[i]) != ':',
{
    let high = (n / 256) as u8;
    let low = (n % 256) as u8;
    lemma_two_digit_field(high);
    lemma_two_digit_field(low);
    digits::lemma_two_digits_read_back(high);
    digits::lemma_two_digits_read_back(low);
    let s = digits::four_digits(n);
    assert(s[0] == digits::two_digits(high)[0]);
    assert(s[1] == digits::two_digits(high)[1]);
    assert(s[2] == digits::two_digits(low)[0]);
    assert(s[3] == digits::two_digits(low)[1]);
    assert(digits::spells_bytes(s));
}

/// The shortest spelling of a byte is a field of its own.
proof fn lemma_few_digit_field(n: u8)
    ensures
        byte_field(digits::few_digits(n)) == Some(n),
{
    if n < 16 {
        digits::lemma_digit_is_no_mark(n as int);
        digits::lemma_digit_is_no_mark(0);
        let s = text::zero_filled(digits::few_digits(n), 2);
        assert(s =~= seq!['0', digits::digit(n as int)]);
    } else {
        lemma_two_digit_field(n);
    }
}

/// Reading a bus id gives back the one that was written.
pub proof fn law_bus_id_reads_back(id: PCIBusId)
    ensures
        bus_id(bus_text(id)) == Some(id),
{
    let domain = digits::four_digits(id.domain);
    let bus = digits::two_digits(id.bus);
    let device = digits::two_digits(id.device);
    let function = digits::few_digits(id.function);
    lemma_four_digit_field(id.domain);
    lemma_two_digit_field(id.bus);
    lemma_two_digit_field(id.device);
    lemma_few_digit_field(id.function);
    let last = device.push('.') + function;
    let rest = bus.push(':') + last;
    assert(bus_text(id) =~= domain.push(':') + rest);
    text::lemma_split_after(domain, ':', rest);
    text::lemma_split_after(bus, ':', last);
    text::lemma_split_after(device, '.', function);
}

/// Bus ids that differ are written differently, and so the kernel shows their devices in
/// different places.
pub proof fn law_bus_ids_are_told_apart(a: PCIBusId, b: PCIBusId)
    requires
        a != b,
    ensures
        bus_text(a) != bus_text(b),
        device_dir(a) != device_dir(b),
{
    law_bus_id_reads_back(a);
    law_bus_id_reads_back(b);
    let front = "/sys/bus/pci/devices/"@;
    if device_dir(a) == device_dir(b) {
        assert(device_dir(a).skip(front.len() as int) =~= bus_text(a));
        assert(device_dir(b).skip(front.len() as int) =~= bus_text(b));
    }
}

/// A bus id without a dot stands for the first function of its device.
pub proof fn law_function_may_be_left_out(s: Seq<char>)
    requires
        !s.contains('.'),
    ensures
        bus_id(s) matches Some(id) ==> id.function == 0,
{
    text::lemma_parts_of_split(s, ':');
    if let Some((domain, rest)) = text::split_at_first(s, ':') {
        text::lemma_parts_of_split(rest, ':');
        if let Some((bus, last)) = text::split_at_first(rest, ':') {
            text::lemma_parts_of_split(last, '.');
            if let Some((device, function)) = text::split_at_first(last, '.') {
                let i = domain.len() + 1 + bus.len() + 1 + device.len();
                assert(s[i as int] == '.');
            }
            let zeros = text::zero_filled(seq!['0', '0'], 2);
            assert(zeros =~= seq!['0', '0']);
            digits::lemma_two_digits_read_back(0);
        }
    }
}

/// Reading a device id gives back the one that was written in four digits each.
pub proof fn law_device_id_reads_back(id: PCIDeviceId)
    ensures
        device_id(
            digits::four_digits(id.vendor_id).push(':') + digits::four_digits(id.product_id),
        ) == Some(id),
{
    lemma_four_digit_field(id.vendor_id);
    lemma_four_digit_field(id.product_id);
    text::lemma_split_after(
        digits::four_digits(id.vendor_id),
        ':',
        digits::four_digits(id.product_id),
    );
}

/// The device that is found at a bus id has that bus id. If the device manager alone knows it, its
/// vendor and product are known and its slot is not.
pub proof fn law_found_device_sits_there(t: Seq<ReplyView>, at: int, bus: PCIBusId)
    ensures
        find_device(t, at, bus) matches Ok((Ok(device), n)) ==> {
            &&& device.bus_id == bus
            &&& device.slot is None ==> device.device_id is Some
        },
{
}

/// The device id that is taken from the device manager's list is that of the first device there
/// that sits at the bus id and can be read; there is none only if no device does.
pub proof fn law_first_listed_device_counts(devices: Seq<UdevDeviceView>, bus: PCIBusId)
    ensures
        match first_listed_id(devices, bus) {
            Some(id) => exists|i: int|
                0 <= i < devices.len() && listed_id(#[trigger] devices[i], bus) == Some(id)
                    && forall|j: int| 0 <= j < i ==> listed_id(#[trigger] devices[j], bus) is None,
            None => forall|i: int|
                0 <= i < devices.len() ==> listed_id(#[trigger] devices[i], bus) is None,
        },
    decreases devices.len(),
{
    if devices.len() > 0 && listed_id(devices[0], bus) is None {
        let rest = devices.skip(1);
        law_first_listed_device_counts(rest, bus);
        match first_listed_id(rest, bus) {
            Some(id) => {
                let i = choose|i: int|
                    0 <= i < rest.len() && listed_id(#[trigger] rest[i], bus) == Some(id)
                        && forall|j: int| 0 <= j < i ==> listed_id(#[trigger] rest[j], bus) is None;
                assert(devices[i + 1] == rest[i]);
                assert forall|j: int| 0 <= j < i + 1 implies listed_id(
                    #[trigger] devices[j],
                    bus,
                ) is None by {
                    if j > 0 {
                        assert(devices[j] == rest[j - 1]);
                    }
                }
            },
            None => {
                assert forall|i: int| 0 <= i < devices.len() implies listed_id(
                    #[trigger] devices[i],
                    bus,
                ) is None by {
                    if i > 0 {
                        assert(devices[i] == rest[i - 1]);
                    }
                }
            },
        }
    }
}

/// Whether the reply at `at` is the address `bus`.
pub open spec fn tells_address(t: Seq<ReplyView>, at: int, bus: PCIBusId) -> bool {
    &&& 0 <= at < t.len()
    &&& t[at] matches ReplyView::Text(Ok(address)) && bus_id(text::trimmed(address)) == Some(bus)
}

/// A slot that is found is one of those searched, and its address, which was read last, is the one
/// that was looked for.
pub proof fn law_found_slot_has_the_address(
    t: Seq<ReplyView>,
    at: int,
    bus: PCIBusId,
    names: Seq<Seq<char>>,
    i: int,
)
    ensures
        find_slot(t, at, bus, names, i) matches Ok((Ok(Some(slot)), n)) ==> {
            &&& tells_address(t, n - 1, bus)
            &&& exists|k: int|
                0 <= k < names.len() && slot == text::path_in(slots_dir(), #[trigger] names[k])
        },
    decreases names.len() - i,
{
    if 0 <= i < names.len() {
        let slot = text::path_in(slots_dir(), names[i]);
        if let Ok((Ok(address), n)) = system::read(t, at, text::path_in(slot, "address"@)) {
            law_found_slot_has_the_address(t, n, bus, names, i + 1);
        }
    }
}


/// Zeros in front of a number do not change it.
proof fn lemma_leading_zeros(zeros: Seq<char>, s: Seq<char>)
    requires
        forall|i: int| 0 <= i < zeros.len() ==> zeros[i] == '0',
    ensures
        digits::hex_number(zeros + s) == digits::hex_number(s),
    decreases s.len(), zeros.len(),
{
    if s.len() > 0 {
        assert((zeros + s).drop_last() =~= zeros + s.drop_last());
        assert((zeros + s).last() == s.last());
        lemma_leading_zeros(zeros, s.drop_last());
    } else if zeros.len() > 0 {
        assert((zeros + s).drop_last() =~= zeros.drop_last() + s);
        assert((zeros + s).last() == '0');
        lemma_leading_zeros(zeros.drop_last(), s);
    } else {
        assert(zeros + s =~= s);
    }
}

/// What two digits stand for, and what four do.
proof fn lemma_positional(s: Seq<char>)
    requires
        digits::all_hex(s),
    ensures
        s.len() == 2 ==> digits::hex_number(s) == digits::spelled_byte(s[0], s[1]),
        s.len() == 4 ==> digits::hex_number(s) == 256 * digits::spelled_byte(s[0], s[1])
            + digits::spelled_byte(s[2], s[3]),
{
    reveal_with_fuel(digits::hex_number, 5);
    if s.len() == 2 || s.len() == 4 {
        let a = s.drop_last();
        assert(a.last() == s[s.len() - 2]);
        assert(digits::is_hex(s[0]) && digits::is_hex(s[1]));
        if s.len() == 4 {
            assert(digits::is_hex(s[2]) && digits::is_hex(s[3]));
            assert(a.drop_last().last() == s[1]);
            assert(a.drop_last().drop_last().last() == s[0]);
        }
    }
}

/// A field of a bus id or a device id is the number that its hexadecimal digits stand for, of either
/// case. Of more digits than there is room for the first count, if their number is even. A field
/// with anything else in it cannot be read.
pub proof fn law_fields_are_hexadecimal(field: Seq<char>)
    ensures
        field.len() <= 2 ==> {
            &&& digits::all_hex(field) ==> (byte_field(field) matches Some(n) && n
                == digits::hex_number(field))
            &&& !digits::all_hex(field) ==> byte_field(field) is None
        },
        field.len() > 2 ==> {
            &&& digits::all_hex(field) && field.len() % 2 == 0 ==> (byte_field(field) matches Some(
                n,
            ) && n == digits::hex_number(field.take(2)))
            &&& !(digits::all_hex(field) && field.len() % 2 == 0) ==> byte_field(field) is None
        },
        field.len() <= 4 ==> {
            &&& digits::all_hex(field) ==> (word_field(field) matches Some(n) && n
                == digits::hex_number(field))
            &&& !digits::all_hex(field) ==> word_field(field) is None
        },
        field.len() > 4 ==> {
            &&& digits::all_hex(field) && field.len() % 2 == 0 ==> (word_field(field) matches Some(
                n,
            ) && n == digits::hex_number(field.take(4)))
            &&& !(digits::all_hex(field) && field.len() % 2 == 0) ==> word_field(field) is None
        },
{
    lemma_field(field, 2);
    lemma_field(field, 4);
    let two = text::zero_filled(field, 2);
    let four = text::zero_filled(field, 4);
    if digits::spells_bytes(two) {
        lemma_positional(two.take(2));
        assert(two.take(2)[0] == two[0] && two.take(2)[1] == two[1]);
    }
    if digits::spells_bytes(four) {
        let s = four.take(4);
        assert(s[0] == four[0] && s[1] == four[1] && s[2] == four[2] && s[3] == four[3]);
        lemma_positional(s);
    }
}

/// A field that is filled up is read if and only if it could be, and its first digits stand for the
/// same number.
proof fn lemma_field(field: Seq<char>, width: nat)
    requires
        width % 2 == 0,
    ensures
        ({
            let s = text::zero_filled(field, width);
            &&& s.len() >= width
            &&& field.len() <= width ==> (digits::spells_bytes(s) <==> digits::all_hex(field))
                && s.take(width as int) == s && digits::hex_number(s) == digits::hex_number(field)
            &&& field.len() > width ==> s == field
            &&& digits::spells_bytes(s) ==> digits::all_hex(s.take(width as int))
        }),
{
    let s = text::zero_filled(field, width);
    if field.len() <= width {
        let zeros = Seq::new((width - field.len()) as nat, |i: int| '0');
        assert(s =~= zeros + field);
        lemma_leading_zeros(zeros, field);
        assert(s.take(width as int) =~= s);
        if digits::all_hex(field) {
            assert forall|i: int| 0 <= i < s.len() implies digits::is_hex(#[trigger] s[i]) by {
                if i >= zeros.len() {
                    assert(s[i] == field[i - zeros.len()]);
                }
            }
        }
        if digits::spells_bytes(s) {
            assert forall|i: int| 0 <= i < field.len() implies digits::is_hex(
                #[trigger] field[i],
            ) by {
                assert(s[i + zeros.len()] == field[i]);
            }
        }
    }
}

/// A bus id is put together of its fields: a domain of at most four digits, a bus, a device and,
/// behind a dot, a function, which is the first if it is left out. One field that cannot be read
/// makes the whole unreadable.
pub proof fn law_bus_id_has_four_fields(
    domain: Seq<char>,
    bus: Seq<char>,
    device: Seq<char>,
    function: Seq<char>,
)
    requires
        !domain.contains(':'),
        !bus.contains(':'),
        !device.contains('.'),
    ensures
        ({
            let front = domain.push(':') + bus.push(':') + device;
            let id = bus_id(front + seq!['.'] + function);
            let short = bus_id(front);
            let readable = domain.len() <= 4 && word_field(domain) is Some && byte_field(
                bus,
            ) is Some && byte_field(device) is Some;
            &&& readable ==> {
                &&& byte_field(function) is None ==> id is None
                &&& byte_field(function) matches Some(f) ==> id == Some(
                    PCIBusId {
                        domain: word_field(domain)->0,
                        bus: byte_field(bus)->0,
                        device: byte_field(device)->0,
                        function: f,
                    },
                )
                &&& short == Some(
                    PCIBusId {
                        domain: word_field(domain)->0,
                        bus: byte_field(bus)->0,
                        device: byte_field(device)->0,
                        function: 0,
                    },
                )
            }
            &&& !readable ==> id is None && short is None
        }),
{
    lemma_no_mark(domain, ':');
    lemma_no_mark(bus, ':');
    lemma_no_mark(device, '.');
    let last = device.push('.') + function;
    let rest = bus.push(':') + last;
    assert(domain.push(':') + bus.push(':') + device + seq!['.'] + function =~= domain.push(':')
        + rest);
    text::lemma_split_after(domain, ':', rest);
    text::lemma_split_after(bus, ':', last);
    text::lemma_split_after(device, '.', function);
    let short = bus.push(':') + device;
    assert(domain.push(':') + bus.push(':') + device =~= domain.push(':') + short);
    text::lemma_split_after(domain, ':', short);
    text::lemma_split_after(bus, ':', device);
    text::lemma_parts_of_split(device, '.');
    if let Some((a, b)) = text::split_at_first(device, '.') {
        assert(device[a.len() as int] == '.');
        assert(device.contains('.'));
    }
    let zeros = seq!['0', '0'];
    assert(text::zero_filled(zeros, 2) =~= zeros);
    digits::lemma_two_digits_read_back(0);
    assert(digits::spells_bytes(zeros));
}

proof fn lemma_no_mark(s: Seq<char>, c: char)
    requires
        !s.contains(c),
    ensures
        forall|i: int| 0 <= i < s.len() ==> s[i] != c,
{
    assert forall|i: int| 0 <= i < s.len() implies s[i] != c by {
        if s[i] == c {
            assert(s.contains(c));
        }
    }
}

/// A text without two colons is no bus id.
pub proof fn law_bus_id_has_two_colons(s: Seq<char>)
    ensures
        bus_id(s) is Some ==> exists|i: int, j: int|
            0 <= i < j < s.len() && #[trigger] s[i] == ':' && #[trigger] s[j] == ':',
{
    text::lemma_parts_of_split(s, ':');
    if let Some((domain, rest)) = text::split_at_first(s, ':') {
        text::lemma_parts_of_split(rest, ':');
        if let Some((bus, last)) = text::split_at_first(rest, ':') {
            let i = domain.len() as int;
            let j = i + 1 + bus.len();
            assert(s[i] == ':');
            assert(s[j] == ':');
        }
    }
}

/// A device id is put together of its fields: a vendor and, behind a colon, a product. A text
/// without a colon is none.
pub proof fn law_device_id_has_two_fields(vendor: Seq<char>, product: Seq<char>, s: Seq<char>)
    requires
        !vendor.contains(':'),
        !s.contains(':'),
    ensures
        ({
            let id = device_id(vendor.push(':') + product);
            &&& word_field(vendor) is Some && word_field(product) is Some ==> id == Some(
                PCIDeviceId {
                    vendor_id: word_field(vendor)->0,
                    product_id: word_field(product)->0,
                },
            )
            &&& word_field(vendor) is None || word_field(product) is None ==> id is None
        }),
        device_id(s) is None,
{
    lemma_no_mark(vendor, ':');
    text::lemma_split_after(vendor, ':', product);
    text::lemma_parts_of_split(s, ':');
    if let Some((a, b)) = text::split_at_first(s, ':') {
        assert(s[a.len() as int] == ':');
        assert(s.contains(':'));
    }
}

/// Whether the text consists of hexadecimal digits, those above nine in lower case.
pub open spec fn lower_hex(s: Seq<char>) -> bool {
    forall|i: int|
        0 <= i < s.len() ==> digits::is_hex(#[trigger] s[i]) && !('A' <= s[i] <= 'F')
}

proof fn lemma_two_lower(n: u8)
    ensures
        lower_hex(digits::two_digits(n)),
        digits::hex_number(digits::two_digits(n)) == n,
        lower_hex(digits::few_digits(n)),
        digits::hex_number(digits::few_digits(n)) == n,
        digits::few_digits(n).len() == (if n < 16 {
            1int
        } else {
            2
        }),
{
    digits::lemma_two_digits_read_back(n);
    digits::lemma_digit_is_no_mark(n as int / 16);
    digits::lemma_digit_is_no_mark(n as int % 16);
    let s = digits::two_digits(n);
    assert(digits::all_hex(s));
    lemma_positional(s);
    if n < 16 {
        let f = digits::few_digits(n);
        reveal_with_fuel(digits::hex_number, 2);
        assert(f.drop_last() =~= Seq::<char>::empty());
    }
}

proof fn lemma_four_lower(n: u16)
    ensures
        lower_hex(digits::four_digits(n)),
        digits::hex_number(digits::four_digits(n)) == n,
        digits::four_digits(n).len() == 4,
{
    let high = (n / 256) as u8;
    let low = (n % 256) as u8;
    lemma_two_lower(high);
    lemma_two_lower(low);
    digits::lemma_two_digits_read_back(high);
    digits::lemma_two_digits_read_back(low);
    let s = digits::four_digits(n);
    assert(s[0] == digits::two_digits(high)[0]);
    assert(s[1] == digits::two_digits(high)[1]);
    assert(s[2] == digits::two_digits(low)[0]);
    assert(s[3] == digits::two_digits(low)[1]);
    assert(digits::all_hex(s));
    lemma_positional(s);
}

/// A bus id is written in hexadecimal digits of lower case: four for the domain, two for the bus and
/// two for the device, and as few as it takes for the function; with two colons and a dot between
/// them.
pub proof fn law_bus_id_is_written_so(id: PCIBusId)
    ensures
        ({
            let s = bus_text(id);
            &&& s.len() == (if id.function < 16 {
                12int
            } else {
                13
            })
            &&& s[4] == ':' && s[7] == ':' && s[10] == '.'
            &&& lower_hex(s.take(4)) && digits::hex_number(s.take(4)) == id.domain
            &&& lower_hex(s.subrange(5, 7)) && digits::hex_number(s.subrange(5, 7)) == id.bus
            &&& lower_hex(s.subrange(8, 10)) && digits::hex_number(s.subrange(8, 10)) == id.device
            &&& lower_hex(s.skip(11)) && digits::hex_number(s.skip(11)) == id.function
        }),
{
    let s = bus_text(id);
    lemma_four_lower(id.domain);
    lemma_two_lower(id.bus);
    lemma_two_lower(id.device);
    lemma_two_lower(id.function);
    digits::lemma_two_digits_read_back(id.bus);
    digits::lemma_two_digits_read_back(id.device);
    assert(s.take(4) =~= digits::four_digits(id.domain));
    assert(s.subrange(5, 7) =~= digits::two_digits(id.bus));
    assert(s.subrange(8, 10) =~= digits::two_digits(id.device));
    assert(s.skip(11) =~= digits::few_digits(id.function));
}

/// The line that makes a driver accept a device's id holds the vendor and the product, in four
/// hexadecimal digits of lower case each, with a space between them.
pub proof fn law_new_id_is_written_so(id: PCIDeviceId)
    ensures
        ({
            let s = new_id_line(id);
            &&& s.len() == 9
            &&& s[4] == ' '
            &&& lower_hex(s.take(4)) && digits::hex_number(s.take(4)) == id.vendor_id
            &&& lower_hex(s.skip(5)) && digits::hex_number(s.skip(5)) == id.product_id
        }),
{
    let s = new_id_line(id);
    lemma_four_lower(id.vendor_id);
    lemma_four_lower(id.product_id);
    assert(s.take(4) =~= digits::four_digits(id.vendor_id));
    assert(s.skip(5) =~= digits::four_digits(id.product_id));
}

} // verus!
