//! Which devices are connected, by id, with their GUIDs; and which device
//! events are passed on to the input loop.

use vstd::prelude::*;
use std::collections::HashMap;

verus! {

broadcast use vstd::std_specs::hash::group_hash_axioms;

/// The device events that decide what happens to the device list and what
/// is passed on. `which` is the device index for added devices and the
/// instance id otherwise.
#[derive(Clone, Copy, Debug, PartialEq, Eq, Structural)]
pub enum DeviceEvent {
    ControllerDeviceAdded { which: u32 },
    ControllerDeviceRemoved { which: u32 },
    ControllerAxisMotion { which: u32 },
    ControllerButtonDown { which: u32 },
    ControllerButtonUp { which: u32 },
    Quit,
    JoyAxisMotion { which: u32 },
    JoyBallMotion { which: u32 },
    JoyHatMotion { which: u32 },
    JoyButtonDown { which: u32 },
    JoyButtonUp { which: u32 },
    JoyDeviceAdded { which: u32 },
    JoyDeviceRemoved { which: u32 },
    Other,
}

/// What to do with a device event.
#[derive(Debug)]
pub enum FilterAction {
    /// Add the device to the device list.
    AddDevice(u32),
    /// Remove the device from the device list.
    RemoveDevice(u32),
    /// Pass the event on, tagged with the GUID of its device.
    Forward(String),
    /// Stop: the program is asked to quit.
    Quit,
    /// Nothing to do.
    Ignore,
}

/// The device that an input event comes from, for the events that are passed
/// on: controller input always, joystick input only from devices that are
/// not game controllers (those send controller input too).
pub open spec fn forwarded_device(event: DeviceEvent, is_game_controller: bool) -> Option<u32> {
    match event {
        DeviceEvent::ControllerAxisMotion { which } => Some(which),
        DeviceEvent::ControllerButtonDown { which } => Some(which),
        DeviceEvent::ControllerButtonUp { which } => Some(which),
        DeviceEvent::JoyAxisMotion { which } => if is_game_controller { None } else { Some(which) },
        DeviceEvent::JoyBallMotion { which } => if is_game_controller { None } else { Some(which) },
        DeviceEvent::JoyHatMotion { which } => if is_game_controller { None } else { Some(which) },
        DeviceEvent::JoyButtonDown { which } => if is_game_controller { None } else { Some(which) },
        DeviceEvent::JoyButtonUp { which } => if is_game_controller { None } else { Some(which) },
        _ => None,
    }
}

/// The device that an event adds to the device list, if any.
pub open spec fn added_device(event: DeviceEvent, is_game_controller: bool) -> Option<u32> {
    match event {
        DeviceEvent::ControllerDeviceAdded { which } => Some(which),
        DeviceEvent::JoyDeviceAdded { which } => if is_game_controller { None } else { Some(which) },
        _ => None,
    }
}

/// The device that an event removes from the device list, if any.
pub open spec fn removed_device(event: DeviceEvent, is_game_controller: bool) -> Option<u32> {
    match event {
        DeviceEvent::ControllerDeviceRemoved { which } => Some(which),
        DeviceEvent::JoyDeviceRemoved { which } => if is_game_controller { None } else { Some(which) },
        _ => None,
    }
}

/// The GUIDs of the connected devices, by device id.
#[derive(Debug)]
pub struct DeviceRegistry {
    pub device_guids: HashMap<u32, String>,
}

impl DeviceRegistry {
    /// No device connected.
    pub fn new() -> (r: DeviceRegistry)
        ensures
            r.device_guids@ == Map::<u32, String>::empty(),
    {
        DeviceRegistry { device_guids: HashMap::new() }
    }

    /// Records a connected device with its GUID, or `Unknown GUID` when the
    /// GUID could not be read; gives the GUID recorded.
    pub fn register(&mut self, device_id: u32, guid: Option<String>) -> (recorded: String)
        ensures
            match guid {
                Some(g) => recorded@ == g@,
                None => recorded@ == "Unknown GUID"@,
            },
            final(self).device_guids@ == old(self).device_guids@.insert(device_id, recorded),
    {
        let recorded = match guid {
            Some(g) => g,
            None => String::from_str("Unknown GUID"),
        };
        self.device_guids.insert(device_id, recorded.clone());
        recorded
    }

    /// Forgets a device; gives its GUID if it was recorded.
    pub fn unregister(&mut self, device_id: u32) -> (removed: Option<String>)
        ensures
            final(self).device_guids@ == old(self).device_guids@.remove(device_id),
            match removed {
                Some(g) => old(self).device_guids@.contains_key(device_id)
                    && g == old(self).device_guids@[device_id],
                None => !old(self).device_guids@.contains_key(device_id),
            },
    {
        self.device_guids.remove(&device_id)
    }

    /// The GUID recorded for a device.
    pub fn get_guid(&self, device_id: u32) -> (r: Option<&String>)
        ensures
            match r {
                Some(g) => self.device_guids@.contains_key(device_id) && *g
                    == self.device_guids@[device_id],
                None => !self.device_guids@.contains_key(device_id),
            },
    {
        self.device_guids.get(&device_id)
    }

    /// Whether the event is one to pass on, from a device that is not in the
    /// device list: such a device was reconnected, which is not supported, and
    /// the event cannot be filtered.
    pub fn is_from_unknown_device(&self, event: &DeviceEvent, is_game_controller: bool) -> (r: bool)
        ensures
            r == (forwarded_device(*event, is_game_controller) matches Some(id)
                && !self.device_guids@.contains_key(id)),
    {
        let forwarded: Option<u32> = match *event {
            DeviceEvent::ControllerAxisMotion { which } => Some(which),
            DeviceEvent::ControllerButtonDown { which } => Some(which),
            DeviceEvent::ControllerButtonUp { which } => Some(which),
            DeviceEvent::JoyAxisMotion { which } => if is_game_controller { None } else { Some(which) },
            DeviceEvent::JoyBallMotion { which } => if is_game_controller { None } else { Some(which) },
            DeviceEvent::JoyHatMotion { which } => if is_game_controller { None } else { Some(which) },
            DeviceEvent::JoyButtonDown { which } => if is_game_controller { None } else { Some(which) },
            DeviceEvent::JoyButtonUp { which } => if is_game_controller { None } else { Some(which) },
            _ => None,
        };
        match forwarded {
            Some(id) => !self.device_guids.contains_key(&id),
            None => false,
        }
    }

    /// Decides what happens to a device event; `is_game_controller` tells
    /// whether the device of the event is a game controller. An event to pass
    /// on must come from a device in the device list.
    pub fn event_filter(&self, event: &DeviceEvent, is_game_controller: bool) -> (a: FilterAction)
        requires
            forwarded_device(*event, is_game_controller) matches Some(id) ==> self.device_guids@.contains_key(id),
        ensures
            *event == DeviceEvent::Quit ==> a is Quit,
            added_device(*event, is_game_controller) matches Some(id) ==> a == FilterAction::AddDevice(id),
            removed_device(*event, is_game_controller) matches Some(id) ==> a == FilterAction::RemoveDevice(id),
            forwarded_device(*event, is_game_controller) matches Some(id) ==> (a matches FilterAction::Forward(g)
                && g@ == self.device_guids@[id]@),
            match *event {
                DeviceEvent::ControllerDeviceAdded { which } => a == FilterAction::AddDevice(which),
                DeviceEvent::ControllerDeviceRemoved { which } => a == FilterAction::RemoveDevice(which),
                DeviceEvent::ControllerAxisMotion { which } => a matches FilterAction::Forward(g)
                    && g@ == self.device_guids@[which]@,
                DeviceEvent::ControllerButtonDown { which } => a matches FilterAction::Forward(g)
                    && g@ == self.device_guids@[which]@,
                DeviceEvent::ControllerButtonUp { which } => a matches FilterAction::Forward(g)
                    && g@ == self.device_guids@[which]@,
                DeviceEvent::Quit => a is Quit,
                DeviceEvent::JoyAxisMotion { which } => if is_game_controller {
                    a is Ignore
                } else {
                    a matches FilterAction::Forward(g) && g@ == self.device_guids@[which]@
                },
                DeviceEvent::JoyBallMotion { which } => if is_game_controller {
                    a is Ignore
                } else {
                    a matches FilterAction::Forward(g) && g@ == self.device_guids@[which]@
                },
                DeviceEvent::JoyHatMotion { which } => if is_game_controller {
                    a is Ignore
                } else {
                    a matches FilterAction::Forward(g) && g@ == self.device_guids@[which]@
                },
                DeviceEvent::JoyButtonDown { which } => if is_game_controller {
                    a is Ignore
                } else {
                    a matches FilterAction::Forward(g) && g@ == self.device_guids@[which]@
                },
                DeviceEvent::JoyButtonUp { which } => if is_game_controller {
                    a is Ignore
                } else {
                    a matches FilterAction::Forward(g) && g@ == self.device_guids@[which]@
                },
                DeviceEvent::JoyDeviceAdded { which } => if is_game_controller {
                    a is Ignore
                } else {
                    a == FilterAction::AddDevice(which)
                },
                DeviceEvent::JoyDeviceRemoved { which } => if is_game_controller {
                    a is Ignore
                } else {
                    a == FilterAction::RemoveDevice(which)
                },
                DeviceEvent::Other => a is Ignore,
            },
            *event != DeviceEvent::Quit && added_device(*event, is_game_controller) is None
                && removed_device(*event, is_game_controller) is None
                && forwarded_device(*event, is_game_controller) is None ==> a is Ignore,
    {
        let forwarded: Option<u32> = match *event {
            DeviceEvent::ControllerDeviceAdded { which } => return FilterAction::AddDevice(which),
            DeviceEvent::ControllerDeviceRemoved { which } => return FilterAction::RemoveDevice(which),
            DeviceEvent::ControllerAxisMotion { which } => Some(which),
            DeviceEvent::ControllerButtonDown { which } => Some(which),
            DeviceEvent::ControllerButtonUp { which } => Some(which),
            DeviceEvent::Quit => return FilterAction::Quit,
            DeviceEvent::JoyAxisMotion { which } => if is_game_controller { None } else { Some(which) },
            DeviceEvent::JoyBallMotion { which } => if is_game_controller { None } else { Some(which) },
            DeviceEvent::JoyHatMotion { which } => if is_game_controller { None } else { Some(which) },
            DeviceEvent::JoyButtonDown { which } => if is_game_controller { None } else { Some(which) },
            DeviceEvent::JoyButtonUp { which } => if is_game_controller { None } else { Some(which) },
            DeviceEvent::JoyDeviceAdded { which } => {
                if !is_game_controller {
                    return FilterAction::AddDevice(which);
                }
                None
            },
            DeviceEvent::JoyDeviceRemoved { which } => {
                if !is_game_controller {
                    return FilterAction::RemoveDevice(which);
                }
                None
            },
            DeviceEvent::Other => None,
        };
        match forwarded {
            Some(id) => match self.device_guids.get(&id) {
                Some(g) => FilterAction::Forward(g.clone()),
                None => FilterAction::Ignore,
            },
            None => FilterAction::Ignore,
        }
    }
}

/// Every input event of a game controller (axis motion, button down and
/// button up) is passed on; joystick input is passed on exactly when its
/// device is not a game controller; device changes and quitting are never
/// passed on.
pub proof fn lemma_input_events_are_forwarded(w: u32, gc: bool)
    ensures
        forwarded_device(DeviceEvent::ControllerAxisMotion { which: w }, gc) == Some(w),
        forwarded_device(DeviceEvent::ControllerButtonDown { which: w }, gc) == Some(w),
        forwarded_device(DeviceEvent::ControllerButtonUp { which: w }, gc) == Some(w),
        forwarded_device(DeviceEvent::JoyAxisMotion { which: w }, gc) == if gc { None } else { Some(w) },
        forwarded_device(DeviceEvent::JoyBallMotion { which: w }, gc) == if gc { None } else { Some(w) },
        forwarded_device(DeviceEvent::JoyHatMotion { which: w }, gc) == if gc { None } else { Some(w) },
        forwarded_device(DeviceEvent::JoyButtonDown { which: w }, gc) == if gc { None } else { Some(w) },
        forwarded_device(DeviceEvent::JoyButtonUp { which: w }, gc) == if gc { None } else { Some(w) },
        forwarded_device(DeviceEvent::ControllerDeviceAdded { which: w }, gc) is None,
        forwarded_device(DeviceEvent::ControllerDeviceRemoved { which: w }, gc) is None,
        forwarded_device(DeviceEvent::JoyDeviceAdded { which: w }, gc) is None,
        forwarded_device(DeviceEvent::JoyDeviceRemoved { which: w }, gc) is None,
        forwarded_device(DeviceEvent::Quit, gc) is None,
        forwarded_device(DeviceEvent::Other, gc) is None,
{
}

/// What the registry gives back of a registration: the GUID recorded for the
/// device, the other devices unchanged; and after a removal nothing for that
/// device.
pub proof fn lemma_registry_read_after_write(
    guids: Map<u32, String>,
    id: u32,
    recorded: String,
    other: u32,
)
    ensures
        guids.insert(id, recorded).contains_key(id),
        guids.insert(id, recorded)[id] == recorded,
        other != id ==> guids.insert(id, recorded).contains_key(other) == guids.contains_key(other),
        other != id && guids.contains_key(other) ==> guids.insert(id, recorded)[other] == guids[other],
        !guids.remove(id).contains_key(id),
        other != id ==> guids.remove(id).contains_key(other) == guids.contains_key(other),
{
}

} // verus!
