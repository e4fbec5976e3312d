//! The identification interface in which an open board is an id stream:
//! boards are looked up by name or id and opened; an open board answers for
//! its FPGA serial number and its names and can be renamed. The driver's
//! answers come in as plain values.
use crate::old_mfp::{c_string_end, c_terminated_string, utf8_lossy};
use crate::pcie40::{c_name_valid, c_string_compatible};
use crate::pcie40_id::{ids_ascending, mask_device_ids, mask_has};
use vstd::prelude::*;

verus! {

/// Errors of looking boards up and opening them.
#[derive(Debug)]
pub enum PCIe40IdError {
    InvalidDeviceName { device_name: String },
    DriverReadError,
    DeviceNotFoundByName { device_name: String },
    DeviceNotFoundById { device_id: i32 },
    DeviceOpenFail { device_id: i32 },
}

/// Errors of an open board.
#[derive(Debug)]
pub enum PCIe40IdStreamError {
    DeviceReadError { device_id: i32 },
    DeviceWriteError { device_id: i32 },
    InvalidDeviceName { device_name: String },
}

/// Looks boards up and opens them.
pub struct PCIe40Id {}

/// An open board: its id and its descriptor.
pub struct PCIe40IdStream {
    device_id: i32,
    id_fd: i32,
}

impl PCIe40Id {
    /// Reads the driver's answer to whether board `device_id` exists: 0 when
    /// it does, positive when not, negative when the driver cannot tell.
    pub fn device_exists(exists_code: i32) -> (r: Result<bool, PCIe40IdError>)
        ensures
            exists_code < 0 ==> (r matches Err(PCIe40IdError::DriverReadError)),
            exists_code >= 0 ==> r == Ok::<bool, PCIe40IdError>(exists_code == 0),
    {
        if exists_code < 0 {
            Err(PCIe40IdError::DriverReadError)
        } else {
            Ok(exists_code == 0)
        }
    }

    /// Resolves a board's name to its id, given the driver's answer to the
    /// lookup; a name that no C string can hold is invalid.
    pub fn find_id_by_name(device_name: &str, found_id: i32) -> (r: Result<i32, PCIe40IdError>)
        ensures
            !c_string_compatible(device_name) ==> (r matches Err(
                PCIe40IdError::InvalidDeviceName { device_name: n },
            ) && n@ == device_name@),
            c_string_compatible(device_name) && found_id < 0 ==> (r matches Err(
                PCIe40IdError::DeviceNotFoundByName { device_name: n },
            ) && n@ == device_name@),
            c_string_compatible(device_name) && found_id >= 0 ==> r == Ok::<i32, PCIe40IdError>(
                found_id,
            ),
    {
        if !c_name_valid(device_name) {
            return Err(PCIe40IdError::InvalidDeviceName { device_name: device_name.to_owned() });
        }
        if found_id < 0 {
            return Err(PCIe40IdError::DeviceNotFoundByName { device_name: device_name.to_owned() });
        }
        Ok(found_id)
    }

    /// The ids of all boards with the given name, from the driver's mask.
    pub fn find_all_ids_by_name(device_name: &str, mask: i32) -> (r: Result<Vec<i32>, PCIe40IdError>)
        ensures
            !c_string_compatible(device_name) ==> (r matches Err(
                PCIe40IdError::InvalidDeviceName { device_name: n },
            ) && n@ == device_name@),
            c_string_compatible(device_name) ==> (r matches Ok(ids) && ids_ascending(ids@) && forall|id: int|
                0 <= id < 32 ==> (ids@.contains(id as i32) <==> mask_has(mask, id))),
    {
        if !c_name_valid(device_name) {
            return Err(PCIe40IdError::InvalidDeviceName { device_name: device_name.to_owned() });
        }
        let ids = mask_device_ids(mask);
        proof {
            assert forall|id: int| 0 <= id < 32 implies (ids@.contains(id as i32) <==> mask_has(
                mask,
                id,
            )) by {
                if ids@.contains(id as i32) {
                    let k = choose|k: int| 0 <= k < ids@.len() && ids@[k] == id as i32;
                    assert(mask_has(mask, ids@[k] as int));
                }
            }
        }
        Ok(ids)
    }

    /// Opens board `device_id`: `exists_code` is the driver's answer to
    /// whether it exists (0: it does) and `id_fd` its answer to opening it,
    /// asked only when it exists.
    pub fn open_by_device_id(device_id: i32, exists_code: i32, id_fd: i32) -> (r: Result<
        PCIe40IdStream,
        PCIe40IdError,
    >)
        ensures
            exists_code != 0 ==> (r matches Err(PCIe40IdError::DeviceNotFoundById { device_id: d })
                && d == device_id),
            exists_code == 0 && id_fd < 0 ==> (r matches Err(
                PCIe40IdError::DeviceOpenFail { device_id: d },
            ) && d == device_id),
            exists_code == 0 && id_fd >= 0 ==> (r matches Ok(s) && s.spec_device_id() == device_id
                && s.spec_id_fd() == id_fd),
    {
        if exists_code != 0 {
            return Err(PCIe40IdError::DeviceNotFoundById { device_id });
        }
        if id_fd < 0 {
            return Err(PCIe40IdError::DeviceOpenFail { device_id });
        }
        Ok(PCIe40IdStream { device_id, id_fd })
    }

    /// Opens the board of the given name: `found_id` is the driver's answer
    /// to the lookup; then as [`open_by_device_id`](Self::open_by_device_id)
    /// with the answers for the board found.
    pub fn open_by_device_name(device_name: &str, found_id: i32, exists_code: i32, id_fd: i32) -> (r:
        Result<PCIe40IdStream, PCIe40IdError>)
        ensures
            !(c_string_compatible(device_name) && found_id >= 0) ==> (r matches Err(
                PCIe40IdError::DeviceNotFoundByName { device_name: n },
            ) && n@ == device_name@),
            c_string_compatible(device_name) && found_id >= 0 && exists_code != 0 ==> (r matches Err(
                PCIe40IdError::DeviceNotFoundById { device_id: d },
            ) && d == found_id),
            c_string_compatible(device_name) && found_id >= 0 && exists_code == 0 && id_fd < 0 ==> (r
                matches Err(PCIe40IdError::DeviceOpenFail { device_id: d }) && d == found_id),
            c_string_compatible(device_name) && found_id >= 0 && exists_code == 0 && id_fd >= 0 ==> (r
                matches Ok(s) && s.spec_device_id() == found_id && s.spec_id_fd() == id_fd),
    {
        if !c_name_valid(device_name) || found_id < 0 {
            return Err(PCIe40IdError::DeviceNotFoundByName { device_name: device_name.to_owned() });
        }
        Self::open_by_device_id(found_id, exists_code, id_fd)
    }
}

impl PCIe40IdStream {
    pub closed spec fn spec_device_id(&self) -> i32 {
        self.device_id
    }

    pub closed spec fn spec_id_fd(&self) -> i32 {
        self.id_fd
    }

    /// The board's id.
    pub fn device_id(&self) -> (r: i32)
        ensures
            r == self.spec_device_id(),
    {
        self.device_id
    }

    /// The board's descriptor, for the driver calls.
    pub fn id_fd(&self) -> (r: i32)
        ensures
            r == self.spec_id_fd(),
    {
        self.id_fd
    }

    /// Reads the driver's answer for the board's FPGA serial number.
    pub fn fpga_serial_number(&self, code: i64) -> (r: Result<i64, PCIe40IdStreamError>)
        ensures
            code < 0 ==> (r matches Err(PCIe40IdStreamError::DeviceReadError { device_id: d })
                && d == self.spec_device_id()),
            code >= 0 ==> r == Ok::<i64, PCIe40IdStreamError>(code),
    {
        if code < 0 {
            return Err(PCIe40IdStreamError::DeviceReadError { device_id: self.device_id });
        }
        Ok(code)
    }

    /// A name the driver wrote into `buffer`, with its answer `code`: the
    /// text before the first zero byte; a negative answer or a buffer
    /// without a zero byte is a read error.
    fn name_answer(&self, code: i32, buffer: &[u8]) -> (r: Result<String, PCIe40IdStreamError>)
        ensures
            code < 0 || c_string_end(buffer@) == buffer@.len() ==> (r matches Err(
                PCIe40IdStreamError::DeviceReadError { device_id: d },
            ) && d == self.spec_device_id()),
            code >= 0 && c_string_end(buffer@) < buffer@.len() ==> (r matches Ok(s) && s@
                == utf8_lossy(buffer@.subrange(0, c_string_end(buffer@)))),
    {
        if code < 0 {
            return Err(PCIe40IdStreamError::DeviceReadError { device_id: self.device_id });
        }
        match c_terminated_string(buffer) {
            Some(s) => Ok(s),
            None => Err(PCIe40IdStreamError::DeviceReadError { device_id: self.device_id }),
        }
    }

    /// The board's name, given the driver's answer to the name query and the
    /// buffer it filled.
    pub fn device_name(&self, code: i32, buffer: &[u8]) -> (r: Result<String, PCIe40IdStreamError>)
        ensures
            code < 0 || c_string_end(buffer@) == buffer@.len() ==> (r matches Err(
                PCIe40IdStreamError::DeviceReadError { device_id: d },
            ) && d == self.spec_device_id()),
            code >= 0 && c_string_end(buffer@) < buffer@.len() ==> (r matches Ok(s) && s@
                == utf8_lossy(buffer@.subrange(0, c_string_end(buffer@)))),
    {
        self.name_answer(code, buffer)
    }

    /// The board's unique name, given the driver's answer and the buffer it filled.
    pub fn unique_device_name(&self, code: i32, buffer: &[u8]) -> (r: Result<
        String,
        PCIe40IdStreamError,
    >)
        ensures
            code < 0 || c_string_end(buffer@) == buffer@.len() ==> (r matches Err(
                PCIe40IdStreamError::DeviceReadError { device_id: d },
            ) && d == self.spec_device_id()),
            code >= 0 && c_string_end(buffer@) < buffer@.len() ==> (r matches Ok(s) && s@
                == utf8_lossy(buffer@.subrange(0, c_string_end(buffer@)))),
    {
        self.name_answer(code, buffer)
    }

    /// Whether the board can be given this name: a name that no C string can
    /// hold is refused before the driver is asked.
    pub fn check_new_name(&self, device_name: &str) -> (r: Result<(), PCIe40IdStreamError>)
        ensures
            c_string_compatible(device_name) ==> r is Ok,
            !c_string_compatible(device_name) ==> (r matches Err(
                PCIe40IdStreamError::InvalidDeviceName { device_name: n },
            ) && n@ == device_name@),
    {
        if !c_name_valid(device_name) {
            return Err(PCIe40IdStreamError::InvalidDeviceName { device_name: device_name.to_owned() });
        }
        Ok(())
    }

    /// Reads the driver's answer to renaming the board (negative on failure).
    pub fn set_name_result(&self, code: i32) -> (r: Result<(), PCIe40IdStreamError>)
        ensures
            code < 0 ==> (r matches Err(PCIe40IdStreamError::DeviceWriteError { device_id: d }) && d
                == self.spec_device_id()),
            code >= 0 ==> r is Ok,
    {
        if code < 0 {
            return Err(PCIe40IdStreamError::DeviceWriteError { device_id: self.device_id });
        }
        Ok(())
    }
}

} // verus!
