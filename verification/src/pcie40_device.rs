//! The identification interface of the first generation: boards are opened
//! as devices that remember their name, which renaming and name queries
//! keep up to date.
use crate::old_mfp::{c_string_end, c_terminated_string, utf8_lossy};
use crate::pcie40::{c_name_valid, c_string_compatible};
use crate::pcie40_id::{ids_ascending, mask_device_ids, mask_has};
use vstd::prelude::*;

verus! {

/// Errors of looking boards up and opening them.
#[derive(Debug)]
pub enum PCIe40IdError {
    InvalidDeviceName(String),
    DriverReadError,
    DeviceNotFoundByName(String),
    DeviceNotFoundById(i32),
    DeviceOpenFail { device_name: String, device_id: i32 },
}

/// Errors of an open board.
#[derive(Debug)]
pub enum PCIe40DeviceIdError {
    DeviceReadError { device_name: String, device_id: i32 },
    DeviceWriteError { device_name: String, device_id: i32 },
    InvalidDeviceName(String),
}

/// Looks boards up and opens them.
pub struct PCIe40Id {}

/// An open board: the name it is known by, its id and its descriptor.
pub struct PCIe40DeviceId {
    device_name: String,
    device_id: i32,
    id_fd: i32,
}

impl PCIe40Id {
    /// Reads the driver's answer to whether a board exists: 0 when it does,
    /// positive when not, negative when the driver cannot tell.
    pub fn id_exists(exists_code: i32) -> (r: Result<bool, PCIe40IdError>)
        ensures
            exists_code < 0 ==> (r matches Err(PCIe40IdError::DriverReadError)),
            exists_code >= 0 ==> r == Ok::<bool, PCIe40IdError>(exists_code == 0),
    {
        if exists_code < 0 {
            Err(PCIe40IdError::DriverReadError)
        } else {
            Ok(exists_code == 0)
        }
    }

    /// Resolves a board's name to its id, given the driver's answer to the
    /// lookup; a name that no C string can hold is invalid.
    pub fn find_id_by_name(device_name: &str, found_id: i32) -> (r: Result<i32, PCIe40IdError>)
        ensures
            !c_string_compatible(device_name) ==> (r matches Err(PCIe40IdError::InvalidDeviceName(n))
                && n@ == device_name@),
            c_string_compatible(device_name) && found_id < 0 ==> (r matches Err(
                PCIe40IdError::DeviceNotFoundByName(n),
            ) && n@ == device_name@),
            c_string_compatible(device_name) && found_id >= 0 ==> r == Ok::<i32, PCIe40IdError>(
                found_id,
            ),
    {
        if !c_name_valid(device_name) {
            return Err(PCIe40IdError::InvalidDeviceName(device_name.to_owned()));
        }
        if found_id < 0 {
            return Err(PCIe40IdError::DeviceNotFoundByName(device_name.to_owned()));
        }
        Ok(found_id)
    }

    /// The ids of all boards with the given name, from the driver's mask.
    pub fn find_all_ids_by_name(device_name: &str, mask: i32) -> (r: Result<Vec<i32>, PCIe40IdError>)
        ensures
            !c_string_compatible(device_name) ==> (r matches Err(PCIe40IdError::InvalidDeviceName(n))
                && n@ == device_name@),
            c_string_compatible(device_name) ==> (r matches Ok(ids) && ids_ascending(ids@) && forall|id: int|
                0 <= id < 32 ==> (ids@.contains(id as i32) <==> mask_has(mask, id))),
    {
        if !c_name_valid(device_name) {
            return Err(PCIe40IdError::InvalidDeviceName(device_name.to_owned()));
        }
        let ids = mask_device_ids(mask);
        proof {
            assert forall|id: int| 0 <= id < 32 implies (ids@.contains(id as i32) <==> mask_has(
                mask,
                id,
            )) by {
                if ids@.contains(id as i32) {
                    let k = choose|k: int| 0 <= k < ids@.len() && ids@[k] == id as i32;
                    assert(mask_has(mask, ids@[k] as int));
                }
            }
        }
        Ok(ids)
    }

    /// Opens the board of the given name: `found_id` is the driver's answer
    /// to the lookup and `id_fd` its answer to opening that board (asked
    /// only when found). The board is known by the name it was opened by.
    pub fn open_by_device_name(device_name: &str, found_id: i32, id_fd: i32) -> (r: Result<
        PCIe40DeviceId,
        PCIe40IdError,
    >)
        ensures
            !(c_string_compatible(device_name) && found_id >= 0) ==> (r matches Err(
                PCIe40IdError::DeviceNotFoundByName(n),
            ) && n@ == device_name@),
            c_string_compatible(device_name) && found_id >= 0 && id_fd < 0 ==> (r matches Err(
                PCIe40IdError::DeviceOpenFail { device_name: n, device_id: d },
            ) && n@ == device_name@ && d == found_id),
            c_string_compatible(device_name) && found_id >= 0 && id_fd >= 0 ==> (r matches Ok(dev)
                && dev.spec_name() == device_name@ && dev.spec_device_id() == found_id
                && dev.spec_id_fd() == id_fd),
    {
        if !c_name_valid(device_name) || found_id < 0 {
            return Err(PCIe40IdError::DeviceNotFoundByName(device_name.to_owned()));
        }
        if id_fd < 0 {
            return Err(
                PCIe40IdError::DeviceOpenFail {
                    device_name: device_name.to_owned(),
                    device_id: found_id,
                },
            );
        }
        Ok(PCIe40DeviceId { device_name: device_name.to_owned(), device_id: found_id, id_fd })
    }

    /// Opens board `device_id`: `exists_code` is the driver's answer to
    /// whether it exists (0: it does) and `id_fd` its answer to opening it.
    /// The board's name is not known yet; `device_name` then asks for it.
    pub fn open_by_device_id(device_id: i32, exists_code: i32, id_fd: i32) -> (r: Result<
        PCIe40DeviceId,
        PCIe40IdError,
    >)
        ensures
            exists_code != 0 ==> (r matches Err(PCIe40IdError::DeviceNotFoundById(d)) && d
                == device_id),
            exists_code == 0 && id_fd < 0 ==> (r matches Err(
                PCIe40IdError::DeviceOpenFail { device_name: n, device_id: d },
            ) && n@ == "Unknown"@ && d == device_id),
            exists_code == 0 && id_fd >= 0 ==> (r matches Ok(dev) && dev.spec_name() == "Unkown"@
                && dev.spec_device_id() == device_id && dev.spec_id_fd() == id_fd),
    {
        if exists_code != 0 {
            return Err(PCIe40IdError::DeviceNotFoundById(device_id));
        }
        if id_fd < 0 {
            return Err(
                PCIe40IdError::DeviceOpenFail { device_name: "Unknown".to_owned(), device_id },
            );
        }
        Ok(PCIe40DeviceId { device_name: "Unkown".to_owned(), device_id, id_fd })
    }
}

impl PCIe40DeviceId {
    pub closed spec fn spec_name(&self) -> Seq<char> {
        self.device_name@
    }

    pub closed spec fn spec_device_id(&self) -> i32 {
        self.device_id
    }

    pub closed spec fn spec_id_fd(&self) -> i32 {
        self.id_fd
    }

    /// The board's id.
    pub fn device_id(&self) -> (r: i32)
        ensures
            r == self.spec_device_id(),
    {
        self.device_id
    }

    /// The board's descriptor, for the driver calls.
    pub fn id_fd(&self) -> (r: i32)
        ensures
            r == self.spec_id_fd(),
    {
        self.id_fd
    }

    fn read_error(&self) -> (e: PCIe40DeviceIdError)
        ensures
            e matches PCIe40DeviceIdError::DeviceReadError { device_name: n, device_id: d } && n@
                == self.spec_name() && d == self.spec_device_id(),
    {
        PCIe40DeviceIdError::DeviceReadError {
            device_name: self.device_name.clone(),
            device_id: self.device_id,
        }
    }

    /// Reads the driver's answer for the board's FPGA serial number.
    pub fn fpga_serial_number(&self, code: i64) -> (r: Result<i64, PCIe40DeviceIdError>)
        ensures
            code < 0 ==> (r matches Err(PCIe40DeviceIdError::DeviceReadError { device_name: n, device_id: d })
                && n@ == self.spec_name() && d == self.spec_device_id()),
            code >= 0 ==> r == Ok::<i64, PCIe40DeviceIdError>(code),
    {
        if code < 0 {
            return Err(self.read_error());
        }
        Ok(code)
    }

    fn c_buffer_to_string(&self, buffer: &[u8]) -> (r: Result<String, PCIe40DeviceIdError>)
        ensures
            c_string_end(buffer@) == buffer@.len() ==> (r matches Err(
                PCIe40DeviceIdError::DeviceReadError { device_name: n, device_id: d },
            ) && n@ == self.spec_name() && d == self.spec_device_id()),
            c_string_end(buffer@) < buffer@.len() ==> (r matches Ok(s) && s@ == utf8_lossy(
                buffer@.subrange(0, c_string_end(buffer@)),
            )),
    {
        match c_terminated_string(buffer) {
            Some(s) => Ok(s),
            None => Err(self.read_error()),
        }
    }

    /// The board's name, given the driver's answer to the name query and the
    /// buffer it filled; the board is known by this name from now on.
    pub fn device_name(&mut self, code: i32, buffer: &[u8]) -> (r: Result<
        String,
        PCIe40DeviceIdError,
    >)
        ensures
            final(self).spec_device_id() == old(self).spec_device_id(),
            final(self).spec_id_fd() == old(self).spec_id_fd(),
            code < 0 || c_string_end(buffer@) == buffer@.len() ==> (r matches Err(
                PCIe40DeviceIdError::DeviceReadError { device_name: n, device_id: d },
            ) && n@ == old(self).spec_name() && d == old(self).spec_device_id()
                && final(self).spec_name() == old(self).spec_name()),
            code >= 0 && c_string_end(buffer@) < buffer@.len() ==> (r matches Ok(s) && s@
                == utf8_lossy(buffer@.subrange(0, c_string_end(buffer@))) && final(self).spec_name()
                == s@),
    {
        if code < 0 {
            return Err(self.read_error());
        }
        let name = match self.c_buffer_to_string(buffer) {
            Ok(s) => s,
            Err(e) => return Err(e),
        };
        self.device_name = name;
        Ok(self.device_name.clone())
    }

    /// The board's unique name, given the driver's answer and the buffer it filled.
    pub fn unique_device_name(&self, code: i32, buffer: &[u8]) -> (r: Result<
        String,
        PCIe40DeviceIdError,
    >)
        ensures
            code < 0 || c_string_end(buffer@) == buffer@.len() ==> (r matches Err(
                PCIe40DeviceIdError::DeviceReadError { device_name: n, device_id: d },
            ) && n@ == self.spec_name() && d == self.spec_device_id()),
            code >= 0 && c_string_end(buffer@) < buffer@.len() ==> (r matches Ok(s) && s@
                == utf8_lossy(buffer@.subrange(0, c_string_end(buffer@)))),
    {
        if code < 0 {
            return Err(self.read_error());
        }
        self.c_buffer_to_string(buffer)
    }

    /// Whether the board can be given this name: a name that no C string can
    /// hold is refused before the driver is asked.
    pub fn check_new_name(&self, new_name: &str) -> (r: Result<(), PCIe40DeviceIdError>)
        ensures
            c_string_compatible(new_name) ==> r is Ok,
            !c_string_compatible(new_name) ==> (r matches Err(PCIe40DeviceIdError::InvalidDeviceName(n))
                && n@ == new_name@),
    {
        if !c_name_valid(new_name) {
            return Err(PCIe40DeviceIdError::InvalidDeviceName(new_name.to_owned()));
        }
        Ok(())
    }

    /// Renames the board, given the driver's answer (negative on failure):
    /// the board is known by the new name once the driver took it.
    pub fn set_name(&mut self, new_name: &str, code: i32) -> (r: Result<(), PCIe40DeviceIdError>)
        ensures
            final(self).spec_device_id() == old(self).spec_device_id(),
            final(self).spec_id_fd() == old(self).spec_id_fd(),
            code < 0 ==> (r matches Err(PCIe40DeviceIdError::DeviceWriteError { device_name: n, device_id: d })
                && n@ == old(self).spec_name() && d == old(self).spec_device_id()
                && final(self).spec_name() == old(self).spec_name()),
            code >= 0 ==> r is Ok && final(self).spec_name() == new_name@,
    {
        if code < 0 {
            return Err(
                PCIe40DeviceIdError::DeviceWriteError {
                    device_name: self.device_name.clone(),
                    device_id: self.device_id,
                },
            );
        }
        self.device_name = new_name.to_owned();
        Ok(())
    }
}

} // verus!
