//! The PCIe40 identification and controller endpoints: finding boards by
//! name, opening their endpoints, and reading what the driver answers.
//!
//! As for streams, the driver calls are made by the caller; each function
//! here takes the driver's answers and decides what they mean.
use crate::old_mfp::{c_string_end, c_terminated_string, utf8_lossy};
use crate::pcie40::{c_name_valid, c_string_compatible};
use vstd::prelude::*;

verus! {

/// Whether bit `id` of the driver's device mask is set.
pub open spec fn mask_has(mask: i32, id: int) -> bool {
    ((mask as u32) >> (id as u32)) & 1u32 == 1u32
}

/// Device ids in increasing order, each one a host can hold.
pub open spec fn ids_ascending(ids: Seq<i32>) -> bool {
    &&& forall|i: int, j: int| 0 <= i < j < ids.len() ==> ids[i] < ids[j]
    &&& forall|i: int| 0 <= i < ids.len() ==> 0 <= #[trigger] ids[i] < 32
}

/// The device ids that a mask of found devices names, in increasing order:
/// bit `i` stands for device `i`, for the 32 devices a host can hold.
pub fn mask_device_ids(mask: i32) -> (r: Vec<i32>)
    ensures
        forall|i: int, j: int| 0 <= i < j < r@.len() ==> r@[i] < r@[j],
        forall|i: int| 0 <= i < r@.len() ==> 0 <= #[trigger] r@[i] < 32 && mask_has(mask, r@[i] as int),
        forall|id: int| 0 <= id < 32 && mask_has(mask, id) ==> r@.contains(id as i32),
{
    let bits = mask as u32;
    let mut ids: Vec<i32> = Vec::new();
    let mut id: u32 = 0;
    while id < 32
        invariant
            id <= 32,
            bits == mask as u32,
            forall|i: int, j: int| 0 <= i < j < ids@.len() ==> ids@[i] < ids@[j],
            forall|i: int| 0 <= i < ids@.len() ==> 0 <= #[trigger] ids@[i] < id && mask_has(mask, ids@[i] as int),
            forall|k: int| 0 <= k < id && mask_has(mask, k) ==> ids@.contains(k as i32),
        decreases 32 - id,
    {
        let ghost before = ids@;
        if (bits >> id) & 1u32 == 1u32 {
            ids.push(id as i32);
            proof {
                assert(ids@[ids@.len() - 1] == id as i32);
            }
        }
        proof {
            assert forall|k: int| 0 <= k < id + 1 && mask_has(mask, k) implies ids@.contains(
                k as i32,
            ) by {
                if k < id {
                    let j = choose|j: int| 0 <= j < before.len() && before[j] == k as i32;
                    assert(ids@[j] == k as i32);
                } else {
                    assert(ids@[ids@.len() - 1] == id as i32);
                }
            }
        }
        id = id + 1;
    }
    ids
}

/// Errors of looking up and opening identification endpoints.
#[derive(Debug)]
pub enum PCIe40IdManagerError {
    InvalidDeviceName { device_name: String },
    DriverReadError,
    DeviceNotFoundByName { device_name: String },
    DeviceNotFoundById { device_id: i32 },
    DeviceOpenFail { device_id: i32 },
}

/// Errors of an open identification endpoint.
#[derive(Debug)]
pub enum PCIe40IdEndpointError {
    DeviceReadError { device_id: i32 },
    DeviceWriteError { device_id: i32 },
    InvalidDeviceName { device_name: String },
}

/// Looks boards up and opens their identification endpoints.
pub struct PCIe40IdManager {}

/// An open identification endpoint of a board.
pub struct PCIe40IdEndpoint {
    device_id: i32,
    id_fd: i32,
}

impl PCIe40IdManager {
    /// Reads the driver's answer to whether a board exists: 0 when it does.
    pub fn id_endpoint_exists(exists_code: i32) -> (r: bool)
        ensures
            r == (exists_code == 0),
    {
        exists_code == 0
    }

    /// Resolves a board's name to its id: a name that no C string can hold
    /// is invalid and not looked up; `found_id` is the driver's answer to the
    /// lookup (negative: no such board).
    pub fn find_id_by_name(device_name: &str, found_id: i32) -> (r: Result<
        i32,
        PCIe40IdManagerError,
    >)
        ensures
            !c_string_compatible(device_name) ==> (r matches Err(
                PCIe40IdManagerError::InvalidDeviceName { device_name: n },
            ) && n@ == device_name@),
            c_string_compatible(device_name) && found_id < 0 ==> (r matches Err(
                PCIe40IdManagerError::DeviceNotFoundByName { device_name: n },
            ) && n@ == device_name@),
            c_string_compatible(device_name) && found_id >= 0 ==> r == Ok::<
                i32,
                PCIe40IdManagerError,
            >(found_id),
    {
        if !c_name_valid(device_name) {
            return Err(
                PCIe40IdManagerError::InvalidDeviceName { device_name: device_name.to_owned() },
            );
        }
        if found_id < 0 {
            return Err(
                PCIe40IdManagerError::DeviceNotFoundByName { device_name: device_name.to_owned() },
            );
        }
        Ok(found_id)
    }

    /// The ids of all boards with the given name: `mask` is the driver's
    /// answer to the lookup, one bit per board.
    pub fn find_all_ids_by_name(device_name: &str, mask: i32) -> (r: Result<
        Vec<i32>,
        PCIe40IdManagerError,
    >)
        ensures
            !c_string_compatible(device_name) ==> (r matches Err(
                PCIe40IdManagerError::InvalidDeviceName { device_name: n },
            ) && n@ == device_name@),
            c_string_compatible(device_name) ==> (r matches Ok(ids) && ids_ascending(ids@) && forall|id: int|
                0 <= id < 32 ==> (ids@.contains(id as i32) <==> mask_has(mask, id))),
    {
        if !c_name_valid(device_name) {
            return Err(
                PCIe40IdManagerError::InvalidDeviceName { device_name: device_name.to_owned() },
            );
        }
        let ids = mask_device_ids(mask);
        proof {
            assert forall|id: int| 0 <= id < 32 implies (ids@.contains(id as i32) <==> mask_has(
                mask,
                id,
            )) by {
                if ids@.contains(id as i32) {
                    let k = choose|k: int| 0 <= k < ids@.len() && ids@[k] == id as i32;
                    assert(mask_has(mask, ids@[k] as int));
                }
            }
        }
        Ok(ids)
    }

    /// The ids of all boards: `mask` is the driver's answer to the lookup
    /// of every board, one bit per board.
    pub fn find_all_ids(mask: i32) -> (r: Result<Vec<i32>, PCIe40IdManagerError>)
        ensures
            r matches Ok(ids) && ids_ascending(ids@) && forall|id: int|
                0 <= id < 32 ==> (ids@.contains(id as i32) <==> mask_has(mask, id)),
    {
        let ids = mask_device_ids(mask);
        proof {
            assert forall|id: int| 0 <= id < 32 implies (ids@.contains(id as i32) <==> mask_has(
                mask,
                id,
            )) by {
                if ids@.contains(id as i32) {
                    let k = choose|k: int| 0 <= k < ids@.len() && ids@[k] == id as i32;
                    assert(mask_has(mask, ids@[k] as int));
                }
            }
        }
        Ok(ids)
    }

    /// Resolves a board's name to the id whose endpoint is then opened with
    /// `open_by_device_id`; a name that no C string can hold is not found.
    pub fn open_by_device_name(device_name: &str, found_id: i32) -> (r: Result<
        i32,
        PCIe40IdManagerError,
    >)
        ensures
            c_string_compatible(device_name) && found_id >= 0 ==> r == Ok::<
                i32,
                PCIe40IdManagerError,
            >(found_id),
            !(c_string_compatible(device_name) && found_id >= 0) ==> (r matches Err(
                PCIe40IdManagerError::DeviceNotFoundByName { device_name: n },
            ) && n@ == device_name@),
    {
        if !c_name_valid(device_name) || found_id < 0 {
            return Err(
                PCIe40IdManagerError::DeviceNotFoundByName { device_name: device_name.to_owned() },
            );
        }
        Ok(found_id)
    }

    /// Opens board `device_id`'s endpoint: `exists_code` is the driver's
    /// answer to whether the board exists (0: it does) and `id_fd` its answer
    /// to opening the endpoint (made only when it exists; negative on failure).
    pub fn open_by_device_id(device_id: i32, exists_code: i32, id_fd: i32) -> (r: Result<
        PCIe40IdEndpoint,
        PCIe40IdManagerError,
    >)
        ensures
            exists_code != 0 ==> (r matches Err(
                PCIe40IdManagerError::DeviceNotFoundById { device_id: d },
            ) && d == device_id),
            exists_code == 0 && id_fd < 0 ==> (r matches Err(
                PCIe40IdManagerError::DeviceOpenFail { device_id: d },
            ) && d == device_id),
            exists_code == 0 && id_fd >= 0 ==> (r matches Ok(e) && e.spec_device_id() == device_id
                && e.spec_id_fd() == id_fd),
    {
        if exists_code != 0 {
            return Err(PCIe40IdManagerError::DeviceNotFoundById { device_id });
        }
        if id_fd < 0 {
            return Err(PCIe40IdManagerError::DeviceOpenFail { device_id });
        }
        Ok(PCIe40IdEndpoint { device_id, id_fd })
    }
}

impl PCIe40IdEndpoint {
    pub closed spec fn spec_device_id(&self) -> i32 {
        self.device_id
    }

    pub closed spec fn spec_id_fd(&self) -> i32 {
        self.id_fd
    }

    /// The board's id.
    pub fn device_id(&self) -> (r: i32)
        ensures
            r == self.spec_device_id(),
    {
        self.device_id
    }

    /// The endpoint's descriptor, for the driver calls.
    pub fn id_fd(&self) -> (r: i32)
        ensures
            r == self.spec_id_fd(),
    {
        self.id_fd
    }

    /// Reads the driver's answer for the board's FPGA serial number.
    pub fn fpga_serial_number(&self, code: i64) -> (r: Result<i64, PCIe40IdEndpointError>)
        ensures
            code < 0 ==> (r matches Err(PCIe40IdEndpointError::DeviceReadError { device_id: d })
                && d == self.spec_device_id()),
            code >= 0 ==> r == Ok::<i64, PCIe40IdEndpointError>(code),
    {
        if code < 0 {
            return Err(PCIe40IdEndpointError::DeviceReadError { device_id: self.device_id });
        }
        Ok(code)
    }

    /// The name in a buffer the driver filled: its bytes up to the first zero
    /// byte, which must be there.
    pub fn c_buffer_to_string(&self, buffer: &[u8]) -> (r: Result<String, PCIe40IdEndpointError>)
        ensures
            c_string_end(buffer@) == buffer@.len() ==> (r matches Err(
                PCIe40IdEndpointError::DeviceReadError { device_id: d },
            ) && d == self.spec_device_id()),
            c_string_end(buffer@) < buffer@.len() ==> (r matches Ok(s) && s@ == utf8_lossy(
                buffer@.subrange(0, c_string_end(buffer@)),
            )),
    {
        match c_terminated_string(buffer) {
            Some(s) => Ok(s),
            None => Err(PCIe40IdEndpointError::DeviceReadError { device_id: self.device_id }),
        }
    }

    /// The board's name, given the driver's answer to the name query and the
    /// buffer it filled.
    pub fn device_name(&self, code: i32, buffer: &[u8]) -> (r: Result<String, PCIe40IdEndpointError>)
        ensures
            code < 0 || c_string_end(buffer@) == buffer@.len() ==> (r matches Err(
                PCIe40IdEndpointError::DeviceReadError { device_id: d },
            ) && d == self.spec_device_id()),
            code >= 0 && c_string_end(buffer@) < buffer@.len() ==> (r matches Ok(s) && s@
                == utf8_lossy(buffer@.subrange(0, c_string_end(buffer@)))),
    {
        if code < 0 {
            return Err(PCIe40IdEndpointError::DeviceReadError { device_id: self.device_id });
        }
        self.c_buffer_to_string(buffer)
    }

    /// The board's unique name, given the driver's answer to the query and
    /// the buffer it filled.
    pub fn unique_device_name(&self, code: i32, buffer: &[u8]) -> (r: Result<
        String,
        PCIe40IdEndpointError,
    >)
        ensures
            code < 0 || c_string_end(buffer@) == buffer@.len() ==> (r matches Err(
                PCIe40IdEndpointError::DeviceReadError { device_id: d },
            ) && d == self.spec_device_id()),
            code >= 0 && c_string_end(buffer@) < buffer@.len() ==> (r matches Ok(s) && s@
                == utf8_lossy(buffer@.subrange(0, c_string_end(buffer@)))),
    {
        self.device_name(code, buffer)
    }

    /// Whether the board can be given this name: a name that no C string can
    /// hold is refused before the driver is asked.
    pub fn check_new_name(&self, device_name: &str) -> (r: Result<(), PCIe40IdEndpointError>)
        ensures
            c_string_compatible(device_name) ==> r is Ok,
            !c_string_compatible(device_name) ==> (r matches Err(
                PCIe40IdEndpointError::InvalidDeviceName { device_name: n },
            ) && n@ == device_name@),
    {
        if !c_name_valid(device_name) {
            return Err(
                PCIe40IdEndpointError::InvalidDeviceName { device_name: device_name.to_owned() },
            );
        }
        Ok(())
    }

    /// Reads the driver's answer to renaming the board (negative on failure).
    pub fn set_name(&self, code: i32) -> (r: Result<(), PCIe40IdEndpointError>)
        ensures
            code < 0 ==> (r matches Err(PCIe40IdEndpointError::DeviceWriteError { device_id: d })
                && d == self.spec_device_id()),
            code >= 0 ==> r is Ok,
    {
        if code < 0 {
            return Err(PCIe40IdEndpointError::DeviceWriteError { device_id: self.device_id });
        }
        Ok(())
    }
}

/// Errors of looking up and opening controller endpoints.
#[derive(Debug)]
pub enum PCIe40ControllerManagerError {
    InvalidDeviceName { device_name: String },
    DriverReadError,
    DeviceNotFoundByName { device_name: String },
    DeviceNotFoundById { device_id: i32 },
    DeviceOpenFail { device_id: i32 },
}

/// Errors of an open controller endpoint.
#[derive(Debug)]
pub enum PCIe40ControllerError {
    DeviceReadError { device_id: i32 },
    DeviceWriteError { device_id: i32 },
    InvalidDeviceName { device_name: String },
}

/// Opens boards' controller endpoints.
pub struct PCIe40ControllerManager {}

/// An open controller endpoint of a board.
pub struct PCIe40Controller {
    ctrl_fd: i32,
    device_id: i32,
}

impl PCIe40ControllerManager {
    /// Reads the driver's answer to whether a board's controller exists: 0
    /// when it does, positive when not, negative when the driver cannot tell.
    pub fn controller_exists(exists_code: i32) -> (r: Result<bool, PCIe40ControllerManagerError>)
        ensures
            exists_code < 0 ==> (r matches Err(PCIe40ControllerManagerError::DriverReadError)),
            exists_code >= 0 ==> r == Ok::<bool, PCIe40ControllerManagerError>(exists_code == 0),
    {
        if exists_code < 0 {
            Err(PCIe40ControllerManagerError::DriverReadError)
        } else {
            Ok(exists_code == 0)
        }
    }

    /// Resolves a board's name to the id whose controller is then opened with
    /// `open_by_device_id`; a name that no C string can hold is not found.
    pub fn open_by_device_name(device_name: &str, found_id: i32) -> (r: Result<
        i32,
        PCIe40ControllerManagerError,
    >)
        ensures
            c_string_compatible(device_name) && found_id >= 0 ==> r == Ok::<
                i32,
                PCIe40ControllerManagerError,
            >(found_id),
            !(c_string_compatible(device_name) && found_id >= 0) ==> (r matches Err(
                PCIe40ControllerManagerError::DeviceNotFoundByName { device_name: n },
            ) && n@ == device_name@),
    {
        if !c_name_valid(device_name) || found_id < 0 {
            return Err(
                PCIe40ControllerManagerError::DeviceNotFoundByName {
                    device_name: device_name.to_owned(),
                },
            );
        }
        Ok(found_id)
    }

    /// Opens board `device_id`'s controller, given the driver's answer to the
    /// open (a negative descriptor: the board is not found).
    pub fn open_by_device_id(device_id: i32, ctrl_fd: i32) -> (r: Result<
        PCIe40Controller,
        PCIe40ControllerManagerError,
    >)
        ensures
            ctrl_fd < 0 ==> (r matches Err(
                PCIe40ControllerManagerError::DeviceNotFoundById { device_id: d },
            ) && d == device_id),
            ctrl_fd >= 0 ==> (r matches Ok(c) && c.spec_device_id() == device_id && c.spec_ctrl_fd()
                == ctrl_fd),
    {
        if ctrl_fd < 0 {
            return Err(PCIe40ControllerManagerError::DeviceNotFoundById { device_id });
        }
        Ok(PCIe40Controller { ctrl_fd, device_id })
    }
}

impl PCIe40Controller {
    pub closed spec fn spec_device_id(&self) -> i32 {
        self.device_id
    }

    pub closed spec fn spec_ctrl_fd(&self) -> i32 {
        self.ctrl_fd
    }

    /// The board's id.
    pub fn device_id(&self) -> (r: i32)
        ensures
            r == self.spec_device_id(),
    {
        self.device_id
    }

    /// The controller's descriptor, for the driver calls.
    pub fn ctrl_fd(&self) -> (r: i32)
        ensures
            r == self.spec_ctrl_fd(),
    {
        self.ctrl_fd
    }

    /// Reads the driver's answer for the alignment of meta-formatted data.
    pub fn meta_alignment(&self, code: i64) -> (r: Result<usize, PCIe40ControllerError>)
        requires
            code <= usize::MAX,
        ensures
            code < 0 ==> (r matches Err(PCIe40ControllerError::DeviceReadError { device_id: d })
                && d == self.spec_device_id()),
            code >= 0 ==> r == Ok::<usize, PCIe40ControllerError>(code as usize),
    {
        if code < 0 {
            return Err(PCIe40ControllerError::DeviceReadError { device_id: self.device_id });
        }
        Ok(code as usize)
    }
}

} // verus!
