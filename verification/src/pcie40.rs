//! The PCIe40 stream life cycle and what the driver's answers mean.
//!
//! A stream is opened (its main and meta descriptors), enabled, locked by
//! this process, its host buffer mapped and read through offsets that the
//! driver keeps. Every driver call answers a number; this module decides what
//! each answer means for the stream and which error it is. The calls
//! themselves are made by the caller, which hands each answer in.
use crate::text::{dec, push_dec, push_signed_dec, signed_dec};
use vstd::prelude::*;
use vstd::string::{StringExecFns, StringSliceAdditionalSpecFns};

verus! {

/// The DAQ streams of a PCIe40 board.
#[derive(Debug, Clone, Copy, PartialEq, Eq, Structural)]
pub enum PCIe40DAQStreamType {
    MainStream,
    Odin0Stream,
    Odin1Stream,
    Odin2Stream,
    Odin3Stream,
    Odin4Stream,
}

/// The format a stream delivers: raw fragments or meta-formatted packets.
#[derive(Debug, Clone, Copy, PartialEq, Eq, Structural)]
pub enum PCIe40DAQStreamFormat {
    RawFormat,
    MetaFormat,
}

impl PCIe40DAQStreamType {
    /// The stream's name as the driver spells it.
    pub fn label(&self) -> (r: &'static str)
        ensures
            r@ == match *self {
                PCIe40DAQStreamType::MainStream => "MAIN"@,
                PCIe40DAQStreamType::Odin0Stream => "ODIN0"@,
                PCIe40DAQStreamType::Odin1Stream => "ODIN1"@,
                PCIe40DAQStreamType::Odin2Stream => "ODIN2"@,
                PCIe40DAQStreamType::Odin3Stream => "ODIN3"@,
                PCIe40DAQStreamType::Odin4Stream => "ODIN4"@,
            },
    {
        match self {
            PCIe40DAQStreamType::MainStream => "MAIN",
            PCIe40DAQStreamType::Odin0Stream => "ODIN0",
            PCIe40DAQStreamType::Odin1Stream => "ODIN1",
            PCIe40DAQStreamType::Odin2Stream => "ODIN2",
            PCIe40DAQStreamType::Odin3Stream => "ODIN3",
            PCIe40DAQStreamType::Odin4Stream => "ODIN4",
        }
    }
}

impl PCIe40DAQStreamFormat {
    /// The format's name as the driver spells it.
    pub fn label(&self) -> (r: &'static str)
        ensures
            r@ == match *self {
                PCIe40DAQStreamFormat::RawFormat => "RAW"@,
                PCIe40DAQStreamFormat::MetaFormat => "META"@,
            },
    {
        match self {
            PCIe40DAQStreamFormat::RawFormat => "RAW",
            PCIe40DAQStreamFormat::MetaFormat => "META",
        }
    }
}

/// Errors of looking up and opening streams.
#[derive(Debug)]
pub enum PCIe40StreamManagerError {
    InvalidDeviceName { device_name: String },
    DriverReadError,
    DeviceNotFoundByName { device_name: String },
    DeviceNotFoundById { device_id: i32 },
    StreamOpenFail { device_id: i32, stream_type: PCIe40DAQStreamType },
}

/// Errors of an open stream.
#[derive(Debug)]
pub enum PCIe40StreamError {
    StreamReadError { device_id: i32, stream_type: PCIe40DAQStreamType, info: String },
    StreamWriteError { device_id: i32, stream_type: PCIe40DAQStreamType, info: String },
    FailedToEnableStream { device_id: i32, stream_type: PCIe40DAQStreamType },
    FailedToDisableStream { device_id: i32, stream_type: PCIe40DAQStreamType },
    FailedToLockStream { device_id: i32, stream_type: PCIe40DAQStreamType },
    FailedToUnlockStream { device_id: i32, stream_type: PCIe40DAQStreamType },
    FailedToMapBuffer { device_id: i32, stream_type: PCIe40DAQStreamType },
    FailedToUnmapBuffer { device_id: i32, stream_type: PCIe40DAQStreamType },
}

/// What closing a stream does to its enable state, as the user asks for it.
#[derive(Debug, Clone, Copy, PartialEq, Eq, Structural)]
pub enum PCIe40StreamHandleEnableStateCloseMode {
    PreserveEnableState,
    DisabledOnClose,
    EnabledOnClose,
}

/// What closing a stream does to its enable state, once decided.
#[derive(Debug, Clone, Copy, PartialEq, Eq, Structural)]
pub enum PCIe40StreamHandleEnableStateActionOnClose {
    PreserveEnableState { enabled: bool },
    DisableOnClose,
    EnableOnClose,
}

/// The bytes of `s` as a C string needs them: no zero byte inside.
pub open spec fn c_string_compatible(s: &str) -> bool {
    forall|i: int| 0 <= i < s.spec_bytes().len() ==> s.spec_bytes()[i] != 0
}

/// Whether `name` can be handed to C (the driver, a shared memory segment)
/// as a string: it holds no zero byte.
pub fn c_name_valid(name: &str) -> (r: bool)
    ensures
        r == c_string_compatible(name),
{
    let bytes = name.as_bytes();
    let n = bytes.len();
    let mut i: usize = 0;
    while i < n
        invariant
            n == bytes@.len(),
            bytes@ == name.spec_bytes(),
            i <= n,
            forall|j: int| 0 <= j < i ==> bytes@[j] != 0,
        decreases n - i,
    {
        if bytes[i] == 0 {
            return false;
        }
        i = i + 1;
    }
    true
}

/// The stream manager: looks devices up and opens their streams.
pub struct PCIe40StreamManager {}

/// The driver calls that opening a stream makes, in order.
#[derive(Debug, Clone, Copy, PartialEq, Eq, Structural)]
pub enum StreamOpenStep {
    /// Ask whether the stream exists (0: it does, positive: it does not).
    QueryExists,
    /// Open the stream (a negative descriptor is a failure).
    OpenStream,
    /// Open the stream a second time, for its meta settings.
    OpenMetaStream,
}

/// A stream being opened: which device, stream and format, how far it got.
pub struct PCIe40StreamOpening {
    device_id: i32,
    stream_type: PCIe40DAQStreamType,
    stream_format: PCIe40DAQStreamFormat,
    stream_fd: i32,
    step: StreamOpenStep,
}

/// Where opening a stream stands after the driver answered a step.
pub enum StreamOpenProgress {
    Continue(PCIe40StreamOpening),
    Failed(PCIe40StreamManagerError),
    Opened(PCIe40Stream),
}

impl PCIe40StreamManager {
    /// Reads the driver's answer to whether a stream exists: 0 when it does,
    /// positive when it does not, negative when the driver could not tell.
    pub fn stream_exists(exists_code: i32) -> (r: Result<bool, PCIe40StreamManagerError>)
        ensures
            exists_code < 0 ==> (r matches Err(PCIe40StreamManagerError::DriverReadError)),
            exists_code >= 0 ==> r == Ok::<bool, PCIe40StreamManagerError>(exists_code == 0),
    {
        if exists_code < 0 {
            Err(PCIe40StreamManagerError::DriverReadError)
        } else {
            Ok(exists_code == 0)
        }
    }

    /// Resolves a device name to the id whose stream is then opened with
    /// `open_by_device_id`. `found_id` is what the driver's lookup of the name
    /// answered (negative: no such device); a name that no C string can hold
    /// is not looked up, and is not found either.
    pub fn open_by_device_name(device_name: &str, found_id: i32) -> (r: Result<
        i32,
        PCIe40StreamManagerError,
    >)
        ensures
            c_string_compatible(device_name) && found_id >= 0 ==> r == Ok::<
                i32,
                PCIe40StreamManagerError,
            >(found_id),
            !(c_string_compatible(device_name) && found_id >= 0) ==> (r matches Err(
                PCIe40StreamManagerError::DeviceNotFoundByName { device_name: n },
            ) && n@ == device_name@),
    {
        if !c_name_valid(device_name) || found_id < 0 {
            return Err(
                PCIe40StreamManagerError::DeviceNotFoundByName {
                    device_name: device_name.to_owned(),
                },
            );
        }
        Ok(found_id)
    }

    /// Starts opening a stream of device `device_id`: the first call to make
    /// is the existence query.
    pub fn open_by_device_id(
        device_id: i32,
        stream_type: PCIe40DAQStreamType,
        stream_format: PCIe40DAQStreamFormat,
    ) -> (r: PCIe40StreamOpening)
        ensures
            r.spec_device_id() == device_id,
            r.spec_stream_type() == stream_type,
            r.spec_stream_format() == stream_format,
            r.spec_step() == StreamOpenStep::QueryExists,
    {
        PCIe40StreamOpening {
            device_id,
            stream_type,
            stream_format,
            stream_fd: -1,
            step: StreamOpenStep::QueryExists,
        }
    }
}

impl PCIe40StreamOpening {
    pub closed spec fn spec_device_id(&self) -> i32 {
        self.device_id
    }

    pub closed spec fn spec_stream_type(&self) -> PCIe40DAQStreamType {
        self.stream_type
    }

    pub closed spec fn spec_stream_format(&self) -> PCIe40DAQStreamFormat {
        self.stream_format
    }

    pub closed spec fn spec_stream_fd(&self) -> i32 {
        self.stream_fd
    }

    pub closed spec fn spec_step(&self) -> StreamOpenStep {
        self.step
    }

    /// The driver call to make next.
    pub fn step(&self) -> (r: StreamOpenStep)
        ensures
            r == self.spec_step(),
    {
        self.step
    }

    /// The device whose stream is being opened.
    pub fn device_id(&self) -> (r: i32)
        ensures
            r == self.spec_device_id(),
    {
        self.device_id
    }

    /// The stream being opened.
    pub fn stream_type(&self) -> (r: PCIe40DAQStreamType)
        ensures
            r == self.spec_stream_type(),
    {
        self.stream_type
    }

    /// Takes the driver's answer to the current step: the existence query
    /// fails on a negative answer and finds no stream on a positive one; an
    /// open fails on a negative descriptor; the stream is open once both its
    /// descriptors are.
    pub fn advance(self, code: i32) -> (r: StreamOpenProgress)
        ensures
            match self.spec_step() {
                StreamOpenStep::QueryExists => if code < 0 {
                    r matches StreamOpenProgress::Failed(PCIe40StreamManagerError::DriverReadError)
                } else if code > 0 {
                    r matches StreamOpenProgress::Failed(
                        PCIe40StreamManagerError::DeviceNotFoundById { device_id: d },
                    ) && d == self.spec_device_id()
                } else {
                    r matches StreamOpenProgress::Continue(o) && o.spec_step()
                        == StreamOpenStep::OpenStream && o.spec_device_id()
                        == self.spec_device_id() && o.spec_stream_type()
                        == self.spec_stream_type() && o.spec_stream_format()
                        == self.spec_stream_format()
                },
                StreamOpenStep::OpenStream => if code < 0 {
                    r matches StreamOpenProgress::Failed(
                        PCIe40StreamManagerError::StreamOpenFail { device_id: d, stream_type: t },
                    ) && d == self.spec_device_id() && t == self.spec_stream_type()
                } else {
                    r matches StreamOpenProgress::Continue(o) && o.spec_step()
                        == StreamOpenStep::OpenMetaStream && o.spec_stream_fd() == code
                        && o.spec_device_id() == self.spec_device_id() && o.spec_stream_type()
                        == self.spec_stream_type() && o.spec_stream_format()
                        == self.spec_stream_format()
                },
                StreamOpenStep::OpenMetaStream => if code < 0 {
                    r matches StreamOpenProgress::Failed(
                        PCIe40StreamManagerError::StreamOpenFail { device_id: d, stream_type: t },
                    ) && d == self.spec_device_id() && t == self.spec_stream_type()
                } else {
                    r matches StreamOpenProgress::Opened(s) && s.spec_device_id()
                        == self.spec_device_id() && s.spec_stream_fd() == self.spec_stream_fd()
                        && s.spec_meta_stream_fd() == code && s.spec_stream_type()
                        == self.spec_stream_type() && s.spec_stream_format()
                        == self.spec_stream_format() && s.spec_close_action()
                        == PCIe40StreamHandleEnableStateActionOnClose::DisableOnClose
                },
            },
    {
        match self.step {
            StreamOpenStep::QueryExists => {
                match PCIe40StreamManager::stream_exists(code) {
                    Err(e) => StreamOpenProgress::Failed(e),
                    Ok(false) => StreamOpenProgress::Failed(
                        PCIe40StreamManagerError::DeviceNotFoundById { device_id: self.device_id },
                    ),
                    Ok(true) => StreamOpenProgress::Continue(
                        PCIe40StreamOpening { step: StreamOpenStep::OpenStream, ..self },
                    ),
                }
            },
            StreamOpenStep::OpenStream => {
                if code < 0 {
                    StreamOpenProgress::Failed(
                        PCIe40StreamManagerError::StreamOpenFail {
                            device_id: self.device_id,
                            stream_type: self.stream_type,
                        },
                    )
                } else {
                    StreamOpenProgress::Continue(
                        PCIe40StreamOpening {
                            stream_fd: code,
                            step: StreamOpenStep::OpenMetaStream,
                            ..self
                        },
                    )
                }
            },
            StreamOpenStep::OpenMetaStream => {
                if code < 0 {
                    StreamOpenProgress::Failed(
                        PCIe40StreamManagerError::StreamOpenFail {
                            device_id: self.device_id,
                            stream_type: self.stream_type,
                        },
                    )
                } else {
                    StreamOpenProgress::Opened(
                        PCIe40Stream::new(
                            self.device_id,
                            self.stream_fd,
                            code,
                            self.stream_type,
                            self.stream_format,
                        ),
                    )
                }
            },
        }
    }
}

/// An open stream: its device, its two descriptors, type and format, and
/// what closing it does to its enable state.
pub struct PCIe40Stream {
    device_id: i32,
    stream_fd: i32,
    meta_stream_fd: i32,
    stream_type: PCIe40DAQStreamType,
    stream_format: PCIe40DAQStreamFormat,
    enable_state_action_on_close: PCIe40StreamHandleEnableStateActionOnClose,
}

/// The error a failed read of the stream's state is reported as.
pub open spec fn is_read_error(
    e: PCIe40StreamError,
    device_id: i32,
    stream_type: PCIe40DAQStreamType,
    info: Seq<char>,
) -> bool {
    e matches PCIe40StreamError::StreamReadError { device_id: d, stream_type: t, info: i } && d
        == device_id && t == stream_type && i@ == info
}

/// The error a failed write of the stream's state is reported as.
pub open spec fn is_write_error(
    e: PCIe40StreamError,
    device_id: i32,
    stream_type: PCIe40DAQStreamType,
    info: Seq<char>,
) -> bool {
    e matches PCIe40StreamError::StreamWriteError { device_id: d, stream_type: t, info: i } && d
        == device_id && t == stream_type && i@ == info
}

impl PCIe40Stream {
    pub closed spec fn spec_device_id(&self) -> i32 {
        self.device_id
    }

    pub closed spec fn spec_stream_fd(&self) -> i32 {
        self.stream_fd
    }

    pub closed spec fn spec_meta_stream_fd(&self) -> i32 {
        self.meta_stream_fd
    }

    pub closed spec fn spec_stream_type(&self) -> PCIe40DAQStreamType {
        self.stream_type
    }

    pub closed spec fn spec_stream_format(&self) -> PCIe40DAQStreamFormat {
        self.stream_format
    }

    pub closed spec fn spec_close_action(&self) -> PCIe40StreamHandleEnableStateActionOnClose {
        self.enable_state_action_on_close
    }

    /// A stream just opened; closing it disables it unless told otherwise.
    pub fn new(
        device_id: i32,
        stream_fd: i32,
        meta_stream_fd: i32,
        stream_type: PCIe40DAQStreamType,
        stream_format: PCIe40DAQStreamFormat,
    ) -> (r: Self)
        ensures
            r.spec_device_id() == device_id,
            r.spec_stream_fd() == stream_fd,
            r.spec_meta_stream_fd() == meta_stream_fd,
            r.spec_stream_type() == stream_type,
            r.spec_stream_format() == stream_format,
            r.spec_close_action() == PCIe40StreamHandleEnableStateActionOnClose::DisableOnClose,
    {
        PCIe40Stream {
            device_id,
            stream_fd,
            meta_stream_fd,
            stream_type,
            stream_format,
            enable_state_action_on_close: PCIe40StreamHandleEnableStateActionOnClose::DisableOnClose,
        }
    }

    pub fn device_id(&self) -> (r: i32)
        ensures
            r == self.spec_device_id(),
    {
        self.device_id
    }

    pub fn stream_fd(&self) -> (r: i32)
        ensures
            r == self.spec_stream_fd(),
    {
        self.stream_fd
    }

    pub fn meta_stream_fd(&self) -> (r: i32)
        ensures
            r == self.spec_meta_stream_fd(),
    {
        self.meta_stream_fd
    }

    pub fn stream_type(&self) -> (r: PCIe40DAQStreamType)
        ensures
            r == self.spec_stream_type(),
    {
        self.stream_type
    }

    pub fn stream_format(&self) -> (r: PCIe40DAQStreamFormat)
        ensures
            r == self.spec_stream_format(),
    {
        self.stream_format
    }

    /// Reads the driver's answer to whether the stream is enabled: negative
    /// when it could not tell, otherwise enabled unless 0.
    pub fn enabled(&self, enabled_code: i32) -> (r: Result<bool, PCIe40StreamError>)
        ensures
            enabled_code < 0 ==> (r matches Err(e) && is_read_error(
                e,
                self.spec_device_id(),
                self.spec_stream_type(),
                "Unable to read enabled status"@,
            )),
            enabled_code >= 0 ==> r == Ok::<bool, PCIe40StreamError>(enabled_code != 0),
    {
        if enabled_code < 0 {
            Err(
                PCIe40StreamError::StreamReadError {
                    device_id: self.device_id,
                    stream_type: self.stream_type,
                    info: "Unable to read enabled status".to_owned(),
                },
            )
        } else {
            Ok(enabled_code != 0)
        }
    }

    /// Decides what closing the stream does to its enable state. To preserve
    /// the state, the current state is read: `enabled_code` is the driver's
    /// answer to the enabled query (not consulted for the other modes).
    pub fn set_raii_enable_state_close_mode(
        &mut self,
        preserve_mode: PCIe40StreamHandleEnableStateCloseMode,
        enabled_code: i32,
    ) -> (r: Result<(), PCIe40StreamError>)
        ensures
            final(self).spec_device_id() == old(self).spec_device_id(),
            final(self).spec_stream_fd() == old(self).spec_stream_fd(),
            final(self).spec_meta_stream_fd() == old(self).spec_meta_stream_fd(),
            final(self).spec_stream_type() == old(self).spec_stream_type(),
            final(self).spec_stream_format() == old(self).spec_stream_format(),
            match preserve_mode {
                PCIe40StreamHandleEnableStateCloseMode::DisabledOnClose => r is Ok
                    && final(self).spec_close_action()
                    == PCIe40StreamHandleEnableStateActionOnClose::DisableOnClose,
                PCIe40StreamHandleEnableStateCloseMode::EnabledOnClose => r is Ok
                    && final(self).spec_close_action()
                    == PCIe40StreamHandleEnableStateActionOnClose::EnableOnClose,
                PCIe40StreamHandleEnableStateCloseMode::PreserveEnableState => if enabled_code
                    < 0 {
                    (r matches Err(e) && is_read_error(
                        e,
                        old(self).spec_device_id(),
                        old(self).spec_stream_type(),
                        "Unable to read enabled status"@,
                    )) && final(self).spec_close_action() == old(self).spec_close_action()
                } else {
                    r is Ok && final(self).spec_close_action()
                        == (PCIe40StreamHandleEnableStateActionOnClose::PreserveEnableState {
                        enabled: enabled_code != 0,
                    })
                },
            },
    {
        let action = match preserve_mode {
            PCIe40StreamHandleEnableStateCloseMode::DisabledOnClose => {
                PCIe40StreamHandleEnableStateActionOnClose::DisableOnClose
            },
            PCIe40StreamHandleEnableStateCloseMode::EnabledOnClose => {
                PCIe40StreamHandleEnableStateActionOnClose::EnableOnClose
            },
            PCIe40StreamHandleEnableStateCloseMode::PreserveEnableState => {
                let enabled = match self.enabled(enabled_code) {
                    Ok(b) => b,
                    Err(e) => return Err(e),
                };
                PCIe40StreamHandleEnableStateActionOnClose::PreserveEnableState { enabled }
            },
        };
        self.enable_state_action_on_close = action;
        Ok(())
    }

    /// What closing the stream does to its enable state.
    pub fn close_action(&self) -> (r: PCIe40StreamHandleEnableStateActionOnClose)
        ensures
            r == self.spec_close_action(),
    {
        self.enable_state_action_on_close
    }

    /// Whether closing the stream disables it: always when asked to, and
    /// when preserving a state that was disabled.
    pub fn disables_on_close(&self) -> (r: bool)
        ensures
            r == match self.spec_close_action() {
                PCIe40StreamHandleEnableStateActionOnClose::DisableOnClose => true,
                PCIe40StreamHandleEnableStateActionOnClose::EnableOnClose => false,
                PCIe40StreamHandleEnableStateActionOnClose::PreserveEnableState { enabled } => !enabled,
            },
    {
        match self.enable_state_action_on_close {
            PCIe40StreamHandleEnableStateActionOnClose::DisableOnClose => true,
            PCIe40StreamHandleEnableStateActionOnClose::EnableOnClose => false,
            PCIe40StreamHandleEnableStateActionOnClose::PreserveEnableState { enabled } => !enabled,
        }
    }

    /// Reads the driver's answer to which process holds the stream's lock:
    /// 0 for none, a positive process id, negative when it could not tell.
    pub fn locking_process(&self, locker_code: i32) -> (r: Result<Option<i32>, PCIe40StreamError>)
        ensures
            locker_code == 0 ==> r == Ok::<Option<i32>, PCIe40StreamError>(None),
            locker_code > 0 ==> r == Ok::<Option<i32>, PCIe40StreamError>(Some(locker_code)),
            locker_code < 0 ==> (r matches Err(e) && is_read_error(
                e,
                self.spec_device_id(),
                self.spec_stream_type(),
                "Unable to read locking process"@,
            )),
    {
        if locker_code == 0 {
            Ok(None)
        } else if locker_code > 0 {
            Ok(Some(locker_code))
        } else {
            Err(
                PCIe40StreamError::StreamReadError {
                    device_id: self.device_id,
                    stream_type: self.stream_type,
                    info: "Unable to read locking process".to_owned(),
                },
            )
        }
    }

    /// Whether enabling has to call the driver: `enabled_code` is its answer
    /// to the enabled query.
    pub fn enable_needed(&self, enabled_code: i32) -> (r: Result<bool, PCIe40StreamError>)
        ensures
            enabled_code < 0 ==> (r matches Err(e) && is_read_error(
                e,
                self.spec_device_id(),
                self.spec_stream_type(),
                "Unable to read enabled status"@,
            )),
            enabled_code >= 0 ==> r == Ok::<bool, PCIe40StreamError>(enabled_code == 0),
    {
        match self.enabled(enabled_code) {
            Ok(enabled) => Ok(!enabled),
            Err(e) => Err(e),
        }
    }

    /// Reads the driver's answer to enabling the stream (0 on success).
    pub fn enable_result(&self, enable_code: i32) -> (r: Result<(), PCIe40StreamError>)
        ensures
            enable_code == 0 ==> r is Ok,
            enable_code != 0 ==> (r matches Err(
                PCIe40StreamError::FailedToEnableStream { device_id: d, stream_type: t },
            ) && d == self.spec_device_id() && t == self.spec_stream_type()),
    {
        if enable_code == 0 {
            Ok(())
        } else {
            Err(
                PCIe40StreamError::FailedToEnableStream {
                    device_id: self.device_id,
                    stream_type: self.stream_type,
                },
            )
        }
    }

    /// Whether disabling has to call the driver: `enabled_code` is its
    /// answer to the enabled query.
    pub fn disable_needed(&self, enabled_code: i32) -> (r: Result<bool, PCIe40StreamError>)
        ensures
            enabled_code < 0 ==> (r matches Err(e) && is_read_error(
                e,
                self.spec_device_id(),
                self.spec_stream_type(),
                "Unable to read enabled status"@,
            )),
            enabled_code >= 0 ==> r == Ok::<bool, PCIe40StreamError>(enabled_code != 0),
    {
        self.enabled(enabled_code)
    }

    /// Reads the driver's answer to disabling the stream (0 on success).
    pub fn disable_result(&self, disable_code: i32) -> (r: Result<(), PCIe40StreamError>)
        ensures
            disable_code == 0 ==> r is Ok,
            disable_code != 0 ==> (r matches Err(
                PCIe40StreamError::FailedToDisableStream { device_id: d, stream_type: t },
            ) && d == self.spec_device_id() && t == self.spec_stream_type()),
    {
        if disable_code != 0 {
            Err(
                PCIe40StreamError::FailedToDisableStream {
                    device_id: self.device_id,
                    stream_type: self.stream_type,
                },
            )
        } else {
            Ok(())
        }
    }

    /// Reads the driver's answer to locking the enabled stream: 0 when this
    /// process holds the lock now, positive when another process holds it,
    /// negative when the lock could not be written. The guard then sets the
    /// meta bits of the stream's format.
    pub fn lock(&self, lock_code: i32) -> (r: Result<PCIe40StreamGuard, PCIe40StreamError>)
        ensures
            lock_code == 0 ==> (r matches Ok(g) && g.spec_stream() == *self),
            lock_code > 0 ==> (r matches Err(
                PCIe40StreamError::FailedToLockStream { device_id: d, stream_type: t },
            ) && d == self.spec_device_id() && t == self.spec_stream_type()),
            lock_code < 0 ==> (r matches Err(e) && is_write_error(
                e,
                self.spec_device_id(),
                self.spec_stream_type(),
                "Could not write lock"@,
            )),
    {
        if lock_code == 0 {
            Ok(PCIe40StreamGuard { stream: self.copy() })
        } else if lock_code > 0 {
            Err(
                PCIe40StreamError::FailedToLockStream {
                    device_id: self.device_id,
                    stream_type: self.stream_type,
                },
            )
        } else {
            Err(
                PCIe40StreamError::StreamWriteError {
                    device_id: self.device_id,
                    stream_type: self.stream_type,
                    info: "Could not write lock".to_owned(),
                },
            )
        }
    }

    fn copy(&self) -> (r: Self)
        ensures
            r == *self,
    {
        PCIe40Stream {
            device_id: self.device_id,
            stream_fd: self.stream_fd,
            meta_stream_fd: self.meta_stream_fd,
            stream_type: self.stream_type,
            stream_format: self.stream_format,
            enable_state_action_on_close: self.enable_state_action_on_close,
        }
    }
}

/// A stream locked by this process.
pub struct PCIe40StreamGuard {
    stream: PCIe40Stream,
}

/// The same lock under the name the earlier stream interface used.
pub type PCIe40LockedStream = PCIe40StreamGuard;

impl PCIe40StreamGuard {
    pub closed spec fn spec_stream(&self) -> PCIe40Stream {
        self.stream
    }

    /// The locked stream.
    pub fn stream(&self) -> (r: &PCIe40Stream)
        ensures
            *r == self.spec_stream(),
    {
        &self.stream
    }

    /// The meta bits the stream's format asks for: set for meta-formatted
    /// packets, cleared for raw fragments.
    pub fn meta_enabled_state(&self) -> (r: bool)
        ensures
            r == (self.spec_stream().spec_stream_format() == PCIe40DAQStreamFormat::MetaFormat),
    {
        match self.stream.stream_format {
            PCIe40DAQStreamFormat::RawFormat => false,
            PCIe40DAQStreamFormat::MetaFormat => true,
        }
    }

    /// Reads the driver's answer to writing the meta bits (0 on success).
    pub fn set_meta_enabled_state(&self, mask_code: i32) -> (r: Result<(), PCIe40StreamError>)
        ensures
            mask_code == 0 ==> r is Ok,
            mask_code != 0 ==> (r matches Err(e) && is_write_error(
                e,
                self.spec_stream().spec_device_id(),
                self.spec_stream().spec_stream_type(),
                "Unable to write meta bits"@,
            )),
    {
        if mask_code != 0 {
            Err(
                PCIe40StreamError::StreamWriteError {
                    device_id: self.stream.device_id,
                    stream_type: self.stream.stream_type,
                    info: "Unable to write meta bits".to_owned(),
                },
            )
        } else {
            Ok(())
        }
    }

    /// Reads the driver's answer to unlocking: 0 when unlocked, positive when
    /// another process holds the lock, negative when it could not be written.
    pub fn ref_unlock(&self, unlock_code: i32) -> (r: Result<(), PCIe40StreamError>)
        ensures
            unlock_code == 0 ==> r is Ok,
            unlock_code > 0 ==> (r matches Err(
                PCIe40StreamError::FailedToUnlockStream { device_id: d, stream_type: t },
            ) && d == self.spec_stream().spec_device_id() && t
                == self.spec_stream().spec_stream_type()),
            unlock_code < 0 ==> (r matches Err(e) && is_write_error(
                e,
                self.spec_stream().spec_device_id(),
                self.spec_stream().spec_stream_type(),
                "Unable to write unlock"@,
            )),
    {
        if unlock_code == 0 {
            Ok(())
        } else if unlock_code > 0 {
            Err(
                PCIe40StreamError::FailedToUnlockStream {
                    device_id: self.stream.device_id,
                    stream_type: self.stream.stream_type,
                },
            )
        } else {
            Err(
                PCIe40StreamError::StreamWriteError {
                    device_id: self.stream.device_id,
                    stream_type: self.stream.stream_type,
                    info: "Unable to write unlock".to_owned(),
                },
            )
        }
    }

    /// Unlocks the stream and hands it back, given the driver's answer.
    pub fn unlock(self, unlock_code: i32) -> (r: Result<PCIe40Stream, PCIe40StreamError>)
        ensures
            unlock_code == 0 ==> (r matches Ok(s) && s == self.spec_stream()),
            unlock_code != 0 ==> r is Err,
    {
        match self.ref_unlock(unlock_code) {
            Ok(()) => Ok(self.stream),
            Err(e) => Err(e),
        }
    }

    /// Reads the driver's answers to mapping the stream's buffer: whether the
    /// mapping's address is null, and the buffer's size (not positive on
    /// error). Answers the size of the mapping to view.
    pub fn map_buffer(&self, address_is_null: bool, buffer_size: i64) -> (r: Result<
        usize,
        PCIe40StreamError,
    >)
        requires
            buffer_size <= usize::MAX,
        ensures
            !address_is_null && buffer_size > 0 ==> r == Ok::<usize, PCIe40StreamError>(
                buffer_size as usize,
            ),
            address_is_null || buffer_size <= 0 ==> (r matches Err(
                PCIe40StreamError::FailedToMapBuffer { device_id: d, stream_type: t },
            ) && d == self.spec_stream().spec_device_id() && t
                == self.spec_stream().spec_stream_type()),
    {
        if address_is_null || buffer_size <= 0 {
            return Err(
                PCIe40StreamError::FailedToMapBuffer {
                    device_id: self.stream.device_id,
                    stream_type: self.stream.stream_type,
                },
            );
        }
        Ok(buffer_size as usize)
    }
}

/// A locked stream's mapped host buffer.
pub struct PCIe40MappedBuffer<'b> {
    device_id: i32,
    stream_type: PCIe40DAQStreamType,
    buffer: &'b [u8],
}

/// The same mapping under the name the earlier stream interface used.
pub type PCIe40MappedStream<'b> = PCIe40MappedBuffer<'b>;

impl<'b> PCIe40MappedBuffer<'b> {
    pub closed spec fn spec_device_id(&self) -> i32 {
        self.device_id
    }

    pub closed spec fn spec_stream_type(&self) -> PCIe40DAQStreamType {
        self.stream_type
    }

    pub closed spec fn spec_data(&self) -> Seq<u8> {
        self.buffer@
    }

    /// The mapping of the guard's stream, over the given bytes.
    pub fn new(guard: &PCIe40StreamGuard, buffer: &'b [u8]) -> (r: Self)
        ensures
            r.spec_device_id() == guard.spec_stream().spec_device_id(),
            r.spec_stream_type() == guard.spec_stream().spec_stream_type(),
            r.spec_data() == buffer@,
    {
        PCIe40MappedBuffer {
            device_id: guard.stream.device_id,
            stream_type: guard.stream.stream_type,
            buffer,
        }
    }

    /// The mapped bytes.
    pub fn data(&self) -> (r: &'b [u8])
        ensures
            r@ == self.spec_data(),
    {
        self.buffer
    }

    fn offset_answer(&self, code: i64, write: bool, info: &str) -> (r: Result<usize, PCIe40StreamError>)
        requires
            code <= usize::MAX,
        ensures
            code >= 0 ==> r == Ok::<usize, PCIe40StreamError>(code as usize),
            code < 0 && !write ==> (r matches Err(e) && is_read_error(
                e,
                self.spec_device_id(),
                self.spec_stream_type(),
                info@,
            )),
            code < 0 && write ==> (r matches Err(e) && is_write_error(
                e,
                self.spec_device_id(),
                self.spec_stream_type(),
                info@,
            )),
    {
        if code < 0 {
            if write {
                Err(
                    PCIe40StreamError::StreamWriteError {
                        device_id: self.device_id,
                        stream_type: self.stream_type,
                        info: info.to_owned(),
                    },
                )
            } else {
                Err(
                    PCIe40StreamError::StreamReadError {
                        device_id: self.device_id,
                        stream_type: self.stream_type,
                        info: info.to_owned(),
                    },
                )
            }
        } else {
            Ok(code as usize)
        }
    }

    /// Reads the driver's answer for the buffer's read offset.
    pub fn get_read_offset(&self, code: i64) -> (r: Result<usize, PCIe40StreamError>)
        requires
            code <= usize::MAX,
        ensures
            code >= 0 ==> r == Ok::<usize, PCIe40StreamError>(code as usize),
            code < 0 ==> (r matches Err(e) && is_read_error(
                e,
                self.spec_device_id(),
                self.spec_stream_type(),
                "Unable to get buffer read offset"@,
            )),
    {
        self.offset_answer(code, false, "Unable to get buffer read offset")
    }

    /// Reads the driver's answer for the buffer's write offset.
    pub fn get_write_offset(&self, code: i64) -> (r: Result<usize, PCIe40StreamError>)
        requires
            code <= usize::MAX,
        ensures
            code >= 0 ==> r == Ok::<usize, PCIe40StreamError>(code as usize),
            code < 0 ==> (r matches Err(e) && is_read_error(
                e,
                self.spec_device_id(),
                self.spec_stream_type(),
                "Unable to get buffer write offset"@,
            )),
    {
        self.offset_answer(code, false, "Unable to get buffer write offset")
    }

    /// Reads the driver's answer for the bytes in use in the buffer.
    pub fn available_bytes(&self, code: i64) -> (r: Result<usize, PCIe40StreamError>)
        requires
            code <= usize::MAX,
        ensures
            code >= 0 ==> r == Ok::<usize, PCIe40StreamError>(code as usize),
            code < 0 ==> (r matches Err(e) && is_read_error(
                e,
                self.spec_device_id(),
                self.spec_stream_type(),
                "Unable to get available bytes on buffer"@,
            )),
    {
        self.offset_answer(code, false, "Unable to get available bytes on buffer")
    }

    /// Whether the read offset of the mapped stream may move `offset` bytes,
    /// given the driver's answer `used_code` for the bytes in use: it may when
    /// that many are in use; otherwise, or when the driver cannot tell, the
    /// answer is a read error and the device is not asked to free anything.
    pub fn check_move_read_offset(&self, offset: usize, used_code: i64) -> (r: Result<
        (),
        PCIe40StreamError,
    >)
        ensures
            used_code >= 0 && used_code >= offset ==> r is Ok,
            used_code < 0 || used_code < offset ==> (r matches Err(e) && is_read_error(
                e,
                self.spec_device_id(),
                self.spec_stream_type(),
                move_refused_text(offset, used_code),
            )),
    {
        if used_code < 0 || (used_code as u64) < (offset as u64) {
            return Err(
                PCIe40StreamError::StreamReadError {
                    device_id: self.device_id,
                    stream_type: self.stream_type,
                    info: move_refused_message(offset, used_code),
                },
            );
        }
        Ok(())
    }

    /// Reads the driver's answer to freeing bytes at the read offset: how
    /// many were freed.
    pub fn move_read_offset(&self, code: i64) -> (r: Result<usize, PCIe40StreamError>)
        requires
            code <= usize::MAX,
        ensures
            code >= 0 ==> r == Ok::<usize, PCIe40StreamError>(code as usize),
            code < 0 ==> (r matches Err(e) && is_write_error(
                e,
                self.spec_device_id(),
                self.spec_stream_type(),
                "Unable to move buffer read offset"@,
            )),
    {
        self.offset_answer(code, true, "Unable to move buffer read offset")
    }
}

/// The message of a refused move of the read offset.
pub open spec fn move_refused_text(offset: usize, available: i64) -> Seq<char> {
    "Cannot move read offset. Requested to move it "@ + dec(offset as nat) + " bytes but only "@
        + signed_dec(available as int) + " available"@
}

fn move_refused_message(offset: usize, available: i64) -> (r: String)
    ensures
        r@ == move_refused_text(offset, available),
{
    let m = push_dec("Cannot move read offset. Requested to move it ".to_owned(), offset as u64);
    push_signed_dec(m.concat(" bytes but only "), available).concat(" available")
}

/// Why a reader of a mapped stream could not be set up.
#[derive(Debug)]
pub enum PCIe40ReaderInstanceError {
    /// The buffer's size is not a multiple of the alignment.
    BufferSizeNotAligned { buffer_size: usize, alignment: usize },
    /// The device's read offset is not a multiple of the alignment.
    ReadOffsetNotAligned { read_offset: usize, alignment: usize },
    /// The driver could not be asked.
    StreamError(PCIe40StreamError),
}

/// Why the read pointer could not be advanced.
#[derive(Debug, Clone, Copy, PartialEq, Eq, Structural)]
pub enum PCIe40AdvanceError {
    /// The device did not free the bytes.
    OutOfBounds,
    /// The resulting offset would not be aligned.
    NotAligned,
}

/// Why packets could not be read from a mapped stream.
#[derive(Debug)]
pub enum PCIe40TypedReadError {
    NotFound,
    NotEnoughData,
    CorruptData,
    StreamError(PCIe40StreamError),
}

/// Where reading `k` packets in a row from `region` stands: the bytes
/// consumed and the bytes from which each packet was read.
pub open spec fn stream_read_state(region: Seq<u8>, align: u8, k: nat) -> Result<
    (int, Seq<Seq<u8>>),
    PCIe40TypedReadError,
>
    decreases k,
{
    if k == 0 {
        Ok((0, Seq::empty()))
    } else {
        match stream_read_state(region, align, (k - 1) as nat) {
            Err(e) => Err(e),
            Ok((adv, els)) => {
                if region.len() < crate::mfp::HEADER_SIZE + adv {
                    Err(PCIe40TypedReadError::NotEnoughData)
                } else {
                    let rest = region.subrange(adv, region.len() as int);
                    if crate::mfp::le16(rest, 0) != crate::mfp::MAGIC_BYTES {
                        Err(PCIe40TypedReadError::CorruptData)
                    } else {
                        let a = crate::mfp::align_pow2(crate::mfp::mfp_packet_size(rest), align as nat);
                        if region.len() < a + adv {
                            Err(PCIe40TypedReadError::NotEnoughData)
                        } else {
                            Ok((adv + a, els.push(rest)))
                        }
                    }
                }
            },
        }
    }
}

proof fn lemma_stream_read_err_persists(region: Seq<u8>, align: u8, k: nat, n: nat)
    requires
        k <= n,
        stream_read_state(region, align, k) is Err,
    ensures
        stream_read_state(region, align, n) == stream_read_state(region, align, k),
    decreases n - k,
{
    if k < n {
        lemma_stream_read_err_persists(region, align, k, (n - 1) as nat);
    }
}

/// A reader of a mapped stream's ring: the mapping, the read offset it
/// keeps, and the alignment of what it reads.
pub struct PCIe40Reader<'b> {
    mapped_buffer: PCIe40MappedBuffer<'b>,
    read_offset: usize,
    alignment_pow2: u8,
}

impl<'b> PCIe40Reader<'b> {
    pub closed spec fn spec_data(&self) -> Seq<u8> {
        self.mapped_buffer.spec_data()
    }

    pub closed spec fn spec_read_offset(&self) -> usize {
        self.read_offset
    }

    pub closed spec fn spec_alignment_pow2(&self) -> u8 {
        self.alignment_pow2
    }

    /// A reader of the mapping, given the driver's answer for its read
    /// offset: the buffer's size and the read offset must both be aligned.
    pub fn new(mapped_buffer: PCIe40MappedBuffer<'b>, alignment_pow2: u8, read_offset_code: i64) -> (r:
        Result<Self, PCIe40ReaderInstanceError>)
        requires
            alignment_pow2 < usize::BITS,
            read_offset_code <= usize::MAX,
        ensures
            ({
                let size = mapped_buffer.spec_data().len();
                let a = vstd::arithmetic::power2::pow2(alignment_pow2 as nat);
                if size % a != 0 {
                    r matches Err(PCIe40ReaderInstanceError::BufferSizeNotAligned { buffer_size: s, alignment: al })
                        && s == size && al == a
                } else if read_offset_code < 0 {
                    r matches Err(PCIe40ReaderInstanceError::StreamError(e)) && is_read_error(
                        e,
                        mapped_buffer.spec_device_id(),
                        mapped_buffer.spec_stream_type(),
                        "Unable to get buffer read offset"@,
                    )
                } else if (read_offset_code as int) % (a as int) != 0 {
                    r matches Err(PCIe40ReaderInstanceError::ReadOffsetNotAligned { read_offset: o, alignment: al })
                        && o == read_offset_code && al == a
                } else {
                    r matches Ok(reader) && reader.spec_data() == mapped_buffer.spec_data()
                        && reader.spec_read_offset() == read_offset_code
                        && reader.spec_alignment_pow2() == alignment_pow2
                }
            }),
    {
        proof {
            vstd::bits::lemma_usize_pow2_no_overflow(alignment_pow2 as nat);
            vstd::bits::lemma_usize_shl_is_mul(1, alignment_pow2 as usize);
        }
        let alignment: usize = 1usize << (alignment_pow2 as usize);
        let buffer_size = mapped_buffer.data().len();
        if !crate::shm_ring::check_alignment_pow2(buffer_size, alignment_pow2) {
            return Err(PCIe40ReaderInstanceError::BufferSizeNotAligned { buffer_size, alignment });
        }
        let read_offset = match mapped_buffer.get_read_offset(read_offset_code) {
            Ok(o) => o,
            Err(e) => return Err(PCIe40ReaderInstanceError::StreamError(e)),
        };
        if !crate::shm_ring::check_alignment_pow2(read_offset, alignment_pow2) {
            return Err(PCIe40ReaderInstanceError::ReadOffsetNotAligned { read_offset, alignment });
        }
        Ok(PCIe40Reader { mapped_buffer, read_offset, alignment_pow2 })
    }

    /// The local read offset.
    pub fn read_offset(&self) -> (r: usize)
        ensures
            r == self.spec_read_offset(),
    {
        self.read_offset
    }

    /// The mapped bytes the reader reads.
    pub fn data(&self) -> (r: &'b [u8])
        ensures
            r@ == self.spec_data(),
    {
        self.mapped_buffer.data()
    }

    /// The alignment exponent of what the reader reads.
    pub fn alignment_pow2(&self) -> (r: u8)
        ensures
            r == self.spec_alignment_pow2(),
    {
        self.alignment_pow2
    }

    /// Moves the read pointer `bytes` forward: the new offset must stay
    /// aligned, and the device must hold that many bytes in use, by its
    /// answer `used_code` (asked only when aligned); only then is the device
    /// asked to free them. The local offset wraps at the end of the buffer.
    pub fn advance_read_pointer(&mut self, bytes: usize, used_code: i64) -> (r: Result<(), PCIe40AdvanceError>)
        requires
            old(self).spec_read_offset() + bytes <= usize::MAX,
            old(self).spec_data().len() > 0,
        ensures
            final(self).spec_data() == old(self).spec_data(),
            final(self).spec_alignment_pow2() == old(self).spec_alignment_pow2(),
            ({
                let next = old(self).spec_read_offset() + bytes;
                let a = vstd::arithmetic::power2::pow2(old(self).spec_alignment_pow2() as nat);
                if next % (a as int) != 0 {
                    r == Err::<(), PCIe40AdvanceError>(PCIe40AdvanceError::NotAligned)
                        && final(self).spec_read_offset() == old(self).spec_read_offset()
                } else if used_code < 0 || used_code < bytes {
                    r == Err::<(), PCIe40AdvanceError>(PCIe40AdvanceError::OutOfBounds)
                        && final(self).spec_read_offset() == old(self).spec_read_offset()
                } else {
                    r is Ok && final(self).spec_read_offset() == next % (old(self).spec_data().len() as int)
                }
            }),
    {
        let next = self.read_offset + bytes;
        if !crate::shm_ring::check_alignment_pow2(next, self.alignment_pow2) {
            return Err(PCIe40AdvanceError::NotAligned);
        }
        if self.mapped_buffer.check_move_read_offset(bytes, used_code).is_err() {
            return Err(PCIe40AdvanceError::OutOfBounds);
        }
        let size = self.mapped_buffer.data().len();
        self.read_offset = next % size;
        Ok(())
    }

    /// Reads the next packet from the readable bytes (given the driver's
    /// answer for the bytes in use): the packet and its size padded to the
    /// alignment, which reading it consumes.
    pub fn read_element(&self, used_code: i64) -> (r: Result<
        (crate::mfp::MultiFragmentPacketRef<'b>, usize),
        PCIe40TypedReadError,
    >)
        requires
            used_code <= usize::MAX,
            used_code >= 0 ==> self.spec_read_offset() + used_code <= self.spec_data().len(),
            self.spec_data().len() <= isize::MAX,
        ensures
            used_code < 0 ==> (r matches Err(PCIe40TypedReadError::StreamError(_))),
            used_code >= 0 ==> ({
                let region = self.spec_data().subrange(
                    self.spec_read_offset() as int,
                    self.spec_read_offset() + used_code,
                );
                match stream_read_state(region, self.spec_alignment_pow2(), 1) {
                    Err(e) => r == Err::<(crate::mfp::MultiFragmentPacketRef<'b>, usize), _>(e),
                    Ok((adv, els)) => r matches Ok((p, consumed)) && consumed == adv && p.bytes()
                        == els[0],
                }
            }),
    {
        match self.read_multiple(used_code, 1) {
            Err(e) => Err(e),
            Ok((mut v, consumed)) => {
                let p = v.pop().unwrap();
                Ok((p, consumed))
            },
        }
    }

    /// Reads `num` packets in a row from the readable bytes (given the
    /// driver's answer for the bytes in use). Answers the packets and the
    /// bytes reading them consumes, each packet padded to the alignment.
    pub fn read_multiple(&self, used_code: i64, num: usize) -> (r: Result<
        (Vec<crate::mfp::MultiFragmentPacketRef<'b>>, usize),
        PCIe40TypedReadError,
    >)
        requires
            used_code <= usize::MAX,
            used_code >= 0 ==> self.spec_read_offset() + used_code <= self.spec_data().len(),
            self.spec_data().len() <= isize::MAX,
        ensures
            used_code < 0 ==> (r matches Err(PCIe40TypedReadError::StreamError(_))),
            used_code >= 0 ==> ({
                let region = self.spec_data().subrange(
                    self.spec_read_offset() as int,
                    self.spec_read_offset() + used_code,
                );
                match stream_read_state(region, self.spec_alignment_pow2(), num as nat) {
                    Err(e) => r == Err::<(Vec<crate::mfp::MultiFragmentPacketRef<'b>>, usize), _>(e),
                    Ok((adv, els)) => r matches Ok((v, consumed)) && consumed == adv && v@.len()
                        == num && forall|i: int| 0 <= i < num ==> (#[trigger] v@[i]).bytes() == els[i],
                }
            }),
    {
        let region = match self.readable_region(used_code) {
            Ok(d) => d,
            Err(e) => return Err(PCIe40TypedReadError::StreamError(e)),
        };
        let len = region.len();
        let ghost align = self.alignment_pow2;
        let mut read: Vec<crate::mfp::MultiFragmentPacketRef<'b>> = Vec::new();
        let mut advance: usize = 0;
        let mut i: usize = 0;
        while i < num
            invariant
                len == region@.len(),
                len <= isize::MAX,
                align == self.alignment_pow2,
                used_code >= 0,
                region@ == self.spec_data().subrange(
                    self.spec_read_offset() as int,
                    self.spec_read_offset() + used_code,
                ),
                i <= num,
                advance <= len,
                stream_read_state(region@, align, i as nat) == Ok::<(int, Seq<Seq<u8>>), PCIe40TypedReadError>(
                    (advance as int, stream_read_state(region@, align, i as nat)->Ok_0.1),
                ),
                stream_read_state(region@, align, i as nat)->Ok_0.1.len() == i,
                read@.len() == i,
                forall|j: int|
                    0 <= j < i ==> (#[trigger] read@[j]).bytes() == stream_read_state(
                        region@,
                        align,
                        i as nat,
                    )->Ok_0.1[j],
            decreases num - i,
        {
            let ghost els = stream_read_state(region@, align, i as nat)->Ok_0.1;
            if len - advance < crate::mfp::HEADER_SIZE {
                proof {
                    lemma_stream_read_err_persists(region@, align, (i + 1) as nat, num as nat);
                }
                return Err(PCIe40TypedReadError::NotEnoughData);
            }
            let rest = vstd::slice::slice_subrange(region, advance, len);
            let element = match crate::mfp::MultiFragmentPacketRef::cast_to_element(rest) {
                Ok(p) => p,
                Err(_) => {
                    proof {
                        lemma_stream_read_err_persists(region@, align, (i + 1) as nat, num as nat);
                    }
                    return Err(PCIe40TypedReadError::CorruptData);
                },
            };
            let size = element.packet_size();
            proof {
                crate::mfp::lemma_align_pow2_bounds(size as int, align as nat);
            }
            match crate::mfp::aligned_size_within(size, self.alignment_pow2, (len - advance) as u64) {
                None => {
                    proof {
                        lemma_stream_read_err_persists(region@, align, (i + 1) as nat, num as nat);
                    }
                    return Err(PCIe40TypedReadError::NotEnoughData);
                },
                Some(a) => {
                    read.push(element);
                    advance = advance + a as usize;
                    proof {
                        let next = stream_read_state(region@, align, (i + 1) as nat);
                        assert(next->Ok_0.1 == els.push(rest@));
                        assert forall|j: int| 0 <= j < i + 1 implies (#[trigger] read@[j]).bytes()
                            == next->Ok_0.1[j] by {
                            if j < i {
                                assert(next->Ok_0.1[j] == els[j]);
                            }
                        }
                    }
                },
            }
            i = i + 1;
        }
        Ok((read, advance))
    }

    /// The readable bytes, given the driver's answer for the bytes in use:
    /// from the read offset on, as many as are in use.
    pub fn readable_region(&self, used_code: i64) -> (r: Result<&'b [u8], PCIe40StreamError>)
        requires
            used_code <= usize::MAX,
            used_code >= 0 ==> self.spec_read_offset() + used_code <= self.spec_data().len(),
        ensures
            used_code < 0 ==> r is Err,
            used_code >= 0 ==> (r matches Ok(d) && d@ == self.spec_data().subrange(
                self.spec_read_offset() as int,
                self.spec_read_offset() + used_code,
            )),
    {
        let available = match self.mapped_buffer.available_bytes(used_code) {
            Ok(n) => n,
            Err(e) => return Err(e),
        };
        let data = self.mapped_buffer.data();
        let len = data.len();
        assert(self.read_offset + available <= len);
        Ok(vstd::slice::slice_subrange(data, self.read_offset, self.read_offset + available))
    }
}

/// A stream that is enabled and not locked, in the earlier stream interface.
pub struct PCIe40EnabledStream {
    stream_handle: PCIe40Stream,
}

impl PCIe40EnabledStream {
    pub closed spec fn spec_stream(&self) -> PCIe40Stream {
        self.stream_handle
    }

    /// Enables `stream`: `enabled_code` is the driver's answer to the enabled
    /// query, `enable_code` its answer to enabling (consulted only when the
    /// stream was not enabled).
    pub fn enable(stream: PCIe40Stream, enabled_code: i32, enable_code: i32) -> (r: Result<
        PCIe40EnabledStream,
        PCIe40StreamError,
    >)
        ensures
            enabled_code < 0 ==> r is Err,
            enabled_code > 0 ==> (r matches Ok(s) && s.spec_stream() == stream),
            enabled_code == 0 && enable_code == 0 ==> (r matches Ok(s) && s.spec_stream() == stream),
            enabled_code == 0 && enable_code != 0 ==> (r matches Err(
                PCIe40StreamError::FailedToEnableStream { device_id: d, stream_type: t },
            ) && d == stream.spec_device_id() && t == stream.spec_stream_type()),
    {
        match stream.enable_needed(enabled_code) {
            Err(e) => Err(e),
            Ok(false) => Ok(PCIe40EnabledStream { stream_handle: stream }),
            Ok(true) => match stream.enable_result(enable_code) {
                Ok(()) => Ok(PCIe40EnabledStream { stream_handle: stream }),
                Err(e) => Err(e),
            },
        }
    }

    /// Hands the stream back; what closing does to its enable state is the
    /// stream's own decision.
    pub fn close(self) -> (r: PCIe40Stream)
        ensures
            r == self.spec_stream(),
    {
        self.stream_handle
    }

    /// Reads the driver's answer to which process holds the stream's lock.
    pub fn locking_process(&self, locker_code: i32) -> (r: Result<Option<i32>, PCIe40StreamError>)
        ensures
            locker_code == 0 ==> r == Ok::<Option<i32>, PCIe40StreamError>(None),
            locker_code > 0 ==> r == Ok::<Option<i32>, PCIe40StreamError>(Some(locker_code)),
            locker_code < 0 ==> r is Err,
    {
        self.stream_handle.locking_process(locker_code)
    }

    /// Locks the stream, given the driver's answer to the lock.
    pub fn lock(self, lock_code: i32) -> (r: Result<PCIe40LockedStream, PCIe40StreamError>)
        ensures
            lock_code == 0 ==> (r matches Ok(g) && g.spec_stream() == self.spec_stream()),
            lock_code != 0 ==> r is Err,
    {
        self.stream_handle.lock(lock_code)
    }
}

impl PCIe40StreamGuard {
    /// Unlocks the stream, given the driver's answer, and hands back the
    /// enabled stream.
    pub fn unlock_enabled(self, unlock_code: i32) -> (r: Result<
        PCIe40EnabledStream,
        PCIe40StreamError,
    >)
        ensures
            unlock_code == 0 ==> (r matches Ok(s) && s.spec_stream() == self.spec_stream()),
            unlock_code != 0 ==> r is Err,
    {
        match self.ref_unlock(unlock_code) {
            Ok(()) => Ok(PCIe40EnabledStream { stream_handle: self.stream }),
            Err(e) => Err(e),
        }
    }
}

} // verus!
