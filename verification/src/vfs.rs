//! The frontend's virtual file system: interface version, access, hint and
//! stat flags, seek origins, and the close protocol of file and directory
//! handles.

use crate::flags::{BitFlags, FlagBit};
use crate::raw::{
    RETRO_VFS_FILE_ACCESS_HINT_FREQUENT_ACCESS, RETRO_VFS_FILE_ACCESS_READ,
    RETRO_VFS_FILE_ACCESS_UPDATE_EXISTING, RETRO_VFS_FILE_ACCESS_WRITE,
    RETRO_VFS_SEEK_POSITION_CURRENT, RETRO_VFS_SEEK_POSITION_END, RETRO_VFS_SEEK_POSITION_START,
    RETRO_VFS_STAT_IS_CHARACTER_SPECIAL, RETRO_VFS_STAT_IS_DIRECTORY, RETRO_VFS_STAT_IS_VALID,
};
use vstd::prelude::*;

verus! {

/// Version of the VFS interface the frontend provides.
#[derive(Clone, Copy, Debug, Default, PartialEq, Eq, PartialOrd, Ord, Hash, Structural)]
pub struct VfsInterfaceVersion(u32);

impl View for VfsInterfaceVersion {
    type V = u32;

    closed spec fn view(&self) -> u32 {
        self.0
    }
}

impl VfsInterfaceVersion {
    /// A value is determined by its view: two values are equal exactly
    /// when their views are.
    pub proof fn lemma_view_injective(a: Self, b: Self)
        ensures
            a@ == b@ <==> a == b,
    {
    }
}

impl VfsInterfaceVersion {
    pub fn new(value: u32) -> (version: Self)
        ensures
            version@ == value,
    {
        VfsInterfaceVersion(value)
    }

    pub fn get(self) -> (value: u32)
        ensures
            value == self@,
    {
        self.0
    }
}

/// How a file is opened (`RETRO_VFS_FILE_ACCESS_*`).
#[derive(Clone, Copy, Debug, PartialEq, Eq, Structural)]
pub enum VfsFileAccess {
    Read,
    Write,
    UpdateExisting,
}

impl FlagBit for VfsFileAccess {
    open spec fn spec_bit(self) -> u64 {
        match self {
            VfsFileAccess::Read => RETRO_VFS_FILE_ACCESS_READ as u64,
            VfsFileAccess::Write => RETRO_VFS_FILE_ACCESS_WRITE as u64,
            VfsFileAccess::UpdateExisting => RETRO_VFS_FILE_ACCESS_UPDATE_EXISTING as u64,
        }
    }

    open spec fn spec_all_bits() -> u64 {
        7
    }

    fn bit(self) -> (b: u64) {
        match self {
            VfsFileAccess::Read => RETRO_VFS_FILE_ACCESS_READ as u64,
            VfsFileAccess::Write => RETRO_VFS_FILE_ACCESS_WRITE as u64,
            VfsFileAccess::UpdateExisting => RETRO_VFS_FILE_ACCESS_UPDATE_EXISTING as u64,
        }
    }

    fn all_bits() -> (m: u64) {
        7
    }
}

pub type VfsFileAccessFlags = BitFlags<VfsFileAccess>;

/// Access pattern hints for an opened file.
#[derive(Clone, Copy, Debug, PartialEq, Eq, Structural)]
pub enum VfsFileAccessHint {
    FrequentAccess,
}

impl FlagBit for VfsFileAccessHint {
    open spec fn spec_bit(self) -> u64 {
        RETRO_VFS_FILE_ACCESS_HINT_FREQUENT_ACCESS as u64
    }

    open spec fn spec_all_bits() -> u64 {
        1
    }

    fn bit(self) -> (b: u64) {
        RETRO_VFS_FILE_ACCESS_HINT_FREQUENT_ACCESS as u64
    }

    fn all_bits() -> (m: u64) {
        1
    }
}

pub type VfsFileAccessHints = BitFlags<VfsFileAccessHint>;

/// Origin of a seek.
#[derive(Clone, Copy, Debug, PartialEq, Eq, Hash, Structural)]
pub enum VfsSeekPosition {
    Start,
    Current,
    End,
}

impl VfsSeekPosition {
    pub open spec fn spec_as_raw(self) -> i32 {
        match self {
            VfsSeekPosition::Start => RETRO_VFS_SEEK_POSITION_START,
            VfsSeekPosition::Current => RETRO_VFS_SEEK_POSITION_CURRENT,
            VfsSeekPosition::End => RETRO_VFS_SEEK_POSITION_END,
        }
    }

    pub fn as_raw(self) -> (raw: i32)
        ensures
            raw == self.spec_as_raw(),
    {
        match self {
            VfsSeekPosition::Start => RETRO_VFS_SEEK_POSITION_START,
            VfsSeekPosition::Current => RETRO_VFS_SEEK_POSITION_CURRENT,
            VfsSeekPosition::End => RETRO_VFS_SEEK_POSITION_END,
        }
    }
}

/// What a stat of a path reports (`RETRO_VFS_STAT_*`).
#[derive(Clone, Copy, Debug, PartialEq, Eq, Structural)]
pub enum VfsStatFlag {
    Valid,
    Directory,
    CharacterSpecial,
}

impl FlagBit for VfsStatFlag {
    open spec fn spec_bit(self) -> u64 {
        match self {
            VfsStatFlag::Valid => RETRO_VFS_STAT_IS_VALID as u64,
            VfsStatFlag::Directory => RETRO_VFS_STAT_IS_DIRECTORY as u64,
            VfsStatFlag::CharacterSpecial => RETRO_VFS_STAT_IS_CHARACTER_SPECIAL as u64,
        }
    }

    open spec fn spec_all_bits() -> u64 {
        7
    }

    fn bit(self) -> (b: u64) {
        match self {
            VfsStatFlag::Valid => RETRO_VFS_STAT_IS_VALID as u64,
            VfsStatFlag::Directory => RETRO_VFS_STAT_IS_DIRECTORY as u64,
            VfsStatFlag::CharacterSpecial => RETRO_VFS_STAT_IS_CHARACTER_SPECIAL as u64,
        }
    }

    fn all_bits() -> (m: u64) {
        7
    }
}

pub type VfsStatFlags = BitFlags<VfsStatFlag>;

/// What a stat found: its flags and the size the frontend reported.
#[derive(Clone, Copy)]
pub struct VfsMetadata {
    pub flags: VfsStatFlags,
    pub size: Option<i32>,
}

/// The metadata of a stat, given the flag word and size the frontend's
/// `stat` returned: none where the flag word is 0, otherwise its known flags
/// and the size.
pub fn vfs_metadata_from_stat(flags: i32, size: i32) -> (metadata: Option<VfsMetadata>)
    ensures
        flags == 0 ==> metadata is None,
        flags != 0 ==> (metadata matches Some(m) && m.flags.spec_bits() == (flags as u32 as u64) & 7
            && m.size == Some(size)),
{
    if flags == 0 {
        None
    } else {
        Some(VfsMetadata { flags: VfsStatFlags::from_bits_truncate(flags as u32 as u64), size: Some(size) })
    }
}

/// `value` where it is not negative (the frontend's failure results are).
pub fn nonnegative_i64(value: i64) -> (result: Option<i64>)
    ensures
        value >= 0 ==> result == Some(value),
        value < 0 ==> result is None,
{
    if value >= 0 {
        Some(value)
    } else {
        None
    }
}

/// The frontend's VFS interface: its version and which entry points it
/// provides.
#[derive(Clone, Copy, Debug, Default, PartialEq, Eq, Structural)]
pub struct VfsInterface {
    pub version: VfsInterfaceVersion,
    pub get_path: bool,
    pub open: bool,
    pub close: bool,
    pub size: bool,
    pub tell: bool,
    pub seek: bool,
    pub read: bool,
    pub write: bool,
    pub flush: bool,
    pub remove: bool,
    pub rename: bool,
    pub truncate: bool,
    pub stat: bool,
    pub mkdir: bool,
    pub opendir: bool,
    pub readdir: bool,
    pub dirent_get_name: bool,
    pub dirent_is_dir: bool,
    pub closedir: bool,
}

impl VfsInterface {
    pub fn version(self) -> (version: VfsInterfaceVersion)
        ensures
            version == self.version,
    {
        self.version
    }
}

/// What closing a handle comes to: it was already closed (success), the
/// frontend has no close entry point (failure), or the frontend's close must
/// be called, whose status 0 is success.
#[derive(Clone, Copy, Debug, PartialEq, Eq, Structural)]
pub enum VfsCloseStep {
    AlreadyClosed,
    NoCloseEntryPoint,
    CallFrontend,
}

impl VfsCloseStep {
    /// Whether the close succeeded, given the frontend's status where it was
    /// called.
    pub fn succeeded(self, frontend_status: i32) -> (ok: bool)
        ensures
            ok == match self {
                VfsCloseStep::AlreadyClosed => true,
                VfsCloseStep::NoCloseEntryPoint => false,
                VfsCloseStep::CallFrontend => frontend_status == 0,
            },
    {
        match self {
            VfsCloseStep::AlreadyClosed => true,
            VfsCloseStep::NoCloseEntryPoint => false,
            VfsCloseStep::CallFrontend => frontend_status == 0,
        }
    }
}

/// The close protocol of a handle: once closed, it stays closed, and the
/// frontend is asked to close it at most once.
pub open spec fn spec_close_step(closed: bool, has_close: bool) -> VfsCloseStep {
    if closed {
        VfsCloseStep::AlreadyClosed
    } else if has_close {
        VfsCloseStep::CallFrontend
    } else {
        VfsCloseStep::NoCloseEntryPoint
    }
}

/// An open VFS file as far as closing it goes.
#[derive(Clone, Copy, Debug, PartialEq, Eq, Structural)]
pub struct VfsFile {
    pub closed: bool,
    pub has_close: bool,
}

impl VfsFile {
    /// Marks the file closed and says what closing it takes.
    pub fn close(&mut self) -> (step: VfsCloseStep)
        ensures
            step == spec_close_step(old(self).closed, old(self).has_close),
            final(self).closed,
            final(self).has_close == old(self).has_close,
    {
        if self.closed {
            return VfsCloseStep::AlreadyClosed;
        }
        self.closed = true;
        if self.has_close {
            VfsCloseStep::CallFrontend
        } else {
            VfsCloseStep::NoCloseEntryPoint
        }
    }
}

/// An open VFS directory as far as closing it goes.
#[derive(Clone, Copy, Debug, PartialEq, Eq, Structural)]
pub struct VfsDirectory {
    pub closed: bool,
    pub has_closedir: bool,
}

impl VfsDirectory {
    /// Marks the directory closed and says what closing it takes.
    pub fn close(&mut self) -> (step: VfsCloseStep)
        ensures
            step == spec_close_step(old(self).closed, old(self).has_closedir),
            final(self).closed,
            final(self).has_closedir == old(self).has_closedir,
    {
        if self.closed {
            return VfsCloseStep::AlreadyClosed;
        }
        self.closed = true;
        if self.has_closedir {
            VfsCloseStep::CallFrontend
        } else {
            VfsCloseStep::NoCloseEntryPoint
        }
    }
}

/// Closing a handle that `close` has marked closed never reaches the
/// frontend again and succeeds.
pub proof fn lemma_close_is_idempotent(has_close: bool)
    ensures
        spec_close_step(true, has_close) == VfsCloseStep::AlreadyClosed,
{
}

} // verus!
