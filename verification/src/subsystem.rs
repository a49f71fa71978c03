//! Subsystem descriptions: special content types made of several ROMs, each
//! with its own save memory.

use vstd::prelude::*;

verus! {

/// The core's id for a subsystem.
#[derive(Clone, Copy, Debug, Default, PartialEq, Eq, Hash, Structural)]
pub struct SubsystemId(u32);

impl View for SubsystemId {
    type V = u32;

    closed spec fn view(&self) -> u32 {
        self.0
    }
}

impl SubsystemId {
    /// A value is determined by its view: two values are equal exactly
    /// when their views are.
    pub proof fn lemma_view_injective(a: Self, b: Self)
        ensures
            a@ == b@ <==> a == b,
    {
    }
}

impl SubsystemId {
    pub fn new(id: u32) -> (subsystem: Self)
        ensures
            subsystem@ == id,
    {
        SubsystemId(id)
    }

    pub fn as_raw(self) -> (id: u32)
        ensures
            id == self@,
    {
        self.0
    }
}

impl From<u32> for SubsystemId {
    fn from(id: u32) -> (subsystem: Self)
        ensures
            subsystem@ == id,
    {
        SubsystemId::new(id)
    }
}

impl vstd::std_specs::convert::FromSpecImpl<u32> for SubsystemId {
    open spec fn obeys_from_spec() -> bool {
        true
    }

    closed spec fn from_spec(id: u32) -> Self {
        SubsystemId(id)
    }
}

/// The memory type id of a subsystem save memory.
#[derive(Clone, Copy, Debug, Default, PartialEq, Eq, Hash, Structural)]
pub struct SubsystemMemoryType(u32);

impl View for SubsystemMemoryType {
    type V = u32;

    closed spec fn view(&self) -> u32 {
        self.0
    }
}

impl SubsystemMemoryType {
    /// A value is determined by its view: two values are equal exactly
    /// when their views are.
    pub proof fn lemma_view_injective(a: Self, b: Self)
        ensures
            a@ == b@ <==> a == b,
    {
    }
}

impl SubsystemMemoryType {
    pub fn new(memory_type: u32) -> (kind: Self)
        ensures
            kind@ == memory_type,
    {
        SubsystemMemoryType(memory_type)
    }

    pub fn as_raw(self) -> (memory_type: u32)
        ensures
            memory_type == self@,
    {
        self.0
    }
}

impl From<u32> for SubsystemMemoryType {
    fn from(memory_type: u32) -> (kind: Self)
        ensures
            kind@ == memory_type,
    {
        SubsystemMemoryType::new(memory_type)
    }
}

impl vstd::std_specs::convert::FromSpecImpl<u32> for SubsystemMemoryType {
    open spec fn obeys_from_spec() -> bool {
        true
    }

    closed spec fn from_spec(memory_type: u32) -> Self {
        SubsystemMemoryType(memory_type)
    }
}

/// A save memory of a subsystem ROM: its file extension and memory type.
#[derive(Clone, Debug, PartialEq, Eq)]
pub struct SubsystemMemoryInfo {
    pub extension: String,
    pub memory_type: SubsystemMemoryType,
}

impl SubsystemMemoryInfo {
    pub fn new(extension: &str, memory_type: SubsystemMemoryType) -> (info: Self)
        ensures
            info.extension@ == extension@,
            info.memory_type == memory_type,
    {
        SubsystemMemoryInfo { extension: extension.to_owned(), memory_type }
    }
}

/// One ROM of a subsystem.
#[derive(Clone, Debug, PartialEq, Eq)]
pub struct SubsystemRomInfo {
    pub description: String,
    pub valid_extensions: String,
    pub need_fullpath: bool,
    pub block_extract: bool,
    pub required: bool,
    pub memory: Vec<SubsystemMemoryInfo>,
}

impl SubsystemRomInfo {
    /// A required ROM that needs neither a full path nor blocked extraction
    /// and has no save memory.
    pub fn new(description: &str, valid_extensions: &str) -> (rom: Self)
        ensures
            rom.description@ == description@,
            rom.valid_extensions@ == valid_extensions@,
            !rom.need_fullpath,
            !rom.block_extract,
            rom.required,
            rom.memory@.len() == 0,
    {
        SubsystemRomInfo {
            description: description.to_owned(),
            valid_extensions: valid_extensions.to_owned(),
            need_fullpath: false,
            block_extract: false,
            required: true,
            memory: Vec::new(),
        }
    }

    pub fn with_need_fullpath(self, need_fullpath: bool) -> (rom: Self)
        ensures
            rom == (SubsystemRomInfo { need_fullpath, ..self }),
    {
        SubsystemRomInfo { need_fullpath, ..self }
    }

    pub fn with_block_extract(self, block_extract: bool) -> (rom: Self)
        ensures
            rom == (SubsystemRomInfo { block_extract, ..self }),
    {
        SubsystemRomInfo { block_extract, ..self }
    }

    pub fn with_required(self, required: bool) -> (rom: Self)
        ensures
            rom == (SubsystemRomInfo { required, ..self }),
    {
        SubsystemRomInfo { required, ..self }
    }

    /// This ROM with its save memories replaced by `memory`.
    pub fn with_memory(self, memory: Vec<SubsystemMemoryInfo>) -> (rom: Self)
        ensures
            rom == (SubsystemRomInfo { memory, ..self }),
    {
        SubsystemRomInfo { memory, ..self }
    }
}

/// A subsystem: its description, identifier, id and ROMs.
#[derive(Clone, Debug, PartialEq, Eq)]
pub struct SubsystemInfo {
    pub description: String,
    pub identifier: String,
    pub id: SubsystemId,
    pub roms: Vec<SubsystemRomInfo>,
}

impl SubsystemInfo {
    /// A subsystem without ROMs.
    pub fn new(description: &str, identifier: &str, id: SubsystemId) -> (info: Self)
        ensures
            info.description@ == description@,
            info.identifier@ == identifier@,
            info.id == id,
            info.roms@.len() == 0,
    {
        SubsystemInfo {
            description: description.to_owned(),
            identifier: identifier.to_owned(),
            id,
            roms: Vec::new(),
        }
    }

    /// This subsystem with its ROMs replaced by `roms`.
    pub fn with_roms(self, roms: Vec<SubsystemRomInfo>) -> (info: Self)
        ensures
            info == (SubsystemInfo { roms, ..self }),
    {
        SubsystemInfo { roms, ..self }
    }
}

} // verus!
