//! Maps: the kernel-side associative arrays an object declares, their
//! descriptor records, and their materialization handles.

use vstd::prelude::*;
use vstd::utf8::encode_utf8;

use crate::error::{LoadError, ParseFault};
use crate::wire::{check_no_nul, le32, no_nul, read_u32};

verus! {

/// The map type through which programs emit event records into per-cpu
/// rings.
pub const MAP_TYPE_PERF_EVENT_ARRAY: u32 = 4;

/// A map descriptor exactly as a `maps/NAME` section stores it: five
/// 32-bit little-endian fields.
#[derive(Clone, Copy, Debug, PartialEq, Eq, Structural)]
pub struct MapDef {
    /// The map type tag.
    pub kind: u32,
    pub key_size: u32,
    pub value_size: u32,
    pub max_entries: u32,
    pub map_flags: u32,
}

/// The descriptor stored at the head of a map section.
pub open spec fn spec_map_def(d: Seq<u8>) -> MapDef
    recommends
        d.len() >= 20,
{
    MapDef {
        kind: le32(d, 0) as u32,
        key_size: le32(d, 4) as u32,
        value_size: le32(d, 8) as u32,
        max_entries: le32(d, 12) as u32,
        map_flags: le32(d, 16) as u32,
    }
}

/// Reads a map descriptor; a section shorter than one whole record is a
/// fault. Bytes past the record are ignored.
pub fn parse_map_def(d: &[u8]) -> (r: Result<MapDef, ParseFault>)
    ensures
        match r {
            Ok(def) => d@.len() >= 20 && def == spec_map_def(d@),
            Err(f) => d@.len() < 20 && f == ParseFault::MapDescriptor,
        },
{
    if d.len() < 20 {
        return Err(ParseFault::MapDescriptor);
    }
    Ok(
        MapDef {
            kind: read_u32(d, 0),
            key_size: read_u32(d, 4),
            value_size: read_u32(d, 8),
            max_entries: read_u32(d, 12),
            map_flags: read_u32(d, 16),
        },
    )
}

/// Everything the kernel needs to create one map.
pub struct MapCreateRequest {
    pub kind: u32,
    /// NUL-free map name.
    pub name: Vec<u8>,
    pub key_size: u32,
    pub value_size: u32,
    pub max_entries: u32,
    pub map_flags: u32,
}

/// A declared kernel map: its name, its descriptor, and the kernel
/// handle once it is materialized.
pub struct KernelMap {
    pub name: String,
    /// The map type tag, as the descriptor declares it.
    pub kind: u32,
    /// Kernel handle; present exactly when the map is materialized.
    pub fd: Option<i32>,
    /// Index of the section that declared this map; relocations resolve
    /// to it by this index.
    pub section_index: usize,
    /// The full descriptor record.
    pub config: MapDef,
}

impl KernelMap {
    /// The structural invariant: the type tag mirrors the descriptor
    /// and a materialized handle is a non-negative descriptor.
    pub open spec fn wf(self) -> bool {
        &&& self.kind == self.config.kind
        &&& self.fd matches Some(fd) ==> fd >= 0
    }

    pub open spec fn spec_is_materialized(self) -> bool {
        self.fd is Some
    }

    /// Builds a map from its section name and the section's bytes. The
    /// kernel handle is not assigned here; `create_request` and
    /// `materialize` do that against the kernel's answer.
    pub fn load(name: &str, code: &[u8]) -> (r: Result<KernelMap, LoadError>)
        ensures
            match r {
                Ok(m) => {
                    &&& m.wf()
                    &&& !m.spec_is_materialized()
                    &&& code@.len() >= 20
                    &&& m.name@ == name@
                    &&& m.config == spec_map_def(code@)
                    &&& m.kind == spec_map_def(code@).kind
                    &&& m.section_index == 0
                },
                Err(LoadError::Parse(f)) => f == ParseFault::MapDescriptor && code@.len() < 20,
                Err(_) => false,
            },
    {
        let config = match parse_map_def(code) {
            Ok(c) => c,
            Err(f) => {
                return Err(LoadError::Parse(f));
            },
        };
        Ok(KernelMap { name: name.to_owned(), kind: config.kind, fd: None, section_index: 0, config })
    }

    /// States what must be handed to the kernel to create this map: the
    /// descriptor's five fields and the NUL-free name.
    pub fn create_request(&self) -> (r: Result<MapCreateRequest, LoadError>)
        ensures
            match r {
                Ok(req) => {
                    &&& no_nul(encode_utf8(self.name@))
                    &&& req.kind == self.config.kind
                    &&& req.name@ == encode_utf8(self.name@)
                    &&& req.key_size == self.config.key_size
                    &&& req.value_size == self.config.value_size
                    &&& req.max_entries == self.config.max_entries
                    &&& req.map_flags == self.config.map_flags
                },
                Err(LoadError::StringConversion) => !no_nul(encode_utf8(self.name@)),
                Err(_) => false,
            },
    {
        let name_bytes = vstd::slice::slice_to_vec(self.name.as_str().as_bytes());
        if !check_no_nul(name_bytes.as_slice()) {
            return Err(LoadError::StringConversion);
        }
        Ok(
            MapCreateRequest {
                kind: self.config.kind,
                name: name_bytes,
                key_size: self.config.key_size,
                value_size: self.config.value_size,
                max_entries: self.config.max_entries,
                map_flags: self.config.map_flags,
            },
        )
    }

    /// Records the kernel's answer to a create request. A non-negative
    /// descriptor becomes the map's handle; a negative answer leaves
    /// the map untouched and surfaces the detail.
    pub fn materialize(&mut self, fd: i32, detail: String) -> (r: Result<i32, LoadError>)
        requires
            old(self).wf(),
        ensures
            final(self).wf(),
            final(self).name@ == old(self).name@,
            final(self).kind == old(self).kind,
            final(self).config == old(self).config,
            final(self).section_index == old(self).section_index,
            match r {
                Ok(got) => {
                    &&& fd >= 0
                    &&& got == fd
                    &&& final(self).fd == Some(fd)
                },
                Err(LoadError::BPF(m)) => {
                    &&& fd < 0
                    &&& m == detail
                    &&& *final(self) == *old(self)
                },
                Err(_) => false,
            },
    {
        if fd < 0 {
            Err(LoadError::BPF(detail))
        } else {
            self.fd = Some(fd);
            Ok(fd)
        }
    }
}

} // verus!
