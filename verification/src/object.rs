//! The introspected view of one opened artifact: its maps and programs as
//! plain descriptors, the canonicalization of internal map names, and the
//! classification of maps as memory-mappable and read-only.

use vstd::prelude::*;
use vstd::string::*;
use crate::error::GenError;
use crate::names::{seq_ends_with, str_ends_with};

verus! {

/// Map flag bit: the map is backed by a memory-mappable page region.
pub const BPF_F_MMAPABLE: u32 = 1024;

/// Map flag bit: the map is read-only from the program side.
pub const BPF_F_RDONLY_PROG: u32 = 128;

/// One map of an opened artifact. `raw_name` is `None` when the artifact
/// holds no retrievable, valid-text name for the map.
#[derive(Debug)]
pub struct MapDesc {
    pub raw_name: Option<String>,
    pub internal: bool,
    pub map_flags: u32,
}

/// One program of an opened artifact; programs are otherwise opaque to this
/// pipeline.
#[derive(Debug)]
pub struct ProgDesc {
    pub name: Option<String>,
}

/// The view of an optional name.
pub open spec fn opt_str_view(o: Option<String>) -> Option<Seq<char>> {
    match o {
        Some(s) => Some(s@),
        None => None,
    }
}

/// The canonical name of an internal map: a fixed name for each recognized
/// suffix, and `None` (skip the map) for everything else.
pub open spec fn spec_canonical_name(s: Seq<char>) -> Option<Seq<char>> {
    if seq_ends_with(s, ".data"@) {
        Some("data"@)
    } else if seq_ends_with(s, ".rodata"@) {
        Some("rodata"@)
    } else if seq_ends_with(s, ".bss"@) {
        Some("bss"@)
    } else if seq_ends_with(s, ".kconfig"@) {
        Some("kconfig"@)
    } else {
        None
    }
}

/// Canonicalizes the raw name of an internal map. `None` means the name is
/// unrecognized and the map is skipped during generation (not an error).
pub fn canonicalize_internal_map_name(s: &str) -> (r: Option<String>)
    ensures
        opt_str_view(r) == spec_canonical_name(s@),
{
    if str_ends_with(s, ".data") {
        Some("data".to_owned())
    } else if str_ends_with(s, ".rodata") {
        Some("rodata".to_owned())
    } else if str_ends_with(s, ".bss") {
        Some("bss".to_owned())
    } else if str_ends_with(s, ".kconfig") {
        Some("kconfig".to_owned())
    } else {
        None
    }
}

/// Reads a map's raw name, failing when the artifact holds none.
pub fn get_raw_map_name(map: &MapDesc) -> (r: Result<String, GenError>)
    ensures
        r is Ok <==> map.raw_name is Some,
        r is Ok ==> r->Ok_0@ == map.raw_name->0@,
        r is Err ==> r->Err_0 == GenError::NameError,
{
    match &map.raw_name {
        Some(n) => Ok(n.clone()),
        None => Err(GenError::NameError),
    }
}

/// The name a map carries in generated bindings: the raw name for a
/// user-defined map, the canonical name for an internal one (meaningful
/// only when the map has a raw name).
pub open spec fn spec_map_name(m: MapDesc) -> Option<Seq<char>> {
    if !m.internal {
        Some(m.raw_name->0@)
    } else {
        spec_canonical_name(m.raw_name->0@)
    }
}

/// Same as `get_raw_map_name` except the name is canonicalized for internal
/// maps; `Ok(None)` means the map is skipped during generation.
pub fn get_map_name(map: &MapDesc) -> (r: Result<Option<String>, GenError>)
    ensures
        r is Ok <==> map.raw_name is Some,
        r is Ok ==> opt_str_view(r->Ok_0) == spec_map_name(*map),
        r is Err ==> r->Err_0 == GenError::NameError,
{
    match &map.raw_name {
        Some(n) => {
            if !map.internal {
                Ok(Some(n.clone()))
            } else {
                Ok(canonicalize_internal_map_name(n.as_str()))
            }
        },
        None => Err(GenError::NameError),
    }
}

/// Reads a program's name, failing when the artifact holds none.
pub fn get_prog_name(prog: &ProgDesc) -> (r: Result<String, GenError>)
    ensures
        r is Ok <==> prog.name is Some,
        r is Ok ==> r->Ok_0@ == prog.name->0@,
        r is Err ==> r->Err_0 == GenError::NameError,
{
    match &prog.name {
        Some(n) => Ok(n.clone()),
        None => Err(GenError::NameError),
    }
}

/// A map is memory-mappable iff it is internal, its flag bitfield has the
/// mappable bit set, and it has a resolvable canonical name.
pub open spec fn spec_mmapable(m: MapDesc) -> bool {
    &&& m.internal
    &&& m.map_flags & BPF_F_MMAPABLE != 0
    &&& m.raw_name is Some
    &&& spec_canonical_name(m.raw_name->0@) is Some
}

/// Classifies a map as memory-mappable.
pub fn map_is_mmapable(map: &MapDesc) -> (r: bool)
    ensures
        r == spec_mmapable(*map),
{
    if !map.internal {
        return false;
    }
    if map.map_flags & BPF_F_MMAPABLE == 0 {
        return false;
    }
    match &map.raw_name {
        None => false,
        Some(n) => canonicalize_internal_map_name(n.as_str()).is_some(),
    }
}

/// A mappable map is read-only iff the read-only-from-program bit is set.
/// Asking this of a non-mappable map is a contract violation, not a normal
/// outcome.
pub fn map_is_readonly(map: &MapDesc) -> (r: bool)
    requires
        spec_mmapable(*map),
    ensures
        r == (map.map_flags & BPF_F_RDONLY_PROG != 0),
{
    map.map_flags & BPF_F_RDONLY_PROG != 0
}

/// Every map of the artifact has a retrievable raw name.
pub open spec fn all_maps_named(maps: Seq<MapDesc>) -> bool {
    forall|i: int| 0 <= i < maps.len() ==> (#[trigger] maps[i]).raw_name is Some
}

/// Every program of the artifact has a retrievable name.
pub open spec fn all_progs_named(progs: Seq<ProgDesc>) -> bool {
    forall|i: int| 0 <= i < progs.len() ==> (#[trigger] progs[i]).name is Some
}

} // verus!
