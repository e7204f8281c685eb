//! The skeleton synthesizer: turns the introspected view of one artifact
//! (maps, programs, type graph, raw bytes) into the text of a generated
//! binding module encoding the open -> load -> attach lifecycle, and emits
//! the per-package index module re-exporting every generated binding.

use vstd::prelude::*;
use vstd::string::*;
use crate::btf::{spec_type_definition, Btf, BtfType};
use crate::error::{res_str_view, GenError};
use crate::names::{capitalize_first_letter, spec_capitalize};
use crate::object::{
    all_maps_named, all_progs_named, canonicalize_internal_map_name, get_map_name, get_prog_name,
    get_raw_map_name,
    map_is_mmapable, map_is_readonly, spec_canonical_name, spec_map_name, spec_mmapable,
    MapDesc, ProgDesc, BPF_F_MMAPABLE, BPF_F_RDONLY_PROG,
};
use crate::render::{byte_array_literal, spec_byte_array, spec_dec, u64_dec};

verus! {

/// The `Open` prefix of the pre-load binding type names.
pub open spec fn spec_prefixed(open: bool) -> Seq<char> {
    if open {
        "Open"@
    } else {
        Seq::empty()
    }
}

/// The name of the map-accessor struct for one lifecycle state.
pub open spec fn spec_maps_struct(obj: Seq<char>, open: bool) -> Seq<char> {
    spec_prefixed(open) + obj + "Maps"@
}

/// The name of the program-accessor struct for one lifecycle state.
pub open spec fn spec_progs_struct(obj: Seq<char>, open: bool) -> Seq<char> {
    spec_prefixed(open) + obj + "Progs"@
}

/// The handle type an accessor struct borrows in one lifecycle state.
pub open spec fn spec_inner_ty(open: bool) -> Seq<char> {
    if open {
        "libbpf_rs::OpenObject"@
    } else {
        "libbpf_rs::Object"@
    }
}

/// The map handle type returned in one lifecycle state.
pub open spec fn spec_map_return_ty(open: bool) -> Seq<char> {
    if open {
        "libbpf_rs::OpenMap"@
    } else {
        "libbpf_rs::Map"@
    }
}

/// The program handle type returned in one lifecycle state.
pub open spec fn spec_prog_return_ty(open: bool) -> Seq<char> {
    if open {
        "libbpf_rs::OpenProgram"@
    } else {
        "libbpf_rs::Program"@
    }
}

fn prefixed_name(obj: &str, open: bool, suffix: &str) -> (r: String)
    ensures
        r@ == spec_prefixed(open) + obj@ + suffix@,
{
    let mut s = if open {
        "Open".to_owned()
    } else {
        String::new()
    };
    s.append(obj);
    s.append(suffix);
    assert(s@ =~= spec_prefixed(open) + obj@ + suffix@);
    s
}

/// Some map of the artifact is not memory-mappable (such maps get plain
/// map accessors).
pub open spec fn spec_has_plain_map(maps: Seq<MapDesc>) -> bool {
    exists|i: int| 0 <= i < maps.len() && !spec_mmapable(#[trigger] maps[i])
}

fn has_plain_map(maps: &Vec<MapDesc>) -> (r: bool)
    ensures
        r == spec_has_plain_map(maps@),
{
    let mut i: usize = 0;
    while i < maps.len()
        invariant
            0 <= i <= maps@.len(),
            forall|k: int| 0 <= k < i ==> spec_mmapable(#[trigger] maps@[k]),
        decreases maps@.len() - i,
    {
        if !map_is_mmapable(&maps[i]) {
            assert(!spec_mmapable(maps@[i as int]));
            return true;
        }
        i = i + 1;
    }
    false
}

/// One `.map(...)` line of the skeleton-config constructor.
pub open spec fn spec_ctor_map_line(m: MapDesc) -> Seq<char> {
    "\n        .map(\""@ + m.raw_name->0@ + "\", "@ + (if spec_mmapable(m) {
        "true"@
    } else {
        "false"@
    }) + ")"@
}

/// The `.map(...)` lines of the constructor, in map order.
pub open spec fn spec_ctor_map_lines(maps: Seq<MapDesc>) -> Seq<char>
    decreases maps.len(),
{
    if maps.len() == 0 {
        Seq::empty()
    } else {
        spec_ctor_map_lines(maps.drop_last()) + spec_ctor_map_line(maps.last())
    }
}

/// One `.prog(...)` line of the skeleton-config constructor.
pub open spec fn spec_ctor_prog_line(p: ProgDesc) -> Seq<char> {
    "\n        .prog(\""@ + p.name->0@ + "\")"@
}

/// The `.prog(...)` lines of the constructor, in program order.
pub open spec fn spec_ctor_prog_lines(progs: Seq<ProgDesc>) -> Seq<char>
    decreases progs.len(),
{
    if progs.len() == 0 {
        Seq::empty()
    } else {
        spec_ctor_prog_lines(progs.drop_last()) + spec_ctor_prog_line(progs.last())
    }
}

/// The skeleton-config constructor: registers every map (with its
/// mappability) and every program under the exact names the artifact holds.
pub open spec fn spec_ctor_text(maps: Seq<MapDesc>, progs: Seq<ProgDesc>, name: Seq<char>) -> Seq<
    char,
> {
    "\nfn build_skel_config() -> libbpf_rs::Result<libbpf_rs::skeleton::ObjectSkeletonConfig<'static>> {\n    let mut builder = libbpf_rs::skeleton::ObjectSkeletonConfigBuilder::new(DATA);\n    builder\n        .name(\""@
        + name + "\")"@ + spec_ctor_map_lines(maps) + spec_ctor_prog_lines(progs)
        + ";\n    builder.build()\n}\n"@
}

/// Emits the skeleton-config constructor. Fails with `NameError`, leaving
/// `skel` unchanged, exactly when some map or program has no name.
pub fn gen_skel_c_skel_constructor(
    skel: &mut String,
    maps: &Vec<MapDesc>,
    progs: &Vec<ProgDesc>,
    name: &str,
) -> (r: Result<(), GenError>)
    ensures
        r is Ok <==> all_maps_named(maps@) && all_progs_named(progs@),
        r is Ok ==> final(skel)@ == old(skel)@ + spec_ctor_text(maps@, progs@, name@),
        r is Err ==> final(skel)@ == old(skel)@ && r->Err_0 == GenError::NameError,
{
    let mut out =
        "\nfn build_skel_config() -> libbpf_rs::Result<libbpf_rs::skeleton::ObjectSkeletonConfig<'static>> {\n    let mut builder = libbpf_rs::skeleton::ObjectSkeletonConfigBuilder::new(DATA);\n    builder\n        .name(\"".to_owned();
    out.append(name);
    out.append("\")");
    let ghost head = out@;
    let mut i: usize = 0;
    while i < maps.len()
        invariant
            0 <= i <= maps@.len(),
            forall|k: int| 0 <= k < i ==> (#[trigger] maps@[k]).raw_name is Some,
            out@ == head + spec_ctor_map_lines(maps@.take(i as int)),
        decreases maps@.len() - i,
    {
        let ghost prev = out@;
        let raw = match get_raw_map_name(&maps[i]) {
            Ok(n) => n,
            Err(e) => {
                assert(maps@[i as int].raw_name is None);
                return Err(e);
            },
        };
        let mm = map_is_mmapable(&maps[i]);
        out.append("\n        .map(\"");
        out.append(raw.as_str());
        out.append("\", ");
        out.append(if mm {
            "true"
        } else {
            "false"
        });
        out.append(")");
        proof {
            assert(out@ =~= prev + spec_ctor_map_line(maps@[i as int]));
            let t = maps@.take(i + 1);
            assert(t.drop_last() =~= maps@.take(i as int));
            assert(t.last() == maps@[i as int]);
        }
        i = i + 1;
    }
    assert(maps@.take(maps@.len() as int) =~= maps@);
    let ghost mid = out@;
    let mut j: usize = 0;
    while j < progs.len()
        invariant
            0 <= j <= progs@.len(),
            forall|k: int| 0 <= k < j ==> (#[trigger] progs@[k]).name is Some,
            out@ == mid + spec_ctor_prog_lines(progs@.take(j as int)),
        decreases progs@.len() - j,
    {
        let ghost prev = out@;
        let pname = match get_prog_name(&progs[j]) {
            Ok(n) => n,
            Err(e) => {
                assert(progs@[j as int].name is None);
                return Err(e);
            },
        };
        out.append("\n        .prog(\"");
        out.append(pname.as_str());
        out.append("\")");
        proof {
            assert(out@ =~= prev + spec_ctor_prog_line(progs@[j as int]));
            let t = progs@.take(j + 1);
            assert(t.drop_last() =~= progs@.take(j as int));
            assert(t.last() == progs@[j as int]);
        }
        j = j + 1;
    }
    assert(progs@.take(progs@.len() as int) =~= progs@);
    out.append(";\n    builder.build()\n}\n");
    skel.append(out.as_str());
    assert(final(skel)@ =~= old(skel)@ + spec_ctor_text(maps@, progs@, name@));
    Ok(())
}

/// One map accessor of the map-accessor struct: non-mappable maps with a
/// resolvable name only.
pub open spec fn spec_map_def_line(m: MapDesc, open: bool) -> Seq<char> {
    if spec_mmapable(m) {
        Seq::empty()
    } else {
        match spec_map_name(m) {
            None => Seq::empty(),
            Some(n) => "    pub fn "@ + n + "(&mut self) -> &mut "@ + spec_map_return_ty(open)
                + " {\n        self.inner.map_unwrap(\""@ + m.raw_name->0@ + "\")\n    }\n"@,
        }
    }
}

/// The map accessors, in map order.
pub open spec fn spec_map_def_lines(maps: Seq<MapDesc>, open: bool) -> Seq<char>
    decreases maps.len(),
{
    if maps.len() == 0 {
        Seq::empty()
    } else {
        spec_map_def_lines(maps.drop_last(), open) + spec_map_def_line(maps.last(), open)
    }
}

/// The map-accessor struct of one lifecycle state; an artifact with no
/// non-mappable map produces no such struct at all.
pub open spec fn spec_map_defs_text(maps: Seq<MapDesc>, obj: Seq<char>, open: bool) -> Seq<char> {
    if !spec_has_plain_map(maps) {
        Seq::empty()
    } else {
        "\npub struct "@ + spec_maps_struct(obj, open) + "<'a> {\n    inner: &'a mut "@
            + spec_inner_ty(open) + ",\n}\n\nimpl<'a> "@ + spec_maps_struct(obj, open)
            + "<'a> {\n"@ + spec_map_def_lines(maps, open) + "}\n"@
    }
}

/// Emits the map-accessor struct for one lifecycle state.
pub fn gen_skel_map_defs(
    skel: &mut String,
    maps: &Vec<MapDesc>,
    obj_name: &str,
    open: bool,
) -> (r: Result<(), GenError>)
    ensures
        r is Ok <==> all_maps_named(maps@),
        r is Ok ==> final(skel)@ == old(skel)@ + spec_map_defs_text(maps@, obj_name@, open),
        r is Err ==> final(skel)@ == old(skel)@ && r->Err_0 == GenError::NameError,
{
    if !has_plain_map(maps) {
        assert(forall|i: int|
            0 <= i < maps@.len() ==> spec_mmapable(#[trigger] maps@[i]));
        assert(old(skel)@ + spec_map_defs_text(maps@, obj_name@, open) =~= old(skel)@);
        return Ok(());
    }
    let sname = prefixed_name(obj_name, open, "Maps");
    let mut out = "\npub struct ".to_owned();
    out.append(sname.as_str());
    out.append("<'a> {\n    inner: &'a mut ");
    out.append(if open {
        "libbpf_rs::OpenObject"
    } else {
        "libbpf_rs::Object"
    });
    out.append(",\n}\n\nimpl<'a> ");
    out.append(sname.as_str());
    out.append("<'a> {\n");
    let ghost head = out@;
    let mut i: usize = 0;
    while i < maps.len()
        invariant
            0 <= i <= maps@.len(),
            forall|k: int| 0 <= k < i ==> (#[trigger] maps@[k]).raw_name is Some,
            out@ == head + spec_map_def_lines(maps@.take(i as int), open),
        decreases maps@.len() - i,
    {
        let ghost prev = out@;
        if !map_is_mmapable(&maps[i]) {
            let mname = match get_map_name(&maps[i]) {
                Ok(n) => n,
                Err(e) => {
                    assert(maps@[i as int].raw_name is None);
                    return Err(e);
                },
            };
            match mname {
                Some(n) => {
                    let raw = match get_raw_map_name(&maps[i]) {
                        Ok(rn) => rn,
                        Err(e) => {
                            assert(false);
                            return Err(e);
                        },
                    };
                    out.append("    pub fn ");
                    out.append(n.as_str());
                    out.append("(&mut self) -> &mut ");
                    out.append(if open {
                        "libbpf_rs::OpenMap"
                    } else {
                        "libbpf_rs::Map"
                    });
                    out.append(" {\n        self.inner.map_unwrap(\"");
                    out.append(raw.as_str());
                    out.append("\")\n    }\n");
                    assert(out@ =~= prev + spec_map_def_line(maps@[i as int], open));
                },
                None => {
                    assert(out@ =~= prev + spec_map_def_line(maps@[i as int], open));
                },
            }
        } else {
            assert(out@ =~= prev + spec_map_def_line(maps@[i as int], open));
        }
        proof {
            let t = maps@.take(i + 1);
            assert(t.drop_last() =~= maps@.take(i as int));
            assert(t.last() == maps@[i as int]);
        }
        i = i + 1;
    }
    assert(maps@.take(maps@.len() as int) =~= maps@);
    out.append("}\n");
    skel.append(out.as_str());
    assert(final(skel)@ =~= old(skel)@ + spec_map_defs_text(maps@, obj_name@, open));
    Ok(())
}

/// One program accessor of the program-accessor struct.
pub open spec fn spec_prog_def_line(p: ProgDesc, open: bool) -> Seq<char> {
    "    pub fn "@ + p.name->0@ + "(&mut self) -> &mut "@ + spec_prog_return_ty(open)
        + " {\n        self.inner.prog_unwrap(\""@ + p.name->0@ + "\")\n    }\n"@
}

/// The program accessors, in program order.
pub open spec fn spec_prog_def_lines(progs: Seq<ProgDesc>, open: bool) -> Seq<char>
    decreases progs.len(),
{
    if progs.len() == 0 {
        Seq::empty()
    } else {
        spec_prog_def_lines(progs.drop_last(), open) + spec_prog_def_line(progs.last(), open)
    }
}

/// The program-accessor struct of one lifecycle state; an artifact with no
/// programs produces no such struct at all.
pub open spec fn spec_prog_defs_text(progs: Seq<ProgDesc>, obj: Seq<char>, open: bool) -> Seq<
    char,
> {
    if progs.len() == 0 {
        Seq::empty()
    } else {
        "\npub struct "@ + spec_progs_struct(obj, open) + "<'a> {\n    inner: &'a mut "@
            + spec_inner_ty(open) + ",\n}\n\nimpl<'a> "@ + spec_progs_struct(obj, open)
            + "<'a> {\n"@ + spec_prog_def_lines(progs, open) + "}\n"@
    }
}

/// Emits the program-accessor struct for one lifecycle state.
pub fn gen_skel_prog_defs(
    skel: &mut String,
    progs: &Vec<ProgDesc>,
    obj_name: &str,
    open: bool,
) -> (r: Result<(), GenError>)
    ensures
        r is Ok <==> all_progs_named(progs@),
        r is Ok ==> final(skel)@ == old(skel)@ + spec_prog_defs_text(progs@, obj_name@, open),
        r is Err ==> final(skel)@ == old(skel)@ && r->Err_0 == GenError::NameError,
{
    if progs.len() == 0 {
        assert(old(skel)@ + spec_prog_defs_text(progs@, obj_name@, open) =~= old(skel)@);
        return Ok(());
    }
    let sname = prefixed_name(obj_name, open, "Progs");
    let mut out = "\npub struct ".to_owned();
    out.append(sname.as_str());
    out.append("<'a> {\n    inner: &'a mut ");
    out.append(if open {
        "libbpf_rs::OpenObject"
    } else {
        "libbpf_rs::Object"
    });
    out.append(",\n}\n\nimpl<'a> ");
    out.append(sname.as_str());
    out.append("<'a> {\n");
    let ghost head = out@;
    let mut j: usize = 0;
    while j < progs.len()
        invariant
            0 <= j <= progs@.len(),
            forall|k: int| 0 <= k < j ==> (#[trigger] progs@[k]).name is Some,
            out@ == head + spec_prog_def_lines(progs@.take(j as int), open),
        decreases progs@.len() - j,
    {
        let ghost prev = out@;
        let pname = match get_prog_name(&progs[j]) {
            Ok(n) => n,
            Err(e) => {
                assert(progs@[j as int].name is None);
                return Err(e);
            },
        };
        out.append("    pub fn ");
        out.append(pname.as_str());
        out.append("(&mut self) -> &mut ");
        out.append(if open {
            "libbpf_rs::OpenProgram"
        } else {
            "libbpf_rs::Program"
        });
        out.append(" {\n        self.inner.prog_unwrap(\"");
        out.append(pname.as_str());
        out.append("\")\n    }\n");
        proof {
            assert(out@ =~= prev + spec_prog_def_line(progs@[j as int], open));
            let t = progs@.take(j + 1);
            assert(t.drop_last() =~= progs@.take(j as int));
            assert(t.last() == progs@[j as int]);
        }
        j = j + 1;
    }
    assert(progs@.take(progs@.len() as int) =~= progs@);
    out.append("}\n");
    skel.append(out.as_str());
    assert(final(skel)@ =~= old(skel)@ + spec_prog_defs_text(progs@, obj_name@, open));
    Ok(())
}

/// The `maps()` getter of one lifecycle state; absent when the artifact has
/// no non-mappable map.
pub open spec fn spec_map_getter_text(maps: Seq<MapDesc>, obj: Seq<char>, open: bool) -> Seq<
    char,
> {
    if !spec_has_plain_map(maps) {
        Seq::empty()
    } else {
        "\n    pub fn maps(&mut self) -> "@ + spec_maps_struct(obj, open) + " {\n        "@
            + spec_maps_struct(obj, open) + " {\n            inner: &mut self.obj,\n        }\n    }\n"@
    }
}

/// Emits the `maps()` getter for one lifecycle state.
pub fn gen_skel_map_getter(
    skel: &mut String,
    maps: &Vec<MapDesc>,
    obj_name: &str,
    open: bool,
) -> (r: Result<(), GenError>)
    ensures
        r is Ok,
        final(skel)@ == old(skel)@ + spec_map_getter_text(maps@, obj_name@, open),
{
    if !has_plain_map(maps) {
        assert(old(skel)@ + spec_map_getter_text(maps@, obj_name@, open) =~= old(skel)@);
        return Ok(());
    }
    let sname = prefixed_name(obj_name, open, "Maps");
    let mut out = "\n    pub fn maps(&mut self) -> ".to_owned();
    out.append(sname.as_str());
    out.append(" {\n        ");
    out.append(sname.as_str());
    out.append(" {\n            inner: &mut self.obj,\n        }\n    }\n");
    skel.append(out.as_str());
    assert(final(skel)@ =~= old(skel)@ + spec_map_getter_text(maps@, obj_name@, open));
    Ok(())
}

/// The `progs()` getter of one lifecycle state; absent when the artifact
/// has no programs.
pub open spec fn spec_prog_getter_text(progs: Seq<ProgDesc>, obj: Seq<char>, open: bool) -> Seq<
    char,
> {
    if progs.len() == 0 {
        Seq::empty()
    } else {
        "\n    pub fn progs(&mut self) -> "@ + spec_progs_struct(obj, open) + " {\n        "@
            + spec_progs_struct(obj, open) + " {\n            inner: &mut self.obj,\n        }\n    }\n"@
    }
}

/// Emits the `progs()` getter for one lifecycle state.
pub fn gen_skel_prog_getter(
    skel: &mut String,
    progs: &Vec<ProgDesc>,
    obj_name: &str,
    open: bool,
) -> (r: Result<(), GenError>)
    ensures
        r is Ok,
        final(skel)@ == old(skel)@ + spec_prog_getter_text(progs@, obj_name@, open),
{
    if progs.len() == 0 {
        assert(old(skel)@ + spec_prog_getter_text(progs@, obj_name@, open) =~= old(skel)@);
        return Ok(());
    }
    let sname = prefixed_name(obj_name, open, "Progs");
    let mut out = "\n    pub fn progs(&mut self) -> ".to_owned();
    out.append(sname.as_str());
    out.append(" {\n        ");
    out.append(sname.as_str());
    out.append(" {\n            inner: &mut self.obj,\n        }\n    }\n");
    skel.append(out.as_str());
    assert(final(skel)@ =~= old(skel)@ + spec_prog_getter_text(progs@, obj_name@, open));
    Ok(())
}

/// The text node `i` of the type graph contributes to the data-section
/// modules: recognized data-section nodes produce one named sub-module
/// holding their rendered definitions, unrecognized ones are skipped.
pub open spec fn spec_datasec_one(types: Seq<BtfType>, obj: Seq<char>, i: int) -> Result<
    Seq<char>,
    GenError,
> {
    match types[i] {
        BtfType::Datasec { name, .. } => match spec_canonical_name(name@) {
            None => Ok(Seq::empty()),
            Some(n) => match spec_type_definition(types, i) {
                Err(e) => Err(e),
                Ok(def) => Ok("\npub mod "@ + obj + "_"@ + n + "_types {\n"@ + def + "}\n"@),
            },
        },
        _ => Ok(Seq::empty()),
    }
}

/// The data-section modules from node `i` on, in arena order.
pub open spec fn spec_datasec_from(types: Seq<BtfType>, obj: Seq<char>, i: int) -> Result<
    Seq<char>,
    GenError,
>
    decreases types.len() - i,
{
    if i < 0 || i >= types.len() {
        Ok(Seq::empty())
    } else {
        match spec_datasec_one(types, obj, i) {
            Err(e) => Err(e),
            Ok(t) => match spec_datasec_from(types, obj, i + 1) {
                Err(e) => Err(e),
                Ok(rest) => Ok(t + rest),
            },
        }
    }
}

/// The nodes of an optional type graph (an artifact without type metadata
/// contributes none).
pub open spec fn spec_btf_types(btf: Option<Btf>) -> Seq<BtfType> {
    match btf {
        Some(b) => b.types@,
        None => Seq::empty(),
    }
}

/// The data-section modules of one artifact, or the first rendering failure.
pub open spec fn spec_datasec_defs_res(btf: Option<Btf>, obj: Seq<char>) -> Result<
    Seq<char>,
    GenError,
> {
    spec_datasec_from(spec_btf_types(btf), obj, 0)
}

/// Emits one sub-module per recognized data section, each holding the
/// record type whose fields mirror the section's byte layout. An artifact
/// without type metadata produces nothing; a malformed type graph fails.
#[verifier::rlimit(50)]
pub fn gen_skel_datasec_defs(skel: &mut String, obj_name: &str, btf: &Option<Btf>) -> (r: Result<
    (),
    GenError,
>)
    ensures
        r is Ok <==> spec_datasec_defs_res(*btf, obj_name@) is Ok,
        r is Ok ==> final(skel)@ == old(skel)@ + spec_datasec_defs_res(*btf, obj_name@)->Ok_0,
        r is Err ==> final(skel)@ == old(skel)@ && Err::<Seq<char>, GenError>(r->Err_0)
            == spec_datasec_defs_res(*btf, obj_name@),
{
    let b = match btf {
        Some(b) => b,
        None => {
            assert(old(skel)@ + spec_datasec_defs_res(*btf, obj_name@)->Ok_0 =~= old(skel)@);
            return Ok(());
        },
    };
    let ghost types = b.types@;
    let mut out = String::new();
    let mut i: usize = 0;
    while i < b.types.len()
        invariant
            0 <= i <= types.len(),
            b.types@ == types,
            spec_btf_types(*btf) == types,
            spec_datasec_from(types, obj_name@, 0) == (match spec_datasec_from(
                types,
                obj_name@,
                i as int,
            ) {
                Ok(t) => Ok::<Seq<char>, GenError>(out@ + t),
                Err(e) => Err(e),
            }),
        decreases types.len() - i,
    {
        let ghost prev = out@;
        match &b.types[i] {
            BtfType::Datasec { name, .. } => {
                match canonicalize_internal_map_name(name.as_str()) {
                    None => {
                        assert(spec_datasec_one(types, obj_name@, i as int)
                            == Ok::<Seq<char>, GenError>(Seq::empty()));
                    },
                    Some(n) => {
                        let def = match b.type_definition(i) {
                            Ok(d) => d,
                            Err(e) => {
                                proof {
                                    assert(spec_canonical_name(name@) is Some);
                                    assert(spec_datasec_one(types, obj_name@, i as int)
                                        == Err::<Seq<char>, GenError>(e));
                                    assert(spec_datasec_from(types, obj_name@, i as int)
                                        == Err::<Seq<char>, GenError>(e));
                                    assert(spec_datasec_from(types, obj_name@, 0)
                                        == Err::<Seq<char>, GenError>(e));
                                    assert(spec_btf_types(*btf) == types);
                                    assert(spec_datasec_defs_res(*btf, obj_name@)
                                        == Err::<Seq<char>, GenError>(e));
                                }
                                return Err(e);
                            },
                        };
                        out.append("\npub mod ");
                        out.append(obj_name);
                        out.append("_");
                        out.append(n.as_str());
                        out.append("_types {\n");
                        out.append(def.as_str());
                        out.append("}\n");
                        assert(out@ =~= prev + ("\npub mod "@ + obj_name@ + "_"@ + n@
                            + "_types {\n"@ + def@ + "}\n"@));
                    },
                }
            },
            _ => {
                assert(spec_datasec_one(types, obj_name@, i as int) == Ok::<
                    Seq<char>,
                    GenError,
                >(Seq::empty()));
            },
        }
        proof {
            match spec_datasec_from(types, obj_name@, i + 1) {
                Ok(r2) => {
                    match spec_datasec_one(types, obj_name@, i as int) {
                        Ok(t1) => {
                            assert(prev + (t1 + r2) =~= out@ + r2);
                        },
                        Err(_) => {},
                    }
                },
                Err(_) => {},
            }
        }
        i = i + 1;
    }
    assert(out@ + Seq::<char>::empty() =~= out@);
    skel.append(out.as_str());
    assert(final(skel)@ =~= old(skel)@ + spec_datasec_defs_res(*btf, obj_name@)->Ok_0);
    Ok(())
}

/// The mutability a data-section view is exposed with, fixed once at
/// generation time from the map's flag bitfield alone: immutable when the
/// section is read-only from the program side, mutable otherwise.
pub open spec fn spec_mutability(m: MapDesc) -> Seq<char> {
    if m.map_flags & BPF_F_RDONLY_PROG != 0 {
        Seq::empty()
    } else {
        "mut "@
    }
}

/// The data-section accessor of the map at index `idx`: mappable maps only.
pub open spec fn spec_datasec_getter_line(m: MapDesc, idx: int, obj: Seq<char>) -> Seq<char> {
    if !spec_mmapable(m) {
        Seq::empty()
    } else {
        match spec_map_name(m) {
            None => Seq::empty(),
            Some(n) => "\n    pub fn "@ + n + "(&mut self) -> &'a "@ + spec_mutability(m)
                + obj + "_"@ + n + "_types::"@ + n
                + " {\n        unsafe {\n            std::mem::transmute::<*mut std::ffi::c_void, &'a "@
                + spec_mutability(m) + obj + "_"@ + n + "_types::"@ + n
                + ">(\n                self.skel_config.map_mmap_ptr("@ + spec_dec(idx)
                + ").unwrap()\n            )\n        }\n    }\n"@,
        }
    }
}

/// The data-section accessors, in map order, each bound to its map's index.
pub open spec fn spec_datasec_getter_lines(maps: Seq<MapDesc>, obj: Seq<char>) -> Seq<char>
    decreases maps.len(),
{
    if maps.len() == 0 {
        Seq::empty()
    } else {
        spec_datasec_getter_lines(maps.drop_last(), obj) + spec_datasec_getter_line(
            maps.last(),
            maps.len() - 1,
            obj,
        )
    }
}

fn datasec_getter_line(m: &MapDesc, idx: usize, obj_name: &str) -> (r: String)
    requires
        spec_mmapable(*m),
    ensures
        r@ == spec_datasec_getter_line(*m, idx as int, obj_name@),
{
    let n = match get_map_name(m) {
        Ok(Some(n)) => n,
        Ok(None) => {
            assert(false);
            String::new()
        },
        Err(_) => {
            assert(false);
            String::new()
        },
    };
    let ro = map_is_readonly(m);
    let mu: &str = if ro {
        ""
    } else {
        "mut "
    };
    proof {
        reveal_strlit("");
        assert(""@ =~= Seq::<char>::empty());
    }
    assert(mu@ == spec_mutability(*m));
    let idx_text = u64_dec(idx as u64);
    let mut out = "\n    pub fn ".to_owned();
    out.append(n.as_str());
    out.append("(&mut self) -> &'a ");
    out.append(mu);
    out.append(obj_name);
    out.append("_");
    out.append(n.as_str());
    out.append("_types::");
    out.append(n.as_str());
    out.append(" {\n        unsafe {\n            std::mem::transmute::<*mut std::ffi::c_void, &'a ");
    out.append(mu);
    out.append(obj_name);
    out.append("_");
    out.append(n.as_str());
    out.append("_types::");
    out.append(n.as_str());
    out.append(">(\n                self.skel_config.map_mmap_ptr(");
    out.append(idx_text.as_str());
    out.append(").unwrap()\n            )\n        }\n    }\n");
    assert(out@ =~= spec_datasec_getter_line(*m, idx as int, obj_name@));
    out
}

/// Emits the data-section accessors (the same text in either lifecycle
/// state). The mutability of each view is fixed here, at generation time,
/// from the map's flag bitfield alone.
pub fn gen_skel_datasec_getters(
    skel: &mut String,
    maps: &Vec<MapDesc>,
    obj_name: &str,
) -> (r: Result<(), GenError>)
    ensures
        r is Ok,
        final(skel)@ == old(skel)@ + spec_datasec_getter_lines(maps@, obj_name@),
{
    let mut out = String::new();
    let mut i: usize = 0;
    while i < maps.len()
        invariant
            0 <= i <= maps@.len(),
            out@ == spec_datasec_getter_lines(maps@.take(i as int), obj_name@),
        decreases maps@.len() - i,
    {
        let ghost prev = out@;
        if map_is_mmapable(&maps[i]) {
            let line = datasec_getter_line(&maps[i], i, obj_name);
            out.append(line.as_str());
            assert(out@ =~= prev + spec_datasec_getter_line(
                maps@[i as int],
                i as int,
                obj_name@,
            ));
        } else {
            assert(out@ =~= prev + spec_datasec_getter_line(
                maps@[i as int],
                i as int,
                obj_name@,
            ));
        }
        proof {
            let t = maps@.take(i + 1);
            assert(t.drop_last() =~= maps@.take(i as int));
            assert(t.last() == maps@[i as int]);
        }
        i = i + 1;
    }
    assert(maps@.take(maps@.len() as int) =~= maps@);
    skel.append(out.as_str());
    assert(final(skel)@ =~= old(skel)@ + spec_datasec_getter_lines(maps@, obj_name@));
    Ok(())
}

/// One field of the link record: an optional link handle per program.
pub open spec fn spec_link_def_line(p: ProgDesc) -> Seq<char> {
    "    pub "@ + p.name->0@ + ": Option<libbpf_rs::Link>,\n"@
}

/// The link-record fields, in program order.
pub open spec fn spec_link_def_lines(progs: Seq<ProgDesc>) -> Seq<char>
    decreases progs.len(),
{
    if progs.len() == 0 {
        Seq::empty()
    } else {
        spec_link_def_lines(progs.drop_last()) + spec_link_def_line(progs.last())
    }
}

/// The link-record type; an artifact with no programs produces none.
pub open spec fn spec_link_defs_text(progs: Seq<ProgDesc>, obj: Seq<char>) -> Seq<char> {
    if progs.len() == 0 {
        Seq::empty()
    } else {
        "\n#[derive(Default)]\npub struct "@ + obj + "Links {\n"@ + spec_link_def_lines(progs)
            + "}\n"@
    }
}

/// Emits the link-record type holding one optional link per program.
pub fn gen_skel_link_defs(skel: &mut String, progs: &Vec<ProgDesc>, obj_name: &str) -> (r: Result<
    (),
    GenError,
>)
    ensures
        r is Ok <==> all_progs_named(progs@),
        r is Ok ==> final(skel)@ == old(skel)@ + spec_link_defs_text(progs@, obj_name@),
        r is Err ==> final(skel)@ == old(skel)@ && r->Err_0 == GenError::NameError,
{
    if progs.len() == 0 {
        assert(old(skel)@ + spec_link_defs_text(progs@, obj_name@) =~= old(skel)@);
        return Ok(());
    }
    let mut out = "\n#[derive(Default)]\npub struct ".to_owned();
    out.append(obj_name);
    out.append("Links {\n");
    let ghost head = out@;
    let mut j: usize = 0;
    while j < progs.len()
        invariant
            0 <= j <= progs@.len(),
            forall|k: int| 0 <= k < j ==> (#[trigger] progs@[k]).name is Some,
            out@ == head + spec_link_def_lines(progs@.take(j as int)),
        decreases progs@.len() - j,
    {
        let ghost prev = out@;
        let pname = match get_prog_name(&progs[j]) {
            Ok(n) => n,
            Err(e) => {
                assert(progs@[j as int].name is None);
                return Err(e);
            },
        };
        out.append("    pub ");
        out.append(pname.as_str());
        out.append(": Option<libbpf_rs::Link>,\n");
        proof {
            assert(out@ =~= prev + spec_link_def_line(progs@[j as int]));
            let t = progs@.take(j + 1);
            assert(t.drop_last() =~= progs@.take(j as int));
            assert(t.last() == progs@[j as int]);
        }
        j = j + 1;
    }
    assert(progs@.take(progs@.len() as int) =~= progs@);
    out.append("}\n");
    skel.append(out.as_str());
    assert(final(skel)@ =~= old(skel)@ + spec_link_defs_text(progs@, obj_name@));
    Ok(())
}

/// The `links` field of the loaded handle; absent without programs.
pub open spec fn spec_link_getter_text(progs: Seq<ProgDesc>, obj: Seq<char>) -> Seq<char> {
    if progs.len() == 0 {
        Seq::empty()
    } else {
        "    pub links: "@ + obj + "Links,\n"@
    }
}

/// Emits the `links` field of the loaded handle.
pub fn gen_skel_link_getter(skel: &mut String, progs: &Vec<ProgDesc>, obj_name: &str) -> (r: Result<
    (),
    GenError,
>)
    ensures
        r is Ok,
        final(skel)@ == old(skel)@ + spec_link_getter_text(progs@, obj_name@),
{
    if progs.len() == 0 {
        assert(old(skel)@ + spec_link_getter_text(progs@, obj_name@) =~= old(skel)@);
        return Ok(());
    }
    let mut out = "    pub links: ".to_owned();
    out.append(obj_name);
    out.append("Links,\n");
    skel.append(out.as_str());
    assert(final(skel)@ =~= old(skel)@ + spec_link_getter_text(progs@, obj_name@));
    Ok(())
}

/// One link initializer of the attach operation, bound to its program's
/// index.
pub open spec fn spec_attach_line(p: ProgDesc, idx: int) -> Seq<char> {
    "            "@ + p.name->0@
        + ": (|| {\n                let ptr = self.skel_config.prog_link_ptr("@ + spec_dec(idx)
        + ")?;\n                if ptr.is_null() {\n                    Ok(None)\n                } else {\n                    Ok(Some(unsafe { libbpf_rs::Link::from_ptr(ptr) }))\n                }\n            })()?,\n"@
}

/// The link initializers, in program order.
pub open spec fn spec_attach_lines(progs: Seq<ProgDesc>) -> Seq<char>
    decreases progs.len(),
{
    if progs.len() == 0 {
        Seq::empty()
    } else {
        spec_attach_lines(progs.drop_last()) + spec_attach_line(progs.last(), progs.len() - 1)
    }
}

/// The attach operation: attaches every program and rebuilds the link
/// record from the resulting link handles (a repeated call overwrites the
/// previous links without tearing them down). Absent without programs.
pub open spec fn spec_attach_text(progs: Seq<ProgDesc>, obj: Seq<char>) -> Seq<char> {
    if progs.len() == 0 {
        Seq::empty()
    } else {
        "\n    pub fn attach(&mut self) -> libbpf_rs::Result<()> {\n        let ret = unsafe { libbpf_sys::bpf_object__attach_skeleton(self.skel_config.get()) };\n        if ret != 0 {\n            return Err(libbpf_rs::Error::System(-ret));\n        }\n        self.links = "@
            + obj + "Links {\n"@ + spec_attach_lines(progs) + "        };\n        Ok(())\n    }\n"@
    }
}

/// Emits the attach operation.
pub fn gen_skel_attach(skel: &mut String, progs: &Vec<ProgDesc>, obj_name: &str) -> (r: Result<
    (),
    GenError,
>)
    ensures
        r is Ok <==> all_progs_named(progs@),
        r is Ok ==> final(skel)@ == old(skel)@ + spec_attach_text(progs@, obj_name@),
        r is Err ==> final(skel)@ == old(skel)@ && r->Err_0 == GenError::NameError,
{
    if progs.len() == 0 {
        assert(old(skel)@ + spec_attach_text(progs@, obj_name@) =~= old(skel)@);
        return Ok(());
    }
    let mut out =
        "\n    pub fn attach(&mut self) -> libbpf_rs::Result<()> {\n        let ret = unsafe { libbpf_sys::bpf_object__attach_skeleton(self.skel_config.get()) };\n        if ret != 0 {\n            return Err(libbpf_rs::Error::System(-ret));\n        }\n        self.links = ".to_owned();
    out.append(obj_name);
    out.append("Links {\n");
    let ghost head = out@;
    let mut j: usize = 0;
    while j < progs.len()
        invariant
            0 <= j <= progs@.len(),
            forall|k: int| 0 <= k < j ==> (#[trigger] progs@[k]).name is Some,
            out@ == head + spec_attach_lines(progs@.take(j as int)),
        decreases progs@.len() - j,
    {
        let ghost prev = out@;
        let pname = match get_prog_name(&progs[j]) {
            Ok(n) => n,
            Err(e) => {
                assert(progs@[j as int].name is None);
                return Err(e);
            },
        };
        let idx_text = u64_dec(j as u64);
        out.append("            ");
        out.append(pname.as_str());
        out.append(": (|| {\n                let ptr = self.skel_config.prog_link_ptr(");
        out.append(idx_text.as_str());
        out.append(")?;\n                if ptr.is_null() {\n                    Ok(None)\n                } else {\n                    Ok(Some(unsafe { libbpf_rs::Link::from_ptr(ptr) }))\n                }\n            })()?,\n");
        proof {
            assert(out@ =~= prev + spec_attach_line(progs@[j as int], j as int));
            let t = progs@.take(j + 1);
            assert(t.drop_last() =~= progs@.take(j as int));
            assert(t.last() == progs@[j as int]);
        }
        j = j + 1;
    }
    assert(progs@.take(progs@.len() as int) =~= progs@);
    out.append("        };\n        Ok(())\n    }\n");
    skel.append(out.as_str());
    assert(final(skel)@ =~= old(skel)@ + spec_attach_text(progs@, obj_name@));
    Ok(())
}

/// The fixed header of every generated module.
pub open spec fn spec_skel_header() -> Seq<char> {
    "#![allow(dead_code)]\n#![allow(non_snake_case)]\n#![allow(clippy::transmute_ptr_to_ref)]\n\nuse libbpf_rs::libbpf_sys;\n"@
}

/// The builder type and its `open` transition.
pub open spec fn spec_builder_text(obj: Seq<char>) -> Seq<char> {
    "\n#[derive(Default)]\npub struct "@ + obj
        + "SkelBuilder {\n    pub obj_builder: libbpf_rs::ObjectBuilder,\n}\n\nimpl<'a> "@ + obj
        + "SkelBuilder {\n    pub fn open(mut self) -> libbpf_rs::Result<Open"@ + obj
        + "Skel<'a>> {\n        let mut skel_config = build_skel_config()?;\n        let open_opts = self.obj_builder.opts(std::ptr::null());\n        let ret = unsafe { libbpf_sys::bpf_object__open_skeleton(skel_config.get(), &open_opts) };\n        if ret != 0 {\n            return Err(libbpf_rs::Error::System(-ret));\n        }\n        let obj = unsafe { libbpf_rs::OpenObject::from_ptr(skel_config.object_ptr()) };\n        Ok(Open"@
        + obj + "Skel {\n            obj,\n            skel_config\n        })\n    }\n}\n"@
}

/// The opened-state type and its `load` transition; the loaded handle's
/// link record is initialized empty only when the artifact has programs.
pub open spec fn spec_open_skel_text(obj: Seq<char>, has_progs: bool) -> Seq<char> {
    "\npub struct Open"@ + obj
        + "Skel<'a> {\n    pub obj: libbpf_rs::OpenObject,\n    skel_config: libbpf_rs::skeleton::ObjectSkeletonConfig<'a>,\n}\n\nimpl<'a> Open"@
        + obj + "Skel<'a> {\n    pub fn load(mut self) -> libbpf_rs::Result<"@ + obj
        + "Skel<'a>> {\n        let ret = unsafe { libbpf_sys::bpf_object__load_skeleton(self.skel_config.get()) };\n        if ret != 0 {\n            return Err(libbpf_rs::Error::System(-ret));\n        }\n        let obj = unsafe { libbpf_rs::Object::from_ptr(self.obj.take_ptr()) };\n        Ok("@
        + obj + "Skel {\n            obj,\n            skel_config: self.skel_config,\n"@ + (
    if has_progs {
        "            links: "@ + obj + "Links::default()\n"@
    } else {
        Seq::empty()
    }) + "        })\n    }\n"@
}

/// The head of the loaded-state struct.
pub open spec fn spec_loaded_head(obj: Seq<char>) -> Seq<char> {
    "\npub struct "@ + obj
        + "Skel<'a> {\n    pub obj: libbpf_rs::Object,\n    skel_config: libbpf_rs::skeleton::ObjectSkeletonConfig<'a>,\n"@
}

/// The close of the loaded-state struct and the head of its impl.
pub open spec fn spec_loaded_mid(obj: Seq<char>) -> Seq<char> {
    "}\n\nimpl<'a> "@ + obj + "Skel<'a> {\n"@
}

/// The embedded artifact bytes.
pub open spec fn spec_data_text(data: Seq<u8>) -> Seq<char> {
    "\nconst DATA: &[u8] = &"@ + spec_byte_array(data) + ";\n"@
}

/// The complete generated module for one artifact (meaningful when every
/// map and program is named and the data sections render).
pub open spec fn spec_skel_contents(
    raw: Seq<char>,
    maps: Seq<MapDesc>,
    progs: Seq<ProgDesc>,
    btf: Option<Btf>,
    data: Seq<u8>,
) -> Seq<char> {
    let lname = raw + "_bpf"@;
    let obj = spec_capitalize(raw);
    spec_skel_header() + spec_ctor_text(maps, progs, lname) + spec_builder_text(obj)
        + spec_map_defs_text(maps, obj, true) + spec_prog_defs_text(progs, obj, true)
        + spec_datasec_defs_res(btf, raw)->Ok_0 + spec_open_skel_text(obj, progs.len() > 0)
        + spec_prog_getter_text(progs, obj, true) + spec_map_getter_text(maps, obj, true)
        + spec_datasec_getter_lines(maps, raw) + "}\n"@
        + spec_map_defs_text(maps, obj, false) + spec_prog_defs_text(progs, obj, false)
        + spec_link_defs_text(progs, obj) + spec_loaded_head(obj)
        + spec_link_getter_text(progs, obj) + spec_loaded_mid(obj)
        + spec_prog_getter_text(progs, obj, false) + spec_map_getter_text(maps, obj, false)
        + spec_datasec_getter_lines(maps, raw) + spec_attach_text(progs, obj) + "}\n"@
        + spec_data_text(data)
}

/// What generating one artifact's module yields: the module text, or the
/// first failure (a missing map or program name, then a malformed type
/// graph).
pub open spec fn spec_gen_skel_res(
    raw: Seq<char>,
    maps: Seq<MapDesc>,
    progs: Seq<ProgDesc>,
    btf: Option<Btf>,
    data: Seq<u8>,
) -> Result<Seq<char>, GenError> {
    if !all_maps_named(maps) || !all_progs_named(progs) {
        Err(GenError::NameError)
    } else {
        match spec_datasec_defs_res(btf, raw) {
            Err(e) => Err(e),
            Ok(_) => Ok(spec_skel_contents(raw, maps, progs, btf, data)),
        }
    }
}


fn builder_text(obj: &str) -> (r: String)
    ensures
        r@ == spec_builder_text(obj@),
{
    let mut out = "\n#[derive(Default)]\npub struct ".to_owned();
    out.append(obj);
    out.append("SkelBuilder {\n    pub obj_builder: libbpf_rs::ObjectBuilder,\n}\n\nimpl<'a> ");
    out.append(obj);
    out.append("SkelBuilder {\n    pub fn open(mut self) -> libbpf_rs::Result<Open");
    out.append(obj);
    out.append("Skel<'a>> {\n        let mut skel_config = build_skel_config()?;\n        let open_opts = self.obj_builder.opts(std::ptr::null());\n        let ret = unsafe { libbpf_sys::bpf_object__open_skeleton(skel_config.get(), &open_opts) };\n        if ret != 0 {\n            return Err(libbpf_rs::Error::System(-ret));\n        }\n        let obj = unsafe { libbpf_rs::OpenObject::from_ptr(skel_config.object_ptr()) };\n        Ok(Open");
    out.append(obj);
    out.append("Skel {\n            obj,\n            skel_config\n        })\n    }\n}\n");
    assert(out@ =~= spec_builder_text(obj@));
    out
}

fn open_skel_text(obj: &str, has_progs: bool) -> (r: String)
    ensures
        r@ == spec_open_skel_text(obj@, has_progs),
{
    let mut out = "\npub struct Open".to_owned();
    out.append(obj);
    out.append(
        "Skel<'a> {\n    pub obj: libbpf_rs::OpenObject,\n    skel_config: libbpf_rs::skeleton::ObjectSkeletonConfig<'a>,\n}\n\nimpl<'a> Open",
    );
    out.append(obj);
    out.append("Skel<'a> {\n    pub fn load(mut self) -> libbpf_rs::Result<");
    out.append(obj);
    out.append("Skel<'a>> {\n        let ret = unsafe { libbpf_sys::bpf_object__load_skeleton(self.skel_config.get()) };\n        if ret != 0 {\n            return Err(libbpf_rs::Error::System(-ret));\n        }\n        let obj = unsafe { libbpf_rs::Object::from_ptr(self.obj.take_ptr()) };\n        Ok(");
    out.append(obj);
    out.append("Skel {\n            obj,\n            skel_config: self.skel_config,\n");
    if has_progs {
        out.append("            links: ");
        out.append(obj);
        out.append("Links::default()\n");
    }
    out.append("        })\n    }\n");
    assert(out@ =~= spec_open_skel_text(obj@, has_progs));
    out
}

fn loaded_head_text(obj: &str) -> (r: String)
    ensures
        r@ == spec_loaded_head(obj@),
{
    let mut out = "\npub struct ".to_owned();
    out.append(obj);
    out.append(
        "Skel<'a> {\n    pub obj: libbpf_rs::Object,\n    skel_config: libbpf_rs::skeleton::ObjectSkeletonConfig<'a>,\n",
    );
    assert(out@ =~= spec_loaded_head(obj@));
    out
}

fn loaded_mid_text(obj: &str) -> (r: String)
    ensures
        r@ == spec_loaded_mid(obj@),
{
    let mut out = "}\n\nimpl<'a> ".to_owned();
    out.append(obj);
    out.append("Skel<'a> {\n");
    assert(out@ =~= spec_loaded_mid(obj@));
    out
}

fn data_text(data: &Vec<u8>) -> (r: String)
    ensures
        r@ == spec_data_text(data@),
{
    let mut out = "\nconst DATA: &[u8] = &".to_owned();
    let bytes_text = byte_array_literal(data);
    out.append(bytes_text.as_str());
    out.append(";\n");
    assert(out@ =~= spec_data_text(data@));
    out
}

/// Generates the complete binding module for one artifact from its
/// introspected view: maps, programs, optional type graph, and the raw
/// bytes to embed. Deterministic: the text is a function of these alone.
#[verifier::rlimit(100)]
#[verifier::spinoff_prover]
pub fn gen_skel_contents(
    raw_obj_name: &str,
    maps: &Vec<MapDesc>,
    progs: &Vec<ProgDesc>,
    btf: &Option<Btf>,
    data: &Vec<u8>,
) -> (r: Result<String, GenError>)
    ensures
        res_str_view(r) == spec_gen_skel_res(raw_obj_name@, maps@, progs@, *btf, data@),
{
    let mut skel =
        "#![allow(dead_code)]\n#![allow(non_snake_case)]\n#![allow(clippy::transmute_ptr_to_ref)]\n\nuse libbpf_rs::libbpf_sys;\n".to_owned();

    let mut libbpf_obj_name = raw_obj_name.to_owned();
    libbpf_obj_name.append("_bpf");
    let obj_name = capitalize_first_letter(raw_obj_name);

    match gen_skel_c_skel_constructor(&mut skel, maps, progs, libbpf_obj_name.as_str()) {
        Ok(()) => {},
        Err(e) => {
            return Err(e);
        },
    }

    let piece = builder_text(obj_name.as_str());
    skel.append(piece.as_str());

    match gen_skel_map_defs(&mut skel, maps, obj_name.as_str(), true) {
        Ok(()) => {},
        Err(e) => {
            assert(false);
            return Err(e);
        },
    }
    match gen_skel_prog_defs(&mut skel, progs, obj_name.as_str(), true) {
        Ok(()) => {},
        Err(e) => {
            assert(false);
            return Err(e);
        },
    }
    match gen_skel_datasec_defs(&mut skel, raw_obj_name, btf) {
        Ok(()) => {},
        Err(e) => {
            return Err(e);
        },
    }

    let piece = open_skel_text(obj_name.as_str(), progs.len() > 0);
    skel.append(piece.as_str());

    match gen_skel_prog_getter(&mut skel, progs, obj_name.as_str(), true) {
        Ok(()) => {},
        Err(_) => {
            assert(false);
        },
    }
    match gen_skel_map_getter(&mut skel, maps, obj_name.as_str(), true) {
        Ok(()) => {},
        Err(_) => {
            assert(false);
        },
    }
    match gen_skel_datasec_getters(&mut skel, maps, raw_obj_name) {
        Ok(()) => {},
        Err(_) => {
            assert(false);
        },
    }
    skel.append("}\n");

    match gen_skel_map_defs(&mut skel, maps, obj_name.as_str(), false) {
        Ok(()) => {},
        Err(e) => {
            assert(false);
            return Err(e);
        },
    }
    match gen_skel_prog_defs(&mut skel, progs, obj_name.as_str(), false) {
        Ok(()) => {},
        Err(e) => {
            assert(false);
            return Err(e);
        },
    }
    match gen_skel_link_defs(&mut skel, progs, obj_name.as_str()) {
        Ok(()) => {},
        Err(e) => {
            assert(false);
            return Err(e);
        },
    }

    let piece = loaded_head_text(obj_name.as_str());
    skel.append(piece.as_str());
    match gen_skel_link_getter(&mut skel, progs, obj_name.as_str()) {
        Ok(()) => {},
        Err(_) => {
            assert(false);
        },
    }
    let piece = loaded_mid_text(obj_name.as_str());
    skel.append(piece.as_str());

    match gen_skel_prog_getter(&mut skel, progs, obj_name.as_str(), false) {
        Ok(()) => {},
        Err(_) => {
            assert(false);
        },
    }
    match gen_skel_map_getter(&mut skel, maps, obj_name.as_str(), false) {
        Ok(()) => {},
        Err(_) => {
            assert(false);
        },
    }
    match gen_skel_datasec_getters(&mut skel, maps, raw_obj_name) {
        Ok(()) => {},
        Err(_) => {
            assert(false);
        },
    }
    match gen_skel_attach(&mut skel, progs, obj_name.as_str()) {
        Ok(()) => {},
        Err(e) => {
            assert(false);
            return Err(e);
        },
    }
    skel.append("}\n");

    let piece = data_text(data);
    skel.append(piece.as_str());

    assert(skel@ == spec_skel_contents(raw_obj_name@, maps@, progs@, *btf, data@));
    Ok(skel)
}

/// One module declaration of the package index.
pub open spec fn spec_mod_line(name: Seq<char>) -> Seq<char> {
    "mod "@ + name + "_skel;\n"@
}

/// The module declarations of the package index, in artifact order.
pub open spec fn spec_mod_lines(names: Seq<String>) -> Seq<char>
    decreases names.len(),
{
    if names.len() == 0 {
        Seq::empty()
    } else {
        spec_mod_lines(names.drop_last()) + spec_mod_line(names.last()@)
    }
}

/// One re-export of the package index.
pub open spec fn spec_use_line(name: Seq<char>) -> Seq<char> {
    "pub use "@ + name + "_skel::*;\n"@
}

/// The re-exports of the package index, in artifact order.
pub open spec fn spec_use_lines(names: Seq<String>) -> Seq<char>
    decreases names.len(),
{
    if names.len() == 0 {
        Seq::empty()
    } else {
        spec_use_lines(names.drop_last()) + spec_use_line(names.last()@)
    }
}

/// The package index module: it declares and re-exports every artifact's
/// generated module under its logical name.
pub open spec fn spec_mods_text(names: Seq<String>) -> Seq<char> {
    spec_mod_lines(names) + "\n"@ + spec_use_lines(names)
}

/// Generates the text of the per-package index module from the logical
/// names of the package's artifacts.
pub fn gen_mods_contents(names: &Vec<String>) -> (r: String)
    ensures
        r@ == spec_mods_text(names@),
{
    let mut out = String::new();
    let mut i: usize = 0;
    while i < names.len()
        invariant
            0 <= i <= names@.len(),
            out@ == spec_mod_lines(names@.take(i as int)),
        decreases names@.len() - i,
    {
        let ghost prev = out@;
        out.append("mod ");
        out.append(names[i].as_str());
        out.append("_skel;\n");
        proof {
            assert(out@ =~= prev + spec_mod_line(names@[i as int]@));
            let t = names@.take(i + 1);
            assert(t.drop_last() =~= names@.take(i as int));
            assert(t.last() == names@[i as int]);
        }
        i = i + 1;
    }
    assert(names@.take(names@.len() as int) =~= names@);
    out.append("\n");
    let ghost mid = out@;
    let mut j: usize = 0;
    while j < names.len()
        invariant
            0 <= j <= names@.len(),
            out@ == mid + spec_use_lines(names@.take(j as int)),
        decreases names@.len() - j,
    {
        let ghost prev = out@;
        out.append("pub use ");
        out.append(names[j].as_str());
        out.append("_skel::*;\n");
        proof {
            assert(out@ =~= prev + spec_use_line(names@[j as int]@));
            let t = names@.take(j + 1);
            assert(t.drop_last() =~= names@.take(j as int));
            assert(t.last() == names@[j as int]);
        }
        j = j + 1;
    }
    assert(names@.take(names@.len() as int) =~= names@);
    assert(out@ =~= spec_mods_text(names@));
    out
}

/// One package of a project run: the package name and the positions of its
/// artifacts in the discovered list, in discovery order.
pub struct PackageGroup {
    pub package: String,
    pub indices: Vec<usize>,
}

/// The distinct package names, in order of first appearance.
pub open spec fn spec_group_keys(pkgs: Seq<String>) -> Seq<Seq<char>>
    decreases pkgs.len(),
{
    if pkgs.len() == 0 {
        Seq::empty()
    } else {
        let ks = spec_group_keys(pkgs.drop_last());
        if ks.contains(pkgs.last()@) {
            ks
        } else {
            ks.push(pkgs.last()@)
        }
    }
}

/// The positions holding `key`, in increasing order.
pub open spec fn spec_group_indices(pkgs: Seq<String>, key: Seq<char>) -> Seq<int>
    decreases pkgs.len(),
{
    if pkgs.len() == 0 {
        Seq::empty()
    } else {
        let r = spec_group_indices(pkgs.drop_last(), key);
        if pkgs.last()@ == key {
            r.push(pkgs.len() - 1)
        } else {
            r
        }
    }
}

/// The views of a sequence of position values.
pub open spec fn spec_usize_views(s: Seq<usize>) -> Seq<int> {
    Seq::new(s.len(), |i: int| s[i] as int)
}

/// The views of a sequence of names.
pub open spec fn spec_str_views(s: Seq<String>) -> Seq<Seq<char>> {
    Seq::new(s.len(), |i: int| s[i]@)
}

fn string_in(keys: &Vec<String>, s: &String) -> (r: bool)
    ensures
        r == spec_str_views(keys@).contains(s@),
{
    let mut k: usize = 0;
    while k < keys.len()
        invariant
            0 <= k <= keys@.len(),
            forall|j: int| 0 <= j < k ==> (#[trigger] keys@[j])@ != s@,
        decreases keys@.len() - k,
    {
        if keys[k].eq(s) {
            assert(spec_str_views(keys@)[k as int] == s@);
            return true;
        }
        k = k + 1;
    }
    assert(forall|j: int| 0 <= j < keys@.len() ==> spec_str_views(keys@)[j] != s@);
    false
}

/// Groups the artifacts of one project run by owning package: one group
/// per distinct package name, in order of first appearance, each holding
/// the positions of that package's artifacts in discovery order.
pub fn group_by_package(packages: &Vec<String>) -> (groups: Vec<PackageGroup>)
    ensures
        groups@.len() == spec_group_keys(packages@).len(),
        forall|g: int|
            0 <= g < groups@.len() ==> (#[trigger] groups@[g]).package@ == spec_group_keys(
                packages@,
            )[g],
        forall|g: int|
            0 <= g < groups@.len() ==> spec_usize_views((#[trigger] groups@[g]).indices@)
                == spec_group_indices(packages@, spec_group_keys(packages@)[g]),
{
    let mut keys: Vec<String> = Vec::new();
    let mut i: usize = 0;
    while i < packages.len()
        invariant
            0 <= i <= packages@.len(),
            spec_str_views(keys@) == spec_group_keys(packages@.take(i as int)),
        decreases packages@.len() - i,
    {
        let ghost prev = keys@;
        if !string_in(&keys, &packages[i]) {
            keys.push(packages[i].clone());
            assert(spec_str_views(keys@) =~= spec_str_views(prev).push(packages@[i as int]@));
        }
        proof {
            let t = packages@.take(i + 1);
            assert(t.drop_last() =~= packages@.take(i as int));
            assert(t.last() == packages@[i as int]);
        }
        i = i + 1;
    }
    assert(packages@.take(packages@.len() as int) =~= packages@);

    let mut groups: Vec<PackageGroup> = Vec::new();
    let mut g: usize = 0;
    while g < keys.len()
        invariant
            0 <= g <= keys@.len(),
            spec_str_views(keys@) == spec_group_keys(packages@),
            groups@.len() == g,
            forall|h: int|
                0 <= h < g ==> (#[trigger] groups@[h]).package@ == spec_group_keys(packages@)[h],
            forall|h: int|
                0 <= h < g ==> spec_usize_views((#[trigger] groups@[h]).indices@)
                    == spec_group_indices(packages@, spec_group_keys(packages@)[h]),
        decreases keys@.len() - g,
    {
        let key = keys[g].clone();
        let mut idx: Vec<usize> = Vec::new();
        let mut i2: usize = 0;
        while i2 < packages.len()
            invariant
                0 <= i2 <= packages@.len(),
                key@ == keys@[g as int]@,
                spec_usize_views(idx@) == spec_group_indices(packages@.take(i2 as int), key@),
            decreases packages@.len() - i2,
        {
            let ghost prev = idx@;
            if packages[i2].eq(&key) {
                idx.push(i2);
                assert(spec_usize_views(idx@) =~= spec_usize_views(prev).push(i2 as int));
            }
            proof {
                let t = packages@.take(i2 + 1);
                assert(t.drop_last() =~= packages@.take(i2 as int));
                assert(t.last() == packages@[i2 as int]);
            }
            i2 = i2 + 1;
        }
        assert(packages@.take(packages@.len() as int) =~= packages@);
        groups.push(PackageGroup { package: key, indices: idx });
        g = g + 1;
    }
    groups
}

/// Generation is a pure function of the artifact's introspected view: two
/// runs over byte-identical inputs yield byte-identical generated text (or
/// the same failure).
pub proof fn lemma_generation_deterministic(
    raw: Seq<char>,
    maps: Seq<MapDesc>,
    progs: Seq<ProgDesc>,
    btf: Option<Btf>,
    data: Seq<u8>,
    r1: Result<String, GenError>,
    r2: Result<String, GenError>,
)
    requires
        res_str_view(r1) == spec_gen_skel_res(raw, maps, progs, btf, data),
        res_str_view(r2) == spec_gen_skel_res(raw, maps, progs, btf, data),
    ensures
        res_str_view(r1) == res_str_view(r2),
{
}

/// A map or program whose name cannot be retrieved causes generation for
/// the artifact to fail with `NameError`; no placeholder is emitted.
pub proof fn lemma_absent_name_fails(
    raw: Seq<char>,
    maps: Seq<MapDesc>,
    progs: Seq<ProgDesc>,
    btf: Option<Btf>,
    data: Seq<u8>,
)
    requires
        !all_maps_named(maps) || !all_progs_named(progs),
    ensures
        spec_gen_skel_res(raw, maps, progs, btf, data) == Err::<Seq<char>, GenError>(
            GenError::NameError,
        ),
{
}

/// A map is classified memory-mappable iff it is internal, its flag
/// bitfield has the mappable bit set, and it has a resolvable canonical
/// name; among mappable maps, the generated data-section view is immutable
/// iff the read-only-from-program bit is also set. Read-only-ness of a
/// non-mappable map is never asked: `map_is_readonly` requires mappability,
/// so such a call is a contract violation, not a normal outcome.
pub proof fn lemma_map_classification(m: MapDesc)
    ensures
        spec_mmapable(m) <==> {
            &&& m.internal
            &&& m.map_flags & BPF_F_MMAPABLE != 0
            &&& m.raw_name is Some
            &&& spec_canonical_name(m.raw_name->0@) is Some
        },
        spec_mmapable(m) ==> ((spec_mutability(m) == Seq::<char>::empty()) <==> (m.map_flags
            & BPF_F_RDONLY_PROG != 0)),
{
    reveal_strlit("mut ");
    assert("mut "@.len() == 4);
}

/// An artifact with zero programs produces no program accessors, no
/// link-record type, no links field and no attach operation in its
/// generated bindings.
pub proof fn lemma_no_progs_no_links(progs: Seq<ProgDesc>, obj: Seq<char>, open: bool)
    requires
        progs.len() == 0,
    ensures
        spec_prog_defs_text(progs, obj, open) == Seq::<char>::empty(),
        spec_prog_getter_text(progs, obj, open) == Seq::<char>::empty(),
        spec_link_defs_text(progs, obj) == Seq::<char>::empty(),
        spec_link_getter_text(progs, obj) == Seq::<char>::empty(),
        spec_attach_text(progs, obj) == Seq::<char>::empty(),
{
}

/// An artifact with zero non-mappable maps produces no map-accessor group
/// and no maps getter in its generated bindings.
pub proof fn lemma_no_plain_maps_no_map_accessors(maps: Seq<MapDesc>, obj: Seq<char>, open: bool)
    requires
        forall|i: int| 0 <= i < maps.len() ==> spec_mmapable(#[trigger] maps[i]),
    ensures
        spec_map_defs_text(maps, obj, open) == Seq::<char>::empty(),
        spec_map_getter_text(maps, obj, open) == Seq::<char>::empty(),
{
    assert(!spec_has_plain_map(maps));
}

} // verus!
