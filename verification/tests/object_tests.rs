use libbpf_cargo::error::GenError;
use libbpf_cargo::names::{capitalize_first_letter, object_file_stem, str_ends_with};
use libbpf_cargo::object::{
    canonicalize_internal_map_name, get_map_name, get_prog_name, get_raw_map_name,
    map_is_mmapable, map_is_readonly, MapDesc, ProgDesc, BPF_F_MMAPABLE, BPF_F_RDONLY_PROG,
};
use libbpf_cargo::render::{byte_array_literal, u64_dec};

fn named_map(name: &str, internal: bool, flags: u32) -> MapDesc {
    MapDesc {
        raw_name: Some(name.to_string()),
        internal,
        map_flags: flags,
    }
}

#[test]
fn canonicalize_recognized_suffixes() {
    assert_eq!(
        canonicalize_internal_map_name("..data"),
        Some("data".to_string())
    );
    assert_eq!(
        canonicalize_internal_map_name("..rodata"),
        Some("rodata".to_string())
    );
    assert_eq!(
        canonicalize_internal_map_name("..bss"),
        Some("bss".to_string())
    );
    assert_eq!(
        canonicalize_internal_map_name("..kconfig"),
        Some("kconfig".to_string())
    );
}

#[test]
fn canonicalize_ordinary_prefixes() {
    assert_eq!(
        canonicalize_internal_map_name("test_bp.data"),
        Some("data".to_string())
    );
    assert_eq!(
        canonicalize_internal_map_name(".rodata"),
        Some("rodata".to_string())
    );
    assert_eq!(
        canonicalize_internal_map_name(".kconfig"),
        Some("kconfig".to_string())
    );
}

#[test]
fn canonicalize_unrecognized_is_skipped_not_fatal() {
    assert_eq!(canonicalize_internal_map_name("..foo"), None);
    assert_eq!(canonicalize_internal_map_name("data"), None);
    assert_eq!(canonicalize_internal_map_name(""), None);
}

#[test]
fn ends_with_tests() {
    assert!(str_ends_with("foo.data", ".data"));
    assert!(!str_ends_with("foo.rodata", ".data"));
    assert!(!str_ends_with("x", ".data"));
    assert!(str_ends_with("anything", ""));
}

#[test]
fn capitalize_splits_on_underscores() {
    assert_eq!(capitalize_first_letter("count_packets"), "CountPackets");
    assert_eq!(capitalize_first_letter("probe"), "Probe");
    assert_eq!(capitalize_first_letter(""), "");
    assert_eq!(capitalize_first_letter("a_b_c"), "ABC");
}

#[test]
fn object_file_stem_requires_o_suffix() {
    assert_eq!(object_file_stem("probe.bpf.o"), Some("probe".to_string()));
    assert_eq!(object_file_stem("x.o"), Some("x".to_string()));
    assert_eq!(object_file_stem("noext"), None);
    assert_eq!(object_file_stem("foo.txt"), None);
}

#[test]
fn map_names_and_errors() {
    let m = named_map("counts", false, 0);
    assert_eq!(get_raw_map_name(&m), Ok("counts".to_string()));
    assert_eq!(get_map_name(&m), Ok(Some("counts".to_string())));

    let internal = named_map("test_bp.data", true, 0);
    assert_eq!(get_map_name(&internal), Ok(Some("data".to_string())));

    let odd = named_map("..foo", true, 0);
    assert_eq!(get_map_name(&odd), Ok(None));

    let unnamed = MapDesc {
        raw_name: None,
        internal: true,
        map_flags: 0,
    };
    assert_eq!(get_raw_map_name(&unnamed), Err(GenError::NameError));
    assert_eq!(get_map_name(&unnamed), Err(GenError::NameError));
}

#[test]
fn prog_name_errors_when_absent() {
    let p = ProgDesc {
        name: Some("count_packets".to_string()),
    };
    assert_eq!(get_prog_name(&p), Ok("count_packets".to_string()));
    let q = ProgDesc { name: None };
    assert_eq!(get_prog_name(&q), Err(GenError::NameError));
}

#[test]
fn mmapable_needs_internal_flag_and_name() {
    assert!(map_is_mmapable(&named_map("x.data", true, BPF_F_MMAPABLE)));
    // not internal
    assert!(!map_is_mmapable(&named_map("x.data", false, BPF_F_MMAPABLE)));
    // flag bit missing
    assert!(!map_is_mmapable(&named_map("x.data", true, 0)));
    // unrecognized canonical name
    assert!(!map_is_mmapable(&named_map("..foo", true, BPF_F_MMAPABLE)));
    // no name at all
    assert!(!map_is_mmapable(&MapDesc {
        raw_name: None,
        internal: true,
        map_flags: BPF_F_MMAPABLE,
    }));
}

#[test]
fn readonly_follows_the_rdonly_prog_bit() {
    let ro = named_map("x.rodata", true, BPF_F_MMAPABLE | BPF_F_RDONLY_PROG);
    assert!(map_is_mmapable(&ro));
    assert!(map_is_readonly(&ro));
    let rw = named_map("x.data", true, BPF_F_MMAPABLE);
    assert!(map_is_mmapable(&rw));
    assert!(!map_is_readonly(&rw));
}

#[test]
fn error_messages() {
    assert_eq!(GenError::NameError.message(), "map or program name unknown");
    assert_eq!(
        GenError::TypeResolutionError.message(),
        "malformed type metadata"
    );
}

#[test]
fn decimal_rendering() {
    assert_eq!(u64_dec(0), "0");
    assert_eq!(u64_dec(7), "7");
    assert_eq!(u64_dec(10), "10");
    assert_eq!(u64_dec(1234567890), "1234567890");
}

#[test]
fn byte_array_rendering() {
    assert_eq!(byte_array_literal(&vec![]), "[]");
    assert_eq!(byte_array_literal(&vec![5]), "[5]");
    assert_eq!(byte_array_literal(&vec![1, 2, 255]), "[1, 2, 255]");
}
