use libbpf_cargo::btf::{Btf, BtfType, DatasecEntry};
use libbpf_cargo::error::GenError;
use libbpf_cargo::gen::{
    gen_mods_contents, gen_skel_contents, gen_skel_datasec_defs, group_by_package,
};
use libbpf_cargo::object::{MapDesc, ProgDesc, BPF_F_MMAPABLE, BPF_F_RDONLY_PROG};

fn counter_btf(section: &str) -> Btf {
    Btf {
        types: vec![
            BtfType::Int {
                size: 8,
                signed: false,
            },
            BtfType::Var {
                name: "counter".to_string(),
                ty: 0,
            },
            BtfType::Datasec {
                name: section.to_string(),
                entries: vec![DatasecEntry {
                    ty: 1,
                    offset: 0,
                    size: 8,
                }],
            },
        ],
    }
}

fn data_map() -> MapDesc {
    MapDesc {
        raw_name: Some("test.data".to_string()),
        internal: true,
        map_flags: BPF_F_MMAPABLE,
    }
}

fn count_packets() -> ProgDesc {
    ProgDesc {
        name: Some("count_packets".to_string()),
    }
}

#[test]
fn end_to_end_counter_scenario() {
    let maps = vec![data_map()];
    let progs = vec![count_packets()];
    let btf = Some(counter_btf(".data"));
    let data = vec![0u8; 8];
    let text = gen_skel_contents("test", &maps, &progs, &btf, &data).unwrap();

    // program accessors in both lifecycle states
    assert!(text.contains("pub fn count_packets(&mut self) -> &mut libbpf_rs::OpenProgram"));
    assert!(text.contains("pub fn count_packets(&mut self) -> &mut libbpf_rs::Program"));
    // the data section type: one 8-byte field
    assert!(text.contains("pub mod test_data_types {"));
    assert!(text.contains("pub struct data {\n    pub counter: u64,\n}"));
    // a mutable view of the section (mutable in both states: not read-only)
    assert!(text.contains("pub fn data(&mut self) -> &'a mut test_data_types::data"));
    assert!(!text.contains("-> &'a test_data_types::data"));
    // attach populates a link per program
    assert!(text.contains("pub fn attach(&mut self)"));
    assert!(text.contains("pub struct TestLinks {"));
    assert!(text.contains("pub count_packets: Option<libbpf_rs::Link>,"));
    assert!(text.contains("count_packets: (|| {"));
    // the embedded artifact bytes
    assert!(text.contains("const DATA: &[u8] = &[0, 0, 0, 0, 0, 0, 0, 0];"));
    // the builder registers map and program under their artifact names
    assert!(text.contains(".map(\"test.data\", true)"));
    assert!(text.contains(".prog(\"count_packets\")"));
    assert!(text.contains(".name(\"test_bpf\")"));
}

#[test]
fn generation_is_deterministic() {
    let maps = vec![
        data_map(),
        MapDesc {
            raw_name: Some("counts".to_string()),
            internal: false,
            map_flags: 0,
        },
    ];
    let progs = vec![count_packets()];
    let btf = Some(counter_btf(".data"));
    let data = vec![1u8, 2, 3];
    let a = gen_skel_contents("test", &maps, &progs, &btf, &data).unwrap();
    let b = gen_skel_contents("test", &maps, &progs, &btf, &data).unwrap();
    assert_eq!(a, b);
}

#[test]
fn absent_map_name_fails_generation() {
    let maps = vec![MapDesc {
        raw_name: None,
        internal: false,
        map_flags: 0,
    }];
    let progs = vec![count_packets()];
    let r = gen_skel_contents("test", &maps, &progs, &None, &vec![]);
    assert_eq!(r, Err(GenError::NameError));
}

#[test]
fn absent_prog_name_fails_generation() {
    let maps = vec![data_map()];
    let progs = vec![ProgDesc { name: None }];
    let r = gen_skel_contents("test", &maps, &progs, &None, &vec![]);
    assert_eq!(r, Err(GenError::NameError));
}

#[test]
fn zero_programs_no_link_record_no_attach() {
    let maps = vec![MapDesc {
        raw_name: Some("counts".to_string()),
        internal: false,
        map_flags: 0,
    }];
    let text = gen_skel_contents("test", &maps, &vec![], &None, &vec![]).unwrap();
    assert!(!text.contains("Links"));
    assert!(!text.contains("attach"));
    assert!(!text.contains("Progs"));
    // the map accessor group is still there
    assert!(text.contains("pub struct TestMaps"));
    assert!(text.contains("pub fn maps(&mut self)"));
}

#[test]
fn zero_plain_maps_no_map_accessor_group() {
    let maps = vec![data_map()];
    let progs = vec![count_packets()];
    let btf = Some(counter_btf(".data"));
    let text = gen_skel_contents("test", &maps, &progs, &btf, &vec![]).unwrap();
    assert!(!text.contains("TestMaps"));
    assert!(!text.contains("pub fn maps(&mut self)"));
}

#[test]
fn readonly_section_gets_immutable_view() {
    let maps = vec![MapDesc {
        raw_name: Some("test.rodata".to_string()),
        internal: true,
        map_flags: BPF_F_MMAPABLE | BPF_F_RDONLY_PROG,
    }];
    let btf = Some(counter_btf(".rodata"));
    let text = gen_skel_contents("test", &maps, &vec![], &btf, &vec![]).unwrap();
    // the view is immutable in both lifecycle states: the mutability is
    // derived once, from the flag bitfield alone
    assert!(text.contains("pub fn rodata(&mut self) -> &'a test_rodata_types::rodata"));
    assert!(!text.contains("&'a mut test_rodata_types::rodata"));
}

#[test]
fn unrecognized_internal_map_is_skipped() {
    let maps = vec![MapDesc {
        raw_name: Some("..foo".to_string()),
        internal: true,
        map_flags: 0,
    }];
    let text = gen_skel_contents("test", &maps, &vec![], &None, &vec![]).unwrap();
    // registered in the constructor under its raw name, but no accessor
    assert!(text.contains(".map(\"..foo\", false)"));
    assert!(!text.contains("pub fn foo"));
}

#[test]
fn malformed_type_graph_fails_generation() {
    let btf = Some(Btf {
        types: vec![
            BtfType::Var {
                name: "v".to_string(),
                ty: 9,
            },
            BtfType::Datasec {
                name: ".data".to_string(),
                entries: vec![DatasecEntry {
                    ty: 0,
                    offset: 0,
                    size: 8,
                }],
            },
        ],
    });
    let r = gen_skel_contents("test", &vec![data_map()], &vec![], &btf, &vec![]);
    assert_eq!(r, Err(GenError::TypeResolutionError));
}

#[test]
fn no_type_metadata_generates_no_section_modules() {
    let maps = vec![MapDesc {
        raw_name: Some("counts".to_string()),
        internal: false,
        map_flags: 0,
    }];
    let text = gen_skel_contents("test", &maps, &vec![], &None, &vec![]).unwrap();
    assert!(!text.contains("_types"));
}

#[test]
fn datasec_defs_skips_unrecognized_sections() {
    let btf = Some(Btf {
        types: vec![BtfType::Datasec {
            name: ".maps".to_string(),
            entries: vec![],
        }],
    });
    let mut out = String::new();
    gen_skel_datasec_defs(&mut out, "test", &btf).unwrap();
    assert_eq!(out, "");
}

#[test]
fn index_module_reexports_every_artifact() {
    let names = vec!["foo".to_string(), "bar".to_string()];
    let text = gen_mods_contents(&names);
    assert_eq!(
        text,
        "mod foo_skel;\nmod bar_skel;\n\npub use foo_skel::*;\npub use bar_skel::*;\n"
    );
}

#[test]
fn grouping_by_package_keeps_discovery_order() {
    let pkgs = vec![
        "alpha".to_string(),
        "beta".to_string(),
        "alpha".to_string(),
    ];
    let groups = group_by_package(&pkgs);
    assert_eq!(groups.len(), 2);
    assert_eq!(groups[0].package, "alpha");
    assert_eq!(groups[0].indices, vec![0, 2]);
    assert_eq!(groups[1].package, "beta");
    assert_eq!(groups[1].indices, vec![1]);
}

#[test]
fn grouping_empty_is_empty() {
    let groups = group_by_package(&vec![]);
    assert_eq!(groups.len(), 0);
}
