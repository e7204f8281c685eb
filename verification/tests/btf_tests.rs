use libbpf_cargo::btf::{Btf, BtfMember, BtfType, DatasecEntry};
use libbpf_cargo::error::GenError;

fn u64_int() -> BtfType {
    BtfType::Int {
        size: 8,
        signed: false,
    }
}

#[test]
fn datasec_single_counter() {
    // one 8-byte counter variable at offset 0
    let btf = Btf {
        types: vec![
            u64_int(),
            BtfType::Var {
                name: "counter".to_string(),
                ty: 0,
            },
            BtfType::Datasec {
                name: ".data".to_string(),
                entries: vec![DatasecEntry {
                    ty: 1,
                    offset: 0,
                    size: 8,
                }],
            },
        ],
    };
    let def = btf.type_definition(2).unwrap();
    assert_eq!(
        def,
        "#[derive(Debug, Copy, Clone)]\n#[repr(C)]\npub struct data {\n    pub counter: u64,\n}\n"
    );
}

#[test]
fn datasec_gap_gets_padding() {
    let btf = Btf {
        types: vec![
            BtfType::Int {
                size: 4,
                signed: true,
            },
            BtfType::Var {
                name: "a".to_string(),
                ty: 0,
            },
            BtfType::Var {
                name: "b".to_string(),
                ty: 0,
            },
            BtfType::Datasec {
                name: ".bss".to_string(),
                entries: vec![
                    DatasecEntry {
                        ty: 1,
                        offset: 0,
                        size: 4,
                    },
                    DatasecEntry {
                        ty: 2,
                        offset: 16,
                        size: 4,
                    },
                ],
            },
        ],
    };
    let def = btf.type_definition(3).unwrap();
    assert_eq!(
        def,
        "#[derive(Debug, Copy, Clone)]\n#[repr(C)]\npub struct bss {\n    pub a: i32,\n    pub __pad_0: [u8; 12],\n    pub b: i32,\n}\n"
    );
}

#[test]
fn datasec_overlap_is_malformed() {
    let btf = Btf {
        types: vec![
            u64_int(),
            BtfType::Var {
                name: "a".to_string(),
                ty: 0,
            },
            BtfType::Var {
                name: "b".to_string(),
                ty: 0,
            },
            BtfType::Datasec {
                name: ".data".to_string(),
                entries: vec![
                    DatasecEntry {
                        ty: 1,
                        offset: 0,
                        size: 8,
                    },
                    DatasecEntry {
                        ty: 2,
                        offset: 4,
                        size: 8,
                    },
                ],
            },
        ],
    };
    assert_eq!(btf.type_definition(3), Err(GenError::TypeResolutionError));
}

#[test]
fn datasec_with_record_array_and_pointer() {
    let btf = Btf {
        types: vec![
            // 0: u32
            BtfType::Int {
                size: 4,
                signed: false,
            },
            // 1: [u8; 4]
            BtfType::Int {
                size: 1,
                signed: false,
            },
            BtfType::Array {
                elem_ty: 1,
                nelems: 4,
            },
            // 3: struct config, self-referential through a pointer
            BtfType::Struct {
                name: "config".to_string(),
                members: vec![
                    BtfMember {
                        name: "mode".to_string(),
                        ty: 0,
                    },
                    BtfMember {
                        name: "tag".to_string(),
                        ty: 2,
                    },
                    BtfMember {
                        name: "next".to_string(),
                        ty: 4,
                    },
                ],
            },
            // 4: *mut config
            BtfType::Ptr { ty: 3 },
            // 5: var of struct type
            BtfType::Var {
                name: "cfg".to_string(),
                ty: 3,
            },
            // 6: the section
            BtfType::Datasec {
                name: ".rodata".to_string(),
                entries: vec![DatasecEntry {
                    ty: 5,
                    offset: 0,
                    size: 16,
                }],
            },
        ],
    };
    let def = btf.type_definition(6).unwrap();
    assert!(def.starts_with(
        "#[derive(Debug, Copy, Clone)]\n#[repr(C)]\npub struct rodata {\n    pub cfg: config,\n}\n"
    ));
    assert!(def.contains(
        "#[derive(Debug, Copy, Clone)]\n#[repr(C)]\npub struct config {\n    pub mode: u32,\n    pub tag: [u8; 4],\n    pub next: *mut config,\n}\n"
    ));
}

#[test]
fn typedef_and_qualifier_resolution() {
    let btf = Btf {
        types: vec![
            // 0: u16
            BtfType::Int {
                size: 2,
                signed: false,
            },
            // 1: const u16
            BtfType::Qualifier { ty: 0 },
            // 2: typedef port = u16 (through the qualifier)
            BtfType::Typedef {
                name: "port".to_string(),
                ty: 1,
            },
            // 3: var of the alias type
            BtfType::Var {
                name: "listen_port".to_string(),
                ty: 2,
            },
            BtfType::Datasec {
                name: ".rodata".to_string(),
                entries: vec![DatasecEntry {
                    ty: 3,
                    offset: 0,
                    size: 2,
                }],
            },
        ],
    };
    let def = btf.type_definition(4).unwrap();
    assert!(def.contains("pub listen_port: port,"));
    assert!(def.contains("pub type port = u16;\n"));
}

#[test]
fn unrecognized_section_name_is_malformed_here() {
    let btf = Btf {
        types: vec![BtfType::Datasec {
            name: ".maps".to_string(),
            entries: vec![],
        }],
    };
    assert_eq!(btf.type_definition(0), Err(GenError::TypeResolutionError));
}

#[test]
fn dangling_reference_is_malformed() {
    let btf = Btf {
        types: vec![
            BtfType::Var {
                name: "v".to_string(),
                ty: 9,
            },
            BtfType::Datasec {
                name: ".data".to_string(),
                entries: vec![DatasecEntry {
                    ty: 0,
                    offset: 0,
                    size: 8,
                }],
            },
        ],
    };
    assert_eq!(btf.type_definition(1), Err(GenError::TypeResolutionError));
}

#[test]
fn non_datasec_index_is_malformed() {
    let btf = Btf {
        types: vec![u64_int()],
    };
    assert_eq!(btf.type_definition(0), Err(GenError::TypeResolutionError));
    assert_eq!(btf.type_definition(7), Err(GenError::TypeResolutionError));
}

#[test]
fn odd_integer_width_is_malformed() {
    let btf = Btf {
        types: vec![
            BtfType::Int {
                size: 3,
                signed: false,
            },
            BtfType::Var {
                name: "v".to_string(),
                ty: 0,
            },
            BtfType::Datasec {
                name: ".data".to_string(),
                entries: vec![DatasecEntry {
                    ty: 1,
                    offset: 0,
                    size: 3,
                }],
            },
        ],
    };
    assert_eq!(btf.type_definition(2), Err(GenError::TypeResolutionError));
}
