use netlist_json::json::{clone_json, Json};
use netlist_json::model::{Bit, Direction, Netlist};
use netlist_json::decode::{
    decode_bit, decode_bits, decode_cell, decode_direction, decode_flag, decode_memory,
    decode_module, decode_net, decode_netlist, decode_port,
};
use netlist_json::encode::{
    encode_bit, encode_bits, encode_direction, encode_flag, encode_module, encode_net,
    encode_netlist, encode_port,
};
use netlist_json::error::ErrorKind;

fn s(x: &str) -> String {
    x.to_string()
}

fn obj(entries: Vec<(&str, Json)>) -> Json {
    Json::Obj(entries.into_iter().map(|(k, v)| (s(k), v)).collect())
}

fn text(x: &str) -> Json {
    Json::Text(s(x))
}

#[test]
fn test_serialize_bit() {
    assert_eq!(encode_bit(Bit::Signal(42)), Json::Uint(42));
    assert_eq!(encode_bit(Bit::_0), text("0"));
    assert_eq!(encode_bit(Bit::_1), text("1"));
    assert_eq!(encode_bit(Bit::Z), text("z"));
    assert_eq!(encode_bit(Bit::X), text("x"));
}

#[test]
fn test_deserialize_bit() {
    assert_eq!(decode_bit(&Json::Uint(42)).unwrap(), Bit::Signal(42));
    assert_eq!(encode_bit(Bit::_0), text("0"));
    assert_eq!(encode_bit(Bit::_1), text("1"));
    assert_eq!(encode_bit(Bit::Z), text("z"));
    assert_eq!(encode_bit(Bit::X), text("x"));
}

#[test]
fn test_serialize_direction() {
    assert_eq!(encode_direction(Direction::Input), text("input"));
    assert_eq!(encode_direction(Direction::Output), text("output"));
    assert_eq!(encode_direction(Direction::InOut), text("inout"));
}

#[test]
fn test_deserialize_direction() {
    assert_eq!(decode_direction(&text("input")).unwrap(), Direction::Input);
    assert_eq!(encode_direction(Direction::Output), text("output"));
    assert_eq!(encode_direction(Direction::InOut), text("inout"));
}

#[test]
fn bit_decode_then_encode_is_identity() {
    // every valid wire value comes back unchanged
    for v in [
        Json::Uint(0),
        Json::Uint(7),
        Json::Uint(u64::MAX),
        text("0"),
        text("1"),
        text("z"),
        text("x"),
    ] {
        let b = decode_bit(&v).unwrap();
        assert_eq!(encode_bit(b), v);
    }
}

#[test]
fn bit_encode_then_decode_is_identity() {
    for b in [Bit::Signal(0), Bit::Signal(42), Bit::_0, Bit::_1, Bit::Z, Bit::X] {
        assert_eq!(decode_bit(&encode_bit(b)).unwrap(), b);
    }
}

#[test]
fn bit_rejects_uppercase_and_unknown_strings() {
    for v in [text("Z"), text("X"), text("Q"), text(""), Json::Null, Json::Bool(true), Json::Nint(
        -1,
    )] {
        let e = decode_bit(&v).unwrap_err();
        assert_eq!(e.kind, ErrorKind::InvalidBitValue);
    }
}

#[test]
fn bit_error_names_the_value() {
    let e = decode_bit(&text("Q")).unwrap_err();
    assert_eq!(e.kind, ErrorKind::InvalidBitValue);
    assert_eq!(e.found, Some(text("Q")));
}

#[test]
fn flag_decodes_one_as_true_everything_else_false() {
    assert_eq!(decode_flag(&Json::Uint(1)).unwrap(), true);
    assert_eq!(decode_flag(&Json::Uint(0)).unwrap(), false);
    assert_eq!(decode_flag(&Json::Uint(2)).unwrap(), false);
    assert_eq!(decode_flag(&Json::Uint(u64::MAX)).unwrap(), false);
    assert_eq!(decode_flag(&Json::Nint(-5)).unwrap(), false);
    let e = decode_flag(&text("1")).unwrap_err();
    assert_eq!(e.kind, ErrorKind::InvalidFlagValue);
}

#[test]
fn flag_always_encodes_zero() {
    assert_eq!(encode_flag(true), Json::Uint(0));
    assert_eq!(encode_flag(false), Json::Uint(0));
}

#[test]
fn bits_decode_in_order() {
    let bits = decode_bits(&vec![Json::Uint(3), text("1"), text("x")]).unwrap();
    assert_eq!(bits, vec![Bit::Signal(3), Bit::_1, Bit::X]);
    assert_eq!(
        encode_bits(&bits),
        vec![Json::Uint(3), text("1"), text("x")]
    );
}

#[test]
fn bits_error_carries_the_bad_element() {
    let e = decode_bits(&vec![Json::Uint(3), text("Q")]).unwrap_err();
    assert_eq!(e.kind, ErrorKind::InvalidBitValue);
    assert_eq!(e.found, Some(text("Q")));
}

fn simple_port() -> Json {
    obj(vec![
        ("direction", text("input")),
        ("bits", Json::Arr(vec![Json::Uint(0), text("1"), text("x")])),
    ])
}

#[test]
fn port_decodes_with_defaults() {
    let p = decode_port(&simple_port()).unwrap();
    assert_eq!(p.direction, Direction::Input);
    assert_eq!(p.bits, vec![Bit::Signal(0), Bit::_1, Bit::X]);
    assert_eq!(p.offset, 0);
    assert_eq!(p.upto, 0);
    assert_eq!(p.signed, false);
    assert!(p.extra.is_empty());
}

#[test]
fn port_requires_direction_and_bits() {
    let e = decode_port(&obj(vec![("bits", Json::Arr(vec![]))])).unwrap_err();
    assert_eq!(e.kind, ErrorKind::MissingRequiredField);
    assert_eq!(e.path, vec![s("direction")]);
    let e = decode_port(&obj(vec![("direction", text("input"))])).unwrap_err();
    assert_eq!(e.kind, ErrorKind::MissingRequiredField);
    assert_eq!(e.path, vec![s("bits")]);
}

#[test]
fn port_annotates_nested_bit_errors() {
    let bad = obj(vec![
        ("direction", text("input")),
        ("bits", Json::Arr(vec![text("Q")])),
    ]);
    let e = decode_port(&bad).unwrap_err();
    assert_eq!(e.kind, ErrorKind::InvalidBitValue);
    assert_eq!(e.path, vec![s("bits")]);
    assert_eq!(e.found, Some(text("Q")));
}

#[test]
fn port_rejects_bad_direction_and_bad_shapes() {
    let e = decode_port(&obj(vec![
        ("direction", text("up")),
        ("bits", Json::Arr(vec![])),
    ]))
    .unwrap_err();
    assert_eq!(e.kind, ErrorKind::TypeMismatch);
    assert_eq!(e.path, vec![s("direction")]);
    let e = decode_port(&obj(vec![
        ("direction", text("input")),
        ("bits", Json::Uint(3)),
    ]))
    .unwrap_err();
    assert_eq!(e.kind, ErrorKind::TypeMismatch);
    assert_eq!(e.path, vec![s("bits")]);
    let e = decode_port(&Json::Uint(1)).unwrap_err();
    assert_eq!(e.kind, ErrorKind::TypeMismatch);
    assert!(e.path.is_empty());
}

#[test]
fn port_keeps_unknown_fields_in_order() {
    let p = decode_port(&obj(vec![
        ("zeta", Json::Uint(9)),
        ("direction", text("output")),
        ("bits", Json::Arr(vec![])),
        ("alpha", Json::Bool(true)),
    ]))
    .unwrap();
    assert_eq!(
        p.extra,
        vec![(s("zeta"), Json::Uint(9)), (s("alpha"), Json::Bool(true))]
    );
    // re-encoding puts known fields first, in schema order, then passthrough
    let enc = encode_port(&p);
    let entries = match enc {
        Json::Obj(entries) => entries,
        _ => panic!("port must encode to an object"),
    };
    let keys: Vec<String> = entries.iter().map(|(k, _)| k.clone()).collect();
    assert_eq!(
        keys,
        vec![
            s("direction"),
            s("bits"),
            s("offset"),
            s("upto"),
            s("signed"),
            s("zeta"),
            s("alpha")
        ]
    );
}

#[test]
fn memory_requires_width_and_size() {
    let m = decode_memory(&obj(vec![
        ("width", Json::Uint(8)),
        ("size", Json::Uint(256)),
    ]))
    .unwrap();
    assert_eq!(m.width, 8);
    assert_eq!(m.size, 256);
    assert_eq!(m.start_offset, 0);
    assert_eq!(m.hide_name, false);
    let e = decode_memory(&obj(vec![("size", Json::Uint(256))])).unwrap_err();
    assert_eq!(e.kind, ErrorKind::MissingRequiredField);
    assert_eq!(e.path, vec![s("width")]);
}

#[test]
fn net_round_trips_with_attributes() {
    let n = decode_net(&obj(vec![
        ("hide_name", Json::Uint(1)),
        ("attributes", obj(vec![("src", text("a.v:1"))])),
        ("bits", Json::Arr(vec![Json::Uint(2), Json::Uint(3)])),
    ]))
    .unwrap();
    assert_eq!(n.hide_name, true);
    assert_eq!(n.bits, vec![Bit::Signal(2), Bit::Signal(3)]);
    let enc = encode_net(&n);
    let entries = match enc {
        Json::Obj(entries) => entries,
        _ => panic!("net must encode to an object"),
    };
    // hide_name is re-encoded as 0 even though it decoded to true: the
    // format-mandated asymmetric flag convention
    assert_eq!(entries[0], (s("hide_name"), Json::Uint(0)));
    assert_eq!(entries[1], (s("attributes"), obj(vec![("src", text("a.v:1"))])));
}

#[test]
fn cell_decodes_connections_and_directions() {
    let c = decode_cell(&obj(vec![
        ("type", text("AND2")),
        ("port_directions", obj(vec![("A", text("input")), ("Y", text("output"))])),
        ("connections", obj(vec![
            ("A", Json::Arr(vec![Json::Uint(4)])),
            ("Y", Json::Arr(vec![Json::Uint(5)])),
        ])),
    ]))
    .unwrap();
    assert_eq!(c.module, s("AND2"));
    assert_eq!(
        c.port_directions,
        vec![(s("A"), Direction::Input), (s("Y"), Direction::Output)]
    );
    assert_eq!(
        c.connections,
        vec![(s("A"), vec![Bit::Signal(4)]), (s("Y"), vec![Bit::Signal(5)])]
    );
    let e = decode_cell(&obj(vec![("hide_name", Json::Uint(0))])).unwrap_err();
    assert_eq!(e.kind, ErrorKind::MissingRequiredField);
    assert_eq!(e.path, vec![s("type")]);
}

#[test]
fn cell_annotates_connection_errors_with_the_port() {
    let e = decode_cell(&obj(vec![
        ("type", text("AND2")),
        ("connections", obj(vec![("A", Json::Arr(vec![text("Q")]))])),
    ]))
    .unwrap_err();
    assert_eq!(e.kind, ErrorKind::InvalidBitValue);
    assert_eq!(e.path, vec![s("connections"), s("A")]);
}

#[test]
fn module_defaults_absent_mappings_to_empty() {
    // no "ports" and no "netnames" keys at all: still a valid module
    let m = decode_module(&obj(vec![])).unwrap();
    assert!(m.ports.is_empty());
    assert!(m.nets.is_empty());
    assert!(m.cells.is_empty());
    assert!(m.memories.is_empty());
    assert!(m.attributes.is_empty());
    assert!(m.extra.is_empty());
}

#[test]
fn netlist_requires_creator_and_modules() {
    let e = decode_netlist(&obj(vec![("modules", obj(vec![]))])).unwrap_err();
    assert_eq!(e.kind, ErrorKind::MissingRequiredField);
    assert_eq!(e.path, vec![s("creator")]);
    let e = decode_netlist(&obj(vec![("creator", text("t"))])).unwrap_err();
    assert_eq!(e.kind, ErrorKind::MissingRequiredField);
    assert_eq!(e.path, vec![s("modules")]);
    let e = decode_netlist(&obj(vec![("creator", Json::Uint(3)), ("modules", obj(vec![]))]))
        .unwrap_err();
    assert_eq!(e.kind, ErrorKind::TypeMismatch);
    assert_eq!(e.path, vec![s("creator")]);
}

#[test]
fn netlist_error_paths_reach_into_modules() {
    let doc = obj(vec![
        ("creator", text("t")),
        ("modules", obj(vec![("m", obj(vec![("ports", obj(vec![("p", obj(vec![(
            "direction",
            text("input"),
        )]))]))]))])),
    ]);
    let e = decode_netlist(&doc).unwrap_err();
    assert_eq!(e.kind, ErrorKind::MissingRequiredField);
    assert_eq!(e.path, vec![s("modules"), s("m"), s("ports"), s("p"), s("bits")]);
}

#[test]
fn unrecognized_top_level_key_passes_through() {
    let doc = obj(vec![
        ("creator", text("t")),
        ("modules", obj(vec![])),
        ("foo", Json::Uint(1)),
    ]);
    let n = decode_netlist(&doc).unwrap();
    assert_eq!(n.extra, vec![(s("foo"), Json::Uint(1))]);
    let enc = encode_netlist(&n);
    let entries = match enc {
        Json::Obj(entries) => entries,
        _ => panic!("netlist must encode to an object"),
    };
    assert_eq!(entries[0], (s("creator"), text("t")));
    assert_eq!(entries[1], (s("modules"), obj(vec![])));
    assert_eq!(entries[2], (s("foo"), Json::Uint(1)));
    assert_eq!(entries.len(), 3);
}

#[test]
fn round_trip_keeps_mapping_order() {
    let module = obj(vec![]);
    let doc = obj(vec![
        ("creator", text("t")),
        ("modules", obj(vec![
            ("zeta", module.clone()),
            ("alpha", module.clone()),
            ("mid", module),
        ])),
    ]);
    let n = decode_netlist(&doc).unwrap();
    let names: Vec<String> = n.modules.iter().map(|(k, _)| k.clone()).collect();
    assert_eq!(names, vec![s("zeta"), s("alpha"), s("mid")]);
    let enc = encode_netlist(&n);
    let entries = match enc {
        Json::Obj(entries) => entries,
        _ => panic!("netlist must encode to an object"),
    };
    let emitted = match &entries[1].1 {
        Json::Obj(mods) => mods.iter().map(|(k, _)| k.clone()).collect::<Vec<String>>(),
        _ => panic!("modules must encode to an object"),
    };
    assert_eq!(emitted, vec![s("zeta"), s("alpha"), s("mid")]);
}

#[test]
fn end_to_end_scenario() {
    let doc = obj(vec![
        ("creator", text("t")),
        ("modules", obj(vec![("m", obj(vec![("ports", obj(vec![("p", obj(vec![
            ("direction", text("input")),
            ("bits", Json::Arr(vec![Json::Uint(0), text("1"), text("x")])),
        ]))]))]))])),
    ]);
    let n = decode_netlist(&doc).unwrap();
    assert_eq!(n.creator, s("t"));
    assert!(n.extra.is_empty());
    assert_eq!(n.modules.len(), 1);
    assert_eq!(n.modules[0].0, s("m"));
    let m = &n.modules[0].1;
    assert_eq!(m.ports.len(), 1);
    assert_eq!(m.ports[0].0, s("p"));
    let p = &m.ports[0].1;
    assert_eq!(p.direction, Direction::Input);
    assert_eq!(p.bits, vec![Bit::Signal(0), Bit::_1, Bit::X]);
    assert_eq!(p.offset, 0);
    assert_eq!(p.upto, 0);
    assert_eq!(p.signed, false);
    assert!(p.extra.is_empty());

    let enc = encode_netlist(&n);
    let entries = match enc {
        Json::Obj(entries) => entries,
        _ => panic!("netlist must encode to an object"),
    };
    assert_eq!(entries.len(), 2);
    assert_eq!(entries[0], (s("creator"), text("t")));
    let mods = match &entries[1].1 {
        Json::Obj(mods) => mods,
        _ => panic!("modules must encode to an object"),
    };
    assert_eq!(mods.len(), 1);
    assert_eq!(mods[0].0, s("m"));
    let module_entries = match &mods[0].1 {
        Json::Obj(v) => v,
        _ => panic!("module must encode to an object"),
    };
    let keys: Vec<String> = module_entries.iter().map(|(k, _)| k.clone()).collect();
    assert_eq!(
        keys,
        vec![s("attributes"), s("ports"), s("cells"), s("memories"), s("netnames")]
    );
    let ports = match &module_entries[1].1 {
        Json::Obj(v) => v,
        _ => panic!("ports must encode to an object"),
    };
    assert_eq!(
        ports[0].1,
        obj(vec![
            ("direction", text("input")),
            ("bits", Json::Arr(vec![Json::Uint(0), text("1"), text("x")])),
            ("offset", Json::Uint(0)),
            ("upto", Json::Uint(0)),
            ("signed", Json::Uint(0)),
        ])
    );
}

#[test]
fn netlist_new_is_empty() {
    let n = Netlist::new("tool");
    assert_eq!(n.creator, s("tool"));
    assert!(n.modules.is_empty());
    assert!(n.extra.is_empty());
}

#[test]
fn clone_json_is_deep_and_equal() {
    let doc = obj(vec![
        ("a", Json::Arr(vec![Json::Null, Json::Bool(false), Json::Nint(-2)])),
        ("b", obj(vec![("c", text("d"))])),
    ]);
    assert_eq!(clone_json(&doc), doc);
}

#[test]
fn module_keeps_unknown_fields_after_known_on_encode() {
    let m = decode_module(&obj(vec![
        ("vendor", text("acme")),
        ("attributes", obj(vec![("top", Json::Uint(1))])),
    ]))
    .unwrap();
    assert_eq!(m.extra, vec![(s("vendor"), text("acme"))]);
    let entries = match encode_module(&m) {
        Json::Obj(entries) => entries,
        _ => panic!("module must encode to an object"),
    };
    let keys: Vec<String> = entries.iter().map(|(k, _)| k.clone()).collect();
    assert_eq!(
        keys,
        vec![
            s("attributes"),
            s("ports"),
            s("cells"),
            s("memories"),
            s("netnames"),
            s("vendor")
        ]
    );
}

#[test]
fn flag_field_error_names_the_field() {
    let e = decode_port(&obj(vec![
        ("direction", text("input")),
        ("bits", Json::Arr(vec![])),
        ("signed", text("yes")),
    ]))
    .unwrap_err();
    assert_eq!(e.kind, ErrorKind::InvalidFlagValue);
    assert_eq!(e.path, vec![s("signed")]);
    assert_eq!(e.found, Some(text("yes")));
}

#[test]
fn attributes_must_be_an_object() {
    let e = decode_module(&obj(vec![("attributes", Json::Uint(1))])).unwrap_err();
    assert_eq!(e.kind, ErrorKind::TypeMismatch);
    assert_eq!(e.path, vec![s("attributes")]);
}

#[test]
fn bad_port_direction_in_cell_is_annotated() {
    let e = decode_cell(&obj(vec![
        ("type", text("AND2")),
        ("port_directions", obj(vec![("A", text("sideways"))])),
    ]))
    .unwrap_err();
    assert_eq!(e.kind, ErrorKind::TypeMismatch);
    assert_eq!(e.path, vec![s("port_directions"), s("A")]);
}
