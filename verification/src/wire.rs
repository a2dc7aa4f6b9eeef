//! The wire format itself, as specification functions over the JSON model.
//!
//! For each entity there is a `parse_*` function, saying exactly what decoding
//! returns on every JSON value, and an `emit_*` function, saying exactly what
//! encoding produces: known fields first, in the schema's canonical order,
//! then the passthrough fields in their stored order. The executable codec is
//! proved equal to these functions.

use vstd::prelude::*;
use crate::json::JVal;
use crate::model::{Bit, Direction, PortV, CellV, MemoryV, NetV, ModuleV, NetlistV};
use crate::error::{ErrV, bit_err, flag_err, missing_err, mismatch_err, not_object_err, err_at};

verus! {

/// The first value held under a key, if any.
pub open spec fn obj_get(o: Seq<(Seq<char>, JVal)>, k: Seq<char>) -> Option<JVal>
    decreases o.len(),
{
    if o.len() == 0 {
        None
    } else if o[0].0 == k {
        Some(o[0].1)
    } else {
        obj_get(o.subrange(1, o.len() as int), k)
    }
}

/// The entries whose keys the schema does not recognize, in their original
/// order: the passthrough mapping.
pub open spec fn rest_of(o: Seq<(Seq<char>, JVal)>, known: spec_fn(Seq<char>) -> bool) -> Seq<
    (Seq<char>, JVal),
>
    decreases o.len(),
{
    if o.len() == 0 {
        Seq::empty()
    } else if known(o[0].0) {
        rest_of(o.subrange(1, o.len() as int), known)
    } else {
        seq![o[0]] + rest_of(o.subrange(1, o.len() as int), known)
    }
}

/// The keys of an object, in order.
pub open spec fn obj_keys(o: Seq<(Seq<char>, JVal)>) -> Seq<Seq<char>> {
    Seq::new(o.len(), |i: int| o[i].0)
}

// ---------------------------------------------------------------- bit codec
/// Decoding a single bit wire value: a non-negative integer is a signal
/// identifier; "0", "1", "z", "x" (lowercase only) are the four constants;
/// anything else is an invalid bit value.
pub open spec fn parse_bit(v: JVal) -> Result<Bit, ErrV> {
    match v {
        JVal::Uint(n) => Ok(Bit::Signal(n)),
        JVal::Text(s) => if s == "0"@ {
            Ok(Bit::_0)
        } else if s == "1"@ {
            Ok(Bit::_1)
        } else if s == "z"@ {
            Ok(Bit::Z)
        } else if s == "x"@ {
            Ok(Bit::X)
        } else {
            Err(bit_err(v))
        },
        _ => Err(bit_err(v)),
    }
}

/// Encoding a single bit: a signal identifier becomes a JSON integer, a
/// constant becomes its one-character lowercase string.
pub open spec fn emit_bit(b: Bit) -> JVal {
    match b {
        Bit::Signal(n) => JVal::Uint(n),
        Bit::_0 => JVal::Text("0"@),
        Bit::_1 => JVal::Text("1"@),
        Bit::Z => JVal::Text("z"@),
        Bit::X => JVal::Text("x"@),
    }
}

// --------------------------------------------------------------- flag codec
/// Decoding a boolean flag: an integer equal to 1 is true, any other integer
/// is false; a non-integer is no flag at all.
pub open spec fn parse_flag_value(v: JVal) -> Option<bool> {
    match v {
        JVal::Uint(n) => Some(n == 1),
        JVal::Nint(_) => Some(false),
        _ => None,
    }
}

/// Decoding a standalone boolean flag: the failure names the value found.
pub open spec fn parse_flag(v: JVal) -> Result<bool, ErrV> {
    match parse_flag_value(v) {
        Some(b) => Ok(b),
        None => Err(crate::error::flag_err_value(v)),
    }
}

/// Encoding a boolean flag always writes the integer 0, whatever the flag
/// is: the format's producing tool does so, and bit-exact compatibility with
/// it is required. A true flag therefore does not survive a round trip; this
/// mirrors the established ecosystem and must not be "fixed" here.
pub open spec fn emit_flag(b: bool) -> JVal {
    JVal::Uint(0)
}

// ---------------------------------------------------------------- direction
/// Decoding a port direction string.
pub open spec fn parse_direction(v: JVal) -> Option<Direction> {
    match v {
        JVal::Text(s) => if s == "input"@ {
            Some(Direction::Input)
        } else if s == "output"@ {
            Some(Direction::Output)
        } else if s == "inout"@ {
            Some(Direction::InOut)
        } else {
            None
        },
        _ => None,
    }
}

/// Encoding a port direction.
pub open spec fn emit_direction(d: Direction) -> JVal {
    match d {
        Direction::Input => JVal::Text("input"@),
        Direction::Output => JVal::Text("output"@),
        Direction::InOut => JVal::Text("inout"@),
    }
}

// ------------------------------------------------------------ field helpers
/// A field the schema requires.
pub open spec fn req_field(o: Seq<(Seq<char>, JVal)>, k: Seq<char>) -> Result<JVal, ErrV> {
    match obj_get(o, k) {
        Some(v) => Ok(v),
        None => Err(missing_err(k)),
    }
}

/// An optional non-negative integer field, defaulting to 0.
pub open spec fn uint_field(o: Seq<(Seq<char>, JVal)>, k: Seq<char>) -> Result<u64, ErrV> {
    match obj_get(o, k) {
        None => Ok(0),
        Some(v) => match v {
            JVal::Uint(n) => Ok(n),
            _ => Err(mismatch_err(k, v)),
        },
    }
}

/// A required non-negative integer field.
pub open spec fn uint_req_field(o: Seq<(Seq<char>, JVal)>, k: Seq<char>) -> Result<u64, ErrV> {
    match req_field(o, k) {
        Err(e) => Err(e),
        Ok(v) => match v {
            JVal::Uint(n) => Ok(n),
            _ => Err(mismatch_err(k, v)),
        },
    }
}

/// A required string field.
pub open spec fn text_req_field(o: Seq<(Seq<char>, JVal)>, k: Seq<char>) -> Result<
    Seq<char>,
    ErrV,
> {
    match req_field(o, k) {
        Err(e) => Err(e),
        Ok(v) => match v {
            JVal::Text(s) => Ok(s),
            _ => Err(mismatch_err(k, v)),
        },
    }
}

/// An optional boolean-flag field, defaulting to false.
pub open spec fn flag_field(o: Seq<(Seq<char>, JVal)>, k: Seq<char>) -> Result<bool, ErrV> {
    match obj_get(o, k) {
        None => Ok(false),
        Some(v) => match parse_flag_value(v) {
            Some(b) => Ok(b),
            None => Err(flag_err(k, v)),
        },
    }
}

/// An optional object field, defaulting to the empty mapping; its entries are
/// kept as they stand, order included.
pub open spec fn obj_field(o: Seq<(Seq<char>, JVal)>, k: Seq<char>) -> Result<
    Seq<(Seq<char>, JVal)>,
    ErrV,
> {
    match obj_get(o, k) {
        None => Ok(Seq::empty()),
        Some(v) => match v {
            JVal::Obj(e) => Ok(e),
            _ => Err(mismatch_err(k, v)),
        },
    }
}

// ----------------------------------------------------------------- bit rows
/// Decoding an array of bit values; the first invalid element fails the whole
/// array.
pub open spec fn parse_bits(a: Seq<JVal>) -> Result<Seq<Bit>, ErrV>
    decreases a.len(),
{
    if a.len() == 0 {
        Ok(Seq::empty())
    } else {
        match parse_bit(a[0]) {
            Err(e) => Err(e),
            Ok(b) => match parse_bits(a.subrange(1, a.len() as int)) {
                Err(e) => Err(e),
                Ok(r) => Ok(seq![b] + r),
            },
        }
    }
}

/// A required field holding an array of bit values.
pub open spec fn bits_field(o: Seq<(Seq<char>, JVal)>, k: Seq<char>) -> Result<Seq<Bit>, ErrV> {
    match req_field(o, k) {
        Err(e) => Err(e),
        Ok(v) => match v {
            JVal::Arr(a) => match parse_bits(a) {
                Err(e) => Err(err_at(e, k)),
                Ok(bs) => Ok(bs),
            },
            _ => Err(mismatch_err(k, v)),
        },
    }
}

/// Encoding a row of bits.
pub open spec fn emit_bits(bs: Seq<Bit>) -> Seq<JVal> {
    Seq::new(bs.len(), |i: int| emit_bit(bs[i]))
}

// -------------------------------------------------------------- known keys
pub open spec fn port_known_key(k: Seq<char>) -> bool {
    k == "direction"@ || k == "bits"@ || k == "offset"@ || k == "upto"@ || k == "signed"@
}

pub open spec fn cell_known_key(k: Seq<char>) -> bool {
    k == "hide_name"@ || k == "type"@ || k == "attributes"@ || k == "parameters"@ || k
        == "port_directions"@ || k == "connections"@
}

pub open spec fn memory_known_key(k: Seq<char>) -> bool {
    k == "hide_name"@ || k == "attributes"@ || k == "width"@ || k == "size"@ || k
        == "start_offset"@
}

pub open spec fn net_known_key(k: Seq<char>) -> bool {
    k == "hide_name"@ || k == "attributes"@ || k == "bits"@ || k == "offset"@ || k == "upto"@
        || k == "signed"@
}

pub open spec fn module_known_key(k: Seq<char>) -> bool {
    k == "attributes"@ || k == "ports"@ || k == "cells"@ || k == "memories"@ || k == "netnames"@
}

pub open spec fn netlist_known_key(k: Seq<char>) -> bool {
    k == "creator"@ || k == "modules"@
}

// -------------------------------------------------------------------- port
pub open spec fn parse_port_obj(o: Seq<(Seq<char>, JVal)>) -> Result<PortV, ErrV> {
    match req_field(o, "direction"@) {
        Err(e) => Err(e),
        Ok(dv) => match parse_direction(dv) {
            None => Err(mismatch_err("direction"@, dv)),
            Some(d) => match bits_field(o, "bits"@) {
                Err(e) => Err(e),
                Ok(bs) => match uint_field(o, "offset"@) {
                    Err(e) => Err(e),
                    Ok(off) => match uint_field(o, "upto"@) {
                        Err(e) => Err(e),
                        Ok(up) => match flag_field(o, "signed"@) {
                            Err(e) => Err(e),
                            Ok(sg) => Ok(
                                PortV {
                                    direction: d,
                                    bits: bs,
                                    offset: off,
                                    upto: up,
                                    signed: sg,
                                    extra: rest_of(o, |k: Seq<char>| port_known_key(k)),
                                },
                            ),
                        },
                    },
                },
            },
        },
    }
}

pub open spec fn parse_port(v: JVal) -> Result<PortV, ErrV> {
    match v {
        JVal::Obj(o) => parse_port_obj(o),
        _ => Err(not_object_err(v)),
    }
}

pub open spec fn emit_port(p: PortV) -> JVal {
    JVal::Obj(
        seq![
            ("direction"@, emit_direction(p.direction)),
            ("bits"@, JVal::Arr(emit_bits(p.bits))),
            ("offset"@, JVal::Uint(p.offset)),
            ("upto"@, JVal::Uint(p.upto)),
            ("signed"@, emit_flag(p.signed)),
        ] + p.extra,
    )
}

// -------------------------------------------------------------------- cell
pub open spec fn parse_dirs(o: Seq<(Seq<char>, JVal)>) -> Result<
    Seq<(Seq<char>, Direction)>,
    ErrV,
>
    decreases o.len(),
{
    if o.len() == 0 {
        Ok(Seq::empty())
    } else {
        match parse_direction(o[0].1) {
            None => Err(mismatch_err(o[0].0, o[0].1)),
            Some(d) => match parse_dirs(o.subrange(1, o.len() as int)) {
                Err(e) => Err(e),
                Ok(r) => Ok(seq![(o[0].0, d)] + r),
            },
        }
    }
}

pub open spec fn parse_conns(o: Seq<(Seq<char>, JVal)>) -> Result<
    Seq<(Seq<char>, Seq<Bit>)>,
    ErrV,
>
    decreases o.len(),
{
    if o.len() == 0 {
        Ok(Seq::empty())
    } else {
        match o[0].1 {
            JVal::Arr(a) => match parse_bits(a) {
                Err(e) => Err(err_at(e, o[0].0)),
                Ok(bs) => match parse_conns(o.subrange(1, o.len() as int)) {
                    Err(e) => Err(e),
                    Ok(r) => Ok(seq![(o[0].0, bs)] + r),
                },
            },
            _ => Err(mismatch_err(o[0].0, o[0].1)),
        }
    }
}

/// An optional object field of direction strings.
pub open spec fn dirs_field(o: Seq<(Seq<char>, JVal)>, k: Seq<char>) -> Result<
    Seq<(Seq<char>, Direction)>,
    ErrV,
> {
    match obj_field(o, k) {
        Err(e) => Err(e),
        Ok(entries) => match parse_dirs(entries) {
            Err(e) => Err(err_at(e, k)),
            Ok(s) => Ok(s),
        },
    }
}

/// An optional object field of bit arrays.
pub open spec fn conns_field(o: Seq<(Seq<char>, JVal)>, k: Seq<char>) -> Result<
    Seq<(Seq<char>, Seq<Bit>)>,
    ErrV,
> {
    match obj_field(o, k) {
        Err(e) => Err(e),
        Ok(entries) => match parse_conns(entries) {
            Err(e) => Err(err_at(e, k)),
            Ok(s) => Ok(s),
        },
    }
}

pub open spec fn parse_cell_obj(o: Seq<(Seq<char>, JVal)>) -> Result<CellV, ErrV> {
    match flag_field(o, "hide_name"@) {
        Err(e) => Err(e),
        Ok(hn) => match text_req_field(o, "type"@) {
            Err(e) => Err(e),
            Ok(ty) => match obj_field(o, "attributes"@) {
                Err(e) => Err(e),
                Ok(attrs) => match obj_field(o, "parameters"@) {
                    Err(e) => Err(e),
                    Ok(params) => match dirs_field(o, "port_directions"@) {
                        Err(e) => Err(e),
                        Ok(pd) => match conns_field(o, "connections"@) {
                            Err(e) => Err(e),
                            Ok(cn) => Ok(
                                CellV {
                                    hide_name: hn,
                                    module: ty,
                                    attributes: attrs,
                                    parameters: params,
                                    port_directions: pd,
                                    connections: cn,
                                    extra: rest_of(o, |k: Seq<char>| cell_known_key(k)),
                                },
                            ),
                        },
                    },
                },
            },
        },
    }
}

pub open spec fn parse_cell(v: JVal) -> Result<CellV, ErrV> {
    match v {
        JVal::Obj(o) => parse_cell_obj(o),
        _ => Err(not_object_err(v)),
    }
}

pub open spec fn emit_dirs(s: Seq<(Seq<char>, Direction)>) -> Seq<(Seq<char>, JVal)> {
    Seq::new(s.len(), |i: int| (s[i].0, emit_direction(s[i].1)))
}

pub open spec fn emit_conns(s: Seq<(Seq<char>, Seq<Bit>)>) -> Seq<(Seq<char>, JVal)> {
    Seq::new(s.len(), |i: int| (s[i].0, JVal::Arr(emit_bits(s[i].1))))
}

pub open spec fn emit_cell(c: CellV) -> JVal {
    JVal::Obj(
        seq![
            ("hide_name"@, emit_flag(c.hide_name)),
            ("type"@, JVal::Text(c.module)),
            ("attributes"@, JVal::Obj(c.attributes)),
            ("parameters"@, JVal::Obj(c.parameters)),
            ("port_directions"@, JVal::Obj(emit_dirs(c.port_directions))),
            ("connections"@, JVal::Obj(emit_conns(c.connections))),
        ] + c.extra,
    )
}

// ------------------------------------------------------------------ memory
pub open spec fn parse_memory_obj(o: Seq<(Seq<char>, JVal)>) -> Result<MemoryV, ErrV> {
    match flag_field(o, "hide_name"@) {
        Err(e) => Err(e),
        Ok(hn) => match obj_field(o, "attributes"@) {
            Err(e) => Err(e),
            Ok(attrs) => match uint_req_field(o, "width"@) {
                Err(e) => Err(e),
                Ok(w) => match uint_req_field(o, "size"@) {
                    Err(e) => Err(e),
                    Ok(sz) => match uint_field(o, "start_offset"@) {
                        Err(e) => Err(e),
                        Ok(so) => Ok(
                            MemoryV {
                                hide_name: hn,
                                attributes: attrs,
                                width: w,
                                size: sz,
                                start_offset: so,
                                extra: rest_of(o, |k: Seq<char>| memory_known_key(k)),
                            },
                        ),
                    },
                },
            },
        },
    }
}

pub open spec fn parse_memory(v: JVal) -> Result<MemoryV, ErrV> {
    match v {
        JVal::Obj(o) => parse_memory_obj(o),
        _ => Err(not_object_err(v)),
    }
}

pub open spec fn emit_memory(m: MemoryV) -> JVal {
    JVal::Obj(
        seq![
            ("hide_name"@, emit_flag(m.hide_name)),
            ("attributes"@, JVal::Obj(m.attributes)),
            ("width"@, JVal::Uint(m.width)),
            ("size"@, JVal::Uint(m.size)),
            ("start_offset"@, JVal::Uint(m.start_offset)),
        ] + m.extra,
    )
}

// --------------------------------------------------------------------- net
pub open spec fn parse_net_obj(o: Seq<(Seq<char>, JVal)>) -> Result<NetV, ErrV> {
    match flag_field(o, "hide_name"@) {
        Err(e) => Err(e),
        Ok(hn) => match obj_field(o, "attributes"@) {
            Err(e) => Err(e),
            Ok(attrs) => match bits_field(o, "bits"@) {
                Err(e) => Err(e),
                Ok(bs) => match uint_field(o, "offset"@) {
                    Err(e) => Err(e),
                    Ok(off) => match uint_field(o, "upto"@) {
                        Err(e) => Err(e),
                        Ok(up) => match flag_field(o, "signed"@) {
                            Err(e) => Err(e),
                            Ok(sg) => Ok(
                                NetV {
                                    hide_name: hn,
                                    attributes: attrs,
                                    bits: bs,
                                    offset: off,
                                    upto: up,
                                    signed: sg,
                                    extra: rest_of(o, |k: Seq<char>| net_known_key(k)),
                                },
                            ),
                        },
                    },
                },
            },
        },
    }
}

pub open spec fn parse_net(v: JVal) -> Result<NetV, ErrV> {
    match v {
        JVal::Obj(o) => parse_net_obj(o),
        _ => Err(not_object_err(v)),
    }
}

pub open spec fn emit_net(n: NetV) -> JVal {
    JVal::Obj(
        seq![
            ("hide_name"@, emit_flag(n.hide_name)),
            ("attributes"@, JVal::Obj(n.attributes)),
            ("bits"@, JVal::Arr(emit_bits(n.bits))),
            ("offset"@, JVal::Uint(n.offset)),
            ("upto"@, JVal::Uint(n.upto)),
            ("signed"@, emit_flag(n.signed)),
        ] + n.extra,
    )
}

// ------------------------------------------------------------------ module
pub open spec fn parse_ports(o: Seq<(Seq<char>, JVal)>) -> Result<Seq<(Seq<char>, PortV)>, ErrV>
    decreases o.len(),
{
    if o.len() == 0 {
        Ok(Seq::empty())
    } else {
        match parse_port(o[0].1) {
            Err(e) => Err(err_at(e, o[0].0)),
            Ok(p) => match parse_ports(o.subrange(1, o.len() as int)) {
                Err(e) => Err(e),
                Ok(r) => Ok(seq![(o[0].0, p)] + r),
            },
        }
    }
}

pub open spec fn parse_cells(o: Seq<(Seq<char>, JVal)>) -> Result<Seq<(Seq<char>, CellV)>, ErrV>
    decreases o.len(),
{
    if o.len() == 0 {
        Ok(Seq::empty())
    } else {
        match parse_cell(o[0].1) {
            Err(e) => Err(err_at(e, o[0].0)),
            Ok(c) => match parse_cells(o.subrange(1, o.len() as int)) {
                Err(e) => Err(e),
                Ok(r) => Ok(seq![(o[0].0, c)] + r),
            },
        }
    }
}

pub open spec fn parse_memories(o: Seq<(Seq<char>, JVal)>) -> Result<
    Seq<(Seq<char>, MemoryV)>,
    ErrV,
>
    decreases o.len(),
{
    if o.len() == 0 {
        Ok(Seq::empty())
    } else {
        match parse_memory(o[0].1) {
            Err(e) => Err(err_at(e, o[0].0)),
            Ok(m) => match parse_memories(o.subrange(1, o.len() as int)) {
                Err(e) => Err(e),
                Ok(r) => Ok(seq![(o[0].0, m)] + r),
            },
        }
    }
}

pub open spec fn parse_nets(o: Seq<(Seq<char>, JVal)>) -> Result<Seq<(Seq<char>, NetV)>, ErrV>
    decreases o.len(),
{
    if o.len() == 0 {
        Ok(Seq::empty())
    } else {
        match parse_net(o[0].1) {
            Err(e) => Err(err_at(e, o[0].0)),
            Ok(n) => match parse_nets(o.subrange(1, o.len() as int)) {
                Err(e) => Err(e),
                Ok(r) => Ok(seq![(o[0].0, n)] + r),
            },
        }
    }
}

pub open spec fn ports_field(o: Seq<(Seq<char>, JVal)>, k: Seq<char>) -> Result<
    Seq<(Seq<char>, PortV)>,
    ErrV,
> {
    match obj_field(o, k) {
        Err(e) => Err(e),
        Ok(entries) => match parse_ports(entries) {
            Err(e) => Err(err_at(e, k)),
            Ok(s) => Ok(s),
        },
    }
}

pub open spec fn cells_field(o: Seq<(Seq<char>, JVal)>, k: Seq<char>) -> Result<
    Seq<(Seq<char>, CellV)>,
    ErrV,
> {
    match obj_field(o, k) {
        Err(e) => Err(e),
        Ok(entries) => match parse_cells(entries) {
            Err(e) => Err(err_at(e, k)),
            Ok(s) => Ok(s),
        },
    }
}

pub open spec fn memories_field(o: Seq<(Seq<char>, JVal)>, k: Seq<char>) -> Result<
    Seq<(Seq<char>, MemoryV)>,
    ErrV,
> {
    match obj_field(o, k) {
        Err(e) => Err(e),
        Ok(entries) => match parse_memories(entries) {
            Err(e) => Err(err_at(e, k)),
            Ok(s) => Ok(s),
        },
    }
}

pub open spec fn nets_field(o: Seq<(Seq<char>, JVal)>, k: Seq<char>) -> Result<
    Seq<(Seq<char>, NetV)>,
    ErrV,
> {
    match obj_field(o, k) {
        Err(e) => Err(e),
        Ok(entries) => match parse_nets(entries) {
            Err(e) => Err(err_at(e, k)),
            Ok(s) => Ok(s),
        },
    }
}

pub open spec fn parse_module_obj(o: Seq<(Seq<char>, JVal)>) -> Result<ModuleV, ErrV> {
    match obj_field(o, "attributes"@) {
        Err(e) => Err(e),
        Ok(attrs) => match ports_field(o, "ports"@) {
            Err(e) => Err(e),
            Ok(ports) => match cells_field(o, "cells"@) {
                Err(e) => Err(e),
                Ok(cells) => match memories_field(o, "memories"@) {
                    Err(e) => Err(e),
                    Ok(mems) => match nets_field(o, "netnames"@) {
                        Err(e) => Err(e),
                        Ok(nets) => Ok(
                            ModuleV {
                                attributes: attrs,
                                ports: ports,
                                cells: cells,
                                memories: mems,
                                nets: nets,
                                extra: rest_of(o, |k: Seq<char>| module_known_key(k)),
                            },
                        ),
                    },
                },
            },
        },
    }
}

pub open spec fn parse_module(v: JVal) -> Result<ModuleV, ErrV> {
    match v {
        JVal::Obj(o) => parse_module_obj(o),
        _ => Err(not_object_err(v)),
    }
}

pub open spec fn emit_ports(s: Seq<(Seq<char>, PortV)>) -> Seq<(Seq<char>, JVal)> {
    Seq::new(s.len(), |i: int| (s[i].0, emit_port(s[i].1)))
}

pub open spec fn emit_cells(s: Seq<(Seq<char>, CellV)>) -> Seq<(Seq<char>, JVal)> {
    Seq::new(s.len(), |i: int| (s[i].0, emit_cell(s[i].1)))
}

pub open spec fn emit_memories(s: Seq<(Seq<char>, MemoryV)>) -> Seq<(Seq<char>, JVal)> {
    Seq::new(s.len(), |i: int| (s[i].0, emit_memory(s[i].1)))
}

pub open spec fn emit_nets(s: Seq<(Seq<char>, NetV)>) -> Seq<(Seq<char>, JVal)> {
    Seq::new(s.len(), |i: int| (s[i].0, emit_net(s[i].1)))
}

pub open spec fn emit_module(m: ModuleV) -> JVal {
    JVal::Obj(
        seq![
            ("attributes"@, JVal::Obj(m.attributes)),
            ("ports"@, JVal::Obj(emit_ports(m.ports))),
            ("cells"@, JVal::Obj(emit_cells(m.cells))),
            ("memories"@, JVal::Obj(emit_memories(m.memories))),
            ("netnames"@, JVal::Obj(emit_nets(m.nets))),
        ] + m.extra,
    )
}

// ----------------------------------------------------------------- netlist
pub open spec fn parse_modules(o: Seq<(Seq<char>, JVal)>) -> Result<
    Seq<(Seq<char>, ModuleV)>,
    ErrV,
>
    decreases o.len(),
{
    if o.len() == 0 {
        Ok(Seq::empty())
    } else {
        match parse_module(o[0].1) {
            Err(e) => Err(err_at(e, o[0].0)),
            Ok(m) => match parse_modules(o.subrange(1, o.len() as int)) {
                Err(e) => Err(e),
                Ok(r) => Ok(seq![(o[0].0, m)] + r),
            },
        }
    }
}

pub open spec fn parse_netlist_obj(o: Seq<(Seq<char>, JVal)>) -> Result<NetlistV, ErrV> {
    match text_req_field(o, "creator"@) {
        Err(e) => Err(e),
        Ok(c) => match req_field(o, "modules"@) {
            Err(e) => Err(e),
            Ok(mv) => match mv {
                JVal::Obj(mo) => match parse_modules(mo) {
                    Err(e) => Err(err_at(e, "modules"@)),
                    Ok(ms) => Ok(
                        NetlistV {
                            creator: c,
                            modules: ms,
                            extra: rest_of(o, |k: Seq<char>| netlist_known_key(k)),
                        },
                    ),
                },
                _ => Err(mismatch_err("modules"@, mv)),
            },
        },
    }
}

pub open spec fn parse_netlist(v: JVal) -> Result<NetlistV, ErrV> {
    match v {
        JVal::Obj(o) => parse_netlist_obj(o),
        _ => Err(not_object_err(v)),
    }
}

pub open spec fn emit_modules(s: Seq<(Seq<char>, ModuleV)>) -> Seq<(Seq<char>, JVal)> {
    Seq::new(s.len(), |i: int| (s[i].0, emit_module(s[i].1)))
}

pub open spec fn emit_netlist(n: NetlistV) -> JVal {
    JVal::Obj(
        seq![("creator"@, JVal::Text(n.creator)), ("modules"@, JVal::Obj(emit_modules(n.modules)))]
            + n.extra,
    )
}

} // verus!
