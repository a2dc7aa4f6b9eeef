//! The executable encoder: from the typed entities back to a JSON tree.
//!
//! Every function is proved to produce exactly what the corresponding
//! `emit_*` specification in [`crate::wire`] says: known fields first, in the
//! schema's canonical order, then the passthrough fields in their stored
//! order.

use vstd::prelude::*;
use crate::json::{Json, JVal, jval, jarr, jentries, clone_entries};
use crate::model::{
    Bit, Direction, Port, Cell, Memory, Net, Module, Netlist, entries_view,
};
use crate::wire::{
    emit_bit, emit_flag, emit_direction, emit_bits, emit_port, emit_dirs, emit_conns, emit_cell,
    emit_memory, emit_net, emit_ports, emit_cells, emit_memories, emit_nets, emit_module,
    emit_modules, emit_netlist,
};

verus! {

broadcast use crate::json::lemma_jarr_index, crate::json::lemma_jentries_index;

/// Encoding a single bit.
pub fn encode_bit(b: Bit) -> (r: Json)
    ensures
        r@ == emit_bit(b),
{
    match b {
        Bit::Signal(n) => Json::Uint(n),
        Bit::_0 => Json::Text(String::from_str("0")),
        Bit::_1 => Json::Text(String::from_str("1")),
        Bit::Z => Json::Text(String::from_str("z")),
        Bit::X => Json::Text(String::from_str("x")),
    }
}

/// Encoding a boolean flag always writes the integer 0; see
/// [`crate::wire::emit_flag`].
pub fn encode_flag(b: bool) -> (r: Json)
    ensures
        r@ == emit_flag(b),
{
    Json::Uint(0)
}

/// Encoding a direction.
pub fn encode_direction(d: Direction) -> (r: Json)
    ensures
        r@ == emit_direction(d),
{
    match d {
        Direction::Input => Json::Text(String::from_str("input")),
        Direction::Output => Json::Text(String::from_str("output")),
        Direction::InOut => Json::Text(String::from_str("inout")),
    }
}

/// Encoding a row of bits.
pub fn encode_bits(bs: &Vec<Bit>) -> (r: Vec<Json>)
    ensures
        jarr(r@) == emit_bits(bs@),
{
    let mut out: Vec<Json> = Vec::new();
    let mut i: usize = 0;
    while i < bs.len()
        invariant
            i <= bs.len(),
            out@.len() == i as int,
            forall|k: int| 0 <= k < i ==> jval(out@[k]) == emit_bit(bs@[k]),
        decreases bs.len() - i,
    {
        out.push(encode_bit(bs[i]));
        i += 1;
    }
    proof {
        assert(jarr(out@) =~= emit_bits(bs@));
    }
    out
}

/// Encoding an object of direction strings.
fn encode_dirs_map(v: &Vec<(String, Direction)>) -> (r: Vec<(String, Json)>)
    ensures
        jentries(r@) == emit_dirs(entries_view(v@)),
{
    let mut out: Vec<(String, Json)> = Vec::new();
    let mut i: usize = 0;
    while i < v.len()
        invariant
            i <= v.len(),
            out@.len() == i as int,
            forall|k: int| 0 <= k < i ==> out@[k].0@ == v@[k].0@ && jval(out@[k].1)
                == emit_direction(v@[k].1),
        decreases v.len() - i,
    {
        out.push((v[i].0.clone(), encode_direction(v[i].1)));
        i += 1;
    }
    proof {
        assert(jentries(out@) =~= emit_dirs(entries_view(v@)));
    }
    out
}

/// Encoding an object of bit arrays.
fn encode_conns_map(v: &Vec<(String, Vec<Bit>)>) -> (r: Vec<(String, Json)>)
    ensures
        jentries(r@) == emit_conns(entries_view(v@)),
{
    let mut out: Vec<(String, Json)> = Vec::new();
    let mut i: usize = 0;
    while i < v.len()
        invariant
            i <= v.len(),
            out@.len() == i as int,
            forall|k: int| 0 <= k < i ==> out@[k].0@ == v@[k].0@ && jval(out@[k].1)
                == JVal::Arr(emit_bits(v@[k].1@)),
        decreases v.len() - i,
    {
        out.push((v[i].0.clone(), Json::Arr(encode_bits(&v[i].1))));
        i += 1;
    }
    proof {
        assert(jentries(out@) =~= emit_conns(entries_view(v@)));
    }
    out
}

/// Encoding a port.
pub fn encode_port(p: &Port) -> (r: Json)
    ensures
        r@ == emit_port(p@),
{
    let mut o: Vec<(String, Json)> = Vec::new();
    o.push((String::from_str("direction"), encode_direction(p.direction)));
    o.push((String::from_str("bits"), Json::Arr(encode_bits(&p.bits))));
    o.push((String::from_str("offset"), Json::Uint(p.offset)));
    o.push((String::from_str("upto"), Json::Uint(p.upto)));
    o.push((String::from_str("signed"), encode_flag(p.signed)));
    let mut extra = clone_entries(&p.extra);
    o.append(&mut extra);
    proof {
        assert(jentries(o@) =~= seq![
            ("direction"@, emit_direction(p.direction)),
            ("bits"@, JVal::Arr(emit_bits(p.bits@))),
            ("offset"@, JVal::Uint(p.offset)),
            ("upto"@, JVal::Uint(p.upto)),
            ("signed"@, emit_flag(p.signed)),
        ] + jentries(p.extra@));
    }
    Json::Obj(o)
}

/// Encoding a cell.
pub fn encode_cell(c: &Cell) -> (r: Json)
    ensures
        r@ == emit_cell(c@),
{
    let mut o: Vec<(String, Json)> = Vec::new();
    o.push((String::from_str("hide_name"), encode_flag(c.hide_name)));
    o.push((String::from_str("type"), Json::Text(c.module.clone())));
    o.push((String::from_str("attributes"), Json::Obj(clone_entries(&c.attributes))));
    o.push((String::from_str("parameters"), Json::Obj(clone_entries(&c.parameters))));
    o.push((String::from_str("port_directions"), Json::Obj(encode_dirs_map(&c.port_directions))));
    o.push((String::from_str("connections"), Json::Obj(encode_conns_map(&c.connections))));
    let mut extra = clone_entries(&c.extra);
    o.append(&mut extra);
    proof {
        assert(jentries(o@) =~= seq![
            ("hide_name"@, emit_flag(c.hide_name)),
            ("type"@, JVal::Text(c.module@)),
            ("attributes"@, JVal::Obj(jentries(c.attributes@))),
            ("parameters"@, JVal::Obj(jentries(c.parameters@))),
            ("port_directions"@, JVal::Obj(emit_dirs(entries_view(c.port_directions@)))),
            ("connections"@, JVal::Obj(emit_conns(entries_view(c.connections@)))),
        ] + jentries(c.extra@));
    }
    Json::Obj(o)
}

/// Encoding a memory.
pub fn encode_memory(m: &Memory) -> (r: Json)
    ensures
        r@ == emit_memory(m@),
{
    let mut o: Vec<(String, Json)> = Vec::new();
    o.push((String::from_str("hide_name"), encode_flag(m.hide_name)));
    o.push((String::from_str("attributes"), Json::Obj(clone_entries(&m.attributes))));
    o.push((String::from_str("width"), Json::Uint(m.width)));
    o.push((String::from_str("size"), Json::Uint(m.size)));
    o.push((String::from_str("start_offset"), Json::Uint(m.start_offset)));
    let mut extra = clone_entries(&m.extra);
    o.append(&mut extra);
    proof {
        assert(jentries(o@) =~= seq![
            ("hide_name"@, emit_flag(m.hide_name)),
            ("attributes"@, JVal::Obj(jentries(m.attributes@))),
            ("width"@, JVal::Uint(m.width)),
            ("size"@, JVal::Uint(m.size)),
            ("start_offset"@, JVal::Uint(m.start_offset)),
        ] + jentries(m.extra@));
    }
    Json::Obj(o)
}

/// Encoding a net.
pub fn encode_net(n: &Net) -> (r: Json)
    ensures
        r@ == emit_net(n@),
{
    let mut o: Vec<(String, Json)> = Vec::new();
    o.push((String::from_str("hide_name"), encode_flag(n.hide_name)));
    o.push((String::from_str("attributes"), Json::Obj(clone_entries(&n.attributes))));
    o.push((String::from_str("bits"), Json::Arr(encode_bits(&n.bits))));
    o.push((String::from_str("offset"), Json::Uint(n.offset)));
    o.push((String::from_str("upto"), Json::Uint(n.upto)));
    o.push((String::from_str("signed"), encode_flag(n.signed)));
    let mut extra = clone_entries(&n.extra);
    o.append(&mut extra);
    proof {
        assert(jentries(o@) =~= seq![
            ("hide_name"@, emit_flag(n.hide_name)),
            ("attributes"@, JVal::Obj(jentries(n.attributes@))),
            ("bits"@, JVal::Arr(emit_bits(n.bits@))),
            ("offset"@, JVal::Uint(n.offset)),
            ("upto"@, JVal::Uint(n.upto)),
            ("signed"@, emit_flag(n.signed)),
        ] + jentries(n.extra@));
    }
    Json::Obj(o)
}

/// Encoding an object of ports, order kept.
fn encode_ports_map(v: &Vec<(String, Port)>) -> (r: Vec<(String, Json)>)
    ensures
        jentries(r@) == emit_ports(entries_view(v@)),
{
    let mut out: Vec<(String, Json)> = Vec::new();
    let mut i: usize = 0;
    while i < v.len()
        invariant
            i <= v.len(),
            out@.len() == i as int,
            forall|k: int| 0 <= k < i ==> out@[k].0@ == v@[k].0@ && jval(out@[k].1) == emit_port(
                v@[k].1@,
            ),
        decreases v.len() - i,
    {
        out.push((v[i].0.clone(), encode_port(&v[i].1)));
        i += 1;
    }
    proof {
        assert(jentries(out@) =~= emit_ports(entries_view(v@)));
    }
    out
}

/// Encoding an object of cells, order kept.
fn encode_cells_map(v: &Vec<(String, Cell)>) -> (r: Vec<(String, Json)>)
    ensures
        jentries(r@) == emit_cells(entries_view(v@)),
{
    let mut out: Vec<(String, Json)> = Vec::new();
    let mut i: usize = 0;
    while i < v.len()
        invariant
            i <= v.len(),
            out@.len() == i as int,
            forall|k: int| 0 <= k < i ==> out@[k].0@ == v@[k].0@ && jval(out@[k].1) == emit_cell(
                v@[k].1@,
            ),
        decreases v.len() - i,
    {
        out.push((v[i].0.clone(), encode_cell(&v[i].1)));
        i += 1;
    }
    proof {
        assert(jentries(out@) =~= emit_cells(entries_view(v@)));
    }
    out
}

/// Encoding an object of memories, order kept.
fn encode_memories_map(v: &Vec<(String, Memory)>) -> (r: Vec<(String, Json)>)
    ensures
        jentries(r@) == emit_memories(entries_view(v@)),
{
    let mut out: Vec<(String, Json)> = Vec::new();
    let mut i: usize = 0;
    while i < v.len()
        invariant
            i <= v.len(),
            out@.len() == i as int,
            forall|k: int| 0 <= k < i ==> out@[k].0@ == v@[k].0@ && jval(out@[k].1) == emit_memory(
                v@[k].1@,
            ),
        decreases v.len() - i,
    {
        out.push((v[i].0.clone(), encode_memory(&v[i].1)));
        i += 1;
    }
    proof {
        assert(jentries(out@) =~= emit_memories(entries_view(v@)));
    }
    out
}

/// Encoding an object of nets, order kept.
fn encode_nets_map(v: &Vec<(String, Net)>) -> (r: Vec<(String, Json)>)
    ensures
        jentries(r@) == emit_nets(entries_view(v@)),
{
    let mut out: Vec<(String, Json)> = Vec::new();
    let mut i: usize = 0;
    while i < v.len()
        invariant
            i <= v.len(),
            out@.len() == i as int,
            forall|k: int| 0 <= k < i ==> out@[k].0@ == v@[k].0@ && jval(out@[k].1) == emit_net(
                v@[k].1@,
            ),
        decreases v.len() - i,
    {
        out.push((v[i].0.clone(), encode_net(&v[i].1)));
        i += 1;
    }
    proof {
        assert(jentries(out@) =~= emit_nets(entries_view(v@)));
    }
    out
}

/// Encoding a module.
pub fn encode_module(m: &Module) -> (r: Json)
    ensures
        r@ == emit_module(m@),
{
    let mut o: Vec<(String, Json)> = Vec::new();
    o.push((String::from_str("attributes"), Json::Obj(clone_entries(&m.attributes))));
    o.push((String::from_str("ports"), Json::Obj(encode_ports_map(&m.ports))));
    o.push((String::from_str("cells"), Json::Obj(encode_cells_map(&m.cells))));
    o.push((String::from_str("memories"), Json::Obj(encode_memories_map(&m.memories))));
    o.push((String::from_str("netnames"), Json::Obj(encode_nets_map(&m.nets))));
    let mut extra = clone_entries(&m.extra);
    o.append(&mut extra);
    proof {
        assert(jentries(o@) =~= seq![
            ("attributes"@, JVal::Obj(jentries(m.attributes@))),
            ("ports"@, JVal::Obj(emit_ports(entries_view(m.ports@)))),
            ("cells"@, JVal::Obj(emit_cells(entries_view(m.cells@)))),
            ("memories"@, JVal::Obj(emit_memories(entries_view(m.memories@)))),
            ("netnames"@, JVal::Obj(emit_nets(entries_view(m.nets@)))),
        ] + jentries(m.extra@));
    }
    Json::Obj(o)
}

/// Encoding an object of modules, order kept.
fn encode_modules_map(v: &Vec<(String, Module)>) -> (r: Vec<(String, Json)>)
    ensures
        jentries(r@) == emit_modules(entries_view(v@)),
{
    let mut out: Vec<(String, Json)> = Vec::new();
    let mut i: usize = 0;
    while i < v.len()
        invariant
            i <= v.len(),
            out@.len() == i as int,
            forall|k: int| 0 <= k < i ==> out@[k].0@ == v@[k].0@ && jval(out@[k].1) == emit_module(
                v@[k].1@,
            ),
        decreases v.len() - i,
    {
        out.push((v[i].0.clone(), encode_module(&v[i].1)));
        i += 1;
    }
    proof {
        assert(jentries(out@) =~= emit_modules(entries_view(v@)));
    }
    out
}

/// Encoding a whole netlist document.
pub fn encode_netlist(n: &Netlist) -> (r: Json)
    ensures
        r@ == emit_netlist(n@),
{
    let mut o: Vec<(String, Json)> = Vec::new();
    o.push((String::from_str("creator"), Json::Text(n.creator.clone())));
    o.push((String::from_str("modules"), Json::Obj(encode_modules_map(&n.modules))));
    let mut extra = clone_entries(&n.extra);
    o.append(&mut extra);
    proof {
        assert(jentries(o@) =~= seq![
            ("creator"@, JVal::Text(n.creator@)),
            ("modules"@, JVal::Obj(emit_modules(entries_view(n.modules@)))),
        ] + jentries(n.extra@));
    }
    Json::Obj(o)
}

} // verus!
