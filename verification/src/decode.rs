//! The executable decoder: from a JSON tree to the typed entities.
//!
//! Every function is proved to return exactly what the corresponding
//! `parse_*` specification in [`crate::wire`] says, error cases included.

use vstd::prelude::*;
use crate::json::{Json, JVal, jval, jarr, jentries, clone_json, clone_entries, str_eq};
use crate::model::{Bit, Direction, Port, PortV, Cell, CellV, Memory, MemoryV, Net, NetV, Module, ModuleV, Netlist, entries_view};
use crate::error::{Error, ErrV};
use crate::wire::{
    obj_get, rest_of, parse_bit, parse_flag, parse_direction, uint_field, uint_req_field,
    text_req_field, flag_field, obj_field, parse_bits, bits_field, port_known_key,
    cell_known_key, memory_known_key, net_known_key, module_known_key, netlist_known_key,
    parse_port_obj, parse_port, parse_dirs, parse_conns, parse_cell_obj, parse_cell,
    parse_memory_obj, parse_memory, parse_net_obj, parse_net, parse_ports, parse_cells,
    parse_memories, parse_nets, ports_field, cells_field, memories_field, nets_field,
    parse_module_obj, parse_module, parse_modules, parse_netlist_obj, parse_netlist,
};

verus! {

broadcast use crate::json::lemma_jarr_index, crate::json::lemma_jentries_index;

/// The model of a decode result: the payload's model on success, the error's
/// model on failure.
pub open spec fn res_v<T: View>(r: Result<T, Error>) -> Result<T::V, ErrV> {
    match r {
        Ok(t) => Ok(t@),
        Err(e) => Err(e@),
    }
}

/// The entity whose schema is being decoded, for key recognition.
#[derive(Copy, Clone, Debug, PartialEq, Eq, Structural)]
pub enum Entity {
    Port,
    Cell,
    Memory,
    Net,
    Module,
    Netlist,
}

/// The keys the given entity's schema recognizes.
pub open spec fn known_key(e: Entity, k: Seq<char>) -> bool {
    match e {
        Entity::Port => port_known_key(k),
        Entity::Cell => cell_known_key(k),
        Entity::Memory => memory_known_key(k),
        Entity::Net => net_known_key(k),
        Entity::Module => module_known_key(k),
        Entity::Netlist => netlist_known_key(k),
    }
}

fn is_known_key(e: Entity, k: &str) -> (b: bool)
    ensures
        b == known_key(e, k@),
{
    match e {
        Entity::Port => str_eq(k, "direction") || str_eq(k, "bits") || str_eq(k, "offset")
            || str_eq(k, "upto") || str_eq(k, "signed"),
        Entity::Cell => str_eq(k, "hide_name") || str_eq(k, "type") || str_eq(k, "attributes")
            || str_eq(k, "parameters") || str_eq(k, "port_directions") || str_eq(
            k,
            "connections",
        ),
        Entity::Memory => str_eq(k, "hide_name") || str_eq(k, "attributes") || str_eq(k, "width")
            || str_eq(k, "size") || str_eq(k, "start_offset"),
        Entity::Net => str_eq(k, "hide_name") || str_eq(k, "attributes") || str_eq(k, "bits")
            || str_eq(k, "offset") || str_eq(k, "upto") || str_eq(k, "signed"),
        Entity::Module => str_eq(k, "attributes") || str_eq(k, "ports") || str_eq(k, "cells")
            || str_eq(k, "memories") || str_eq(k, "netnames"),
        Entity::Netlist => str_eq(k, "creator") || str_eq(k, "modules"),
    }
}

/// The first value held under a key, if any.
#[verifier::loop_isolation(false)]
fn get_field<'a>(o: &'a Vec<(String, Json)>, k: &str) -> (r: Option<&'a Json>)
    ensures
        match r {
            Some(j) => obj_get(jentries(o@), k@) == Some(jval(*j)),
            None => obj_get(jentries(o@), k@) is None,
        },
{
    let ghost oe = jentries(o@);
    proof {
        assert(oe.subrange(0, oe.len() as int) =~= oe);
    }
    let mut i: usize = 0;
    while i < o.len()
        invariant
            i <= o.len(),
            obj_get(oe, k@) == obj_get(oe.subrange(i as int, oe.len() as int), k@),
        decreases o.len() - i,
    {
        proof {
            assert(oe.subrange(i as int, oe.len() as int)[0] == oe[i as int]);
            assert(oe.subrange(i as int, oe.len() as int).subrange(
                1,
                oe.subrange(i as int, oe.len() as int).len() as int,
            ) =~= oe.subrange(i as int + 1, oe.len() as int));
        }
        if str_eq(o[i].0.as_str(), k) {
            return Some(&o[i].1);
        }
        i += 1;
    }
    proof {
        assert(oe.subrange(o.len() as int, oe.len() as int) =~= Seq::<(Seq<char>, JVal)>::empty());
    }
    None
}

/// The entries the schema does not recognize, in order: the passthrough
/// mapping of the entity.
#[verifier::loop_isolation(false)]
fn rest_fields(e: Entity, o: &Vec<(String, Json)>) -> (r: Vec<(String, Json)>)
    ensures
        jentries(r@) == rest_of(jentries(o@), |k: Seq<char>| known_key(e, k)),
{
    let ghost oe = jentries(o@);
    let ghost pred = |k: Seq<char>| known_key(e, k);
    let mut out: Vec<(String, Json)> = Vec::new();
    proof {
        assert(oe.subrange(0, oe.len() as int) =~= oe);
        assert(jentries(out@) =~= Seq::<(Seq<char>, JVal)>::empty());
        assert(Seq::<(Seq<char>, JVal)>::empty() + rest_of(oe, pred) =~= rest_of(oe, pred));
    }
    let mut i: usize = 0;
    while i < o.len()
        invariant
            i <= o.len(),
            jentries(out@) + rest_of(oe.subrange(i as int, oe.len() as int), pred) == rest_of(
                oe,
                pred,
            ),
        decreases o.len() - i,
    {
        let ghost prev = out@;
        proof {
            assert(oe.subrange(i as int, oe.len() as int)[0] == oe[i as int]);
            assert(oe.subrange(i as int, oe.len() as int).subrange(
                1,
                oe.subrange(i as int, oe.len() as int).len() as int,
            ) =~= oe.subrange(i as int + 1, oe.len() as int));
        }
        if !is_known_key(e, o[i].0.as_str()) {
            let key = o[i].0.clone();
            let val = clone_json(&o[i].1);
            out.push((key, val));
            proof {
                assert(jentries(out@) =~= jentries(prev) + seq![oe[i as int]]);
                assert(jentries(prev) + seq![oe[i as int]] + rest_of(
                    oe.subrange(i as int + 1, oe.len() as int),
                    pred,
                ) =~= jentries(prev) + (seq![oe[i as int]] + rest_of(
                    oe.subrange(i as int + 1, oe.len() as int),
                    pred,
                )));
            }
        }
        i += 1;
    }
    proof {
        assert(oe.subrange(o.len() as int, oe.len() as int) =~= Seq::<(Seq<char>, JVal)>::empty());
        assert(jentries(out@) + rest_of(Seq::<(Seq<char>, JVal)>::empty(), pred) =~= jentries(
            out@,
        ));
    }
    out
}

/// Decoding a single bit wire value.
pub fn decode_bit(j: &Json) -> (r: Result<Bit, Error>)
    ensures
        res_v(r) == parse_bit(j@),
{
    match j {
        Json::Uint(n) => Ok(Bit::Signal(*n)),
        Json::Text(s) => {
            if str_eq(s.as_str(), "0") {
                Ok(Bit::_0)
            } else if str_eq(s.as_str(), "1") {
                Ok(Bit::_1)
            } else if str_eq(s.as_str(), "z") {
                Ok(Bit::Z)
            } else if str_eq(s.as_str(), "x") {
                Ok(Bit::X)
            } else {
                Err(Error::bit_value(j))
            }
        }
        _ => Err(Error::bit_value(j)),
    }
}

/// Decoding a boolean flag: 1 is true, any other integer is false, and a
/// non-integer fails.
pub fn decode_flag(j: &Json) -> (r: Result<bool, Error>)
    ensures
        res_v(r) == parse_flag(j@),
{
    match j {
        Json::Uint(n) => Ok(*n == 1),
        Json::Nint(_) => Ok(false),
        _ => {
            let r = Error {
                kind: crate::error::ErrorKind::InvalidFlagValue,
                path: Vec::new(),
                found: Some(clone_json(j)),
            };
            proof {
                assert(r@ =~= crate::error::flag_err_value(j@));
            }
            Err(r)
        }
    }
}

/// Decoding a direction string.
pub fn decode_direction(j: &Json) -> (r: Option<Direction>)
    ensures
        r == parse_direction(j@),
{
    match j {
        Json::Text(s) => {
            if str_eq(s.as_str(), "input") {
                Some(Direction::Input)
            } else if str_eq(s.as_str(), "output") {
                Some(Direction::Output)
            } else if str_eq(s.as_str(), "inout") {
                Some(Direction::InOut)
            } else {
                None
            }
        }
        _ => None,
    }
}

/// Decoding an array of bit values.
#[verifier::loop_isolation(false)]
pub fn decode_bits(a: &Vec<Json>) -> (r: Result<Vec<Bit>, Error>)
    ensures
        res_v(r) == parse_bits(jarr(a@)),
{
    let ghost av = jarr(a@);
    let mut out: Vec<Bit> = Vec::new();
    proof {
        assert(av.subrange(0, av.len() as int) =~= av);
        if parse_bits(av) is Ok {
            assert(out@ + parse_bits(av)->Ok_0 =~= parse_bits(av)->Ok_0);
        }
    }
    let mut i: usize = 0;
    while i < a.len()
        invariant
            i <= a.len(),
            parse_bits(av) == (match parse_bits(av.subrange(i as int, av.len() as int)) {
                Ok(rest) => Ok::<Seq<Bit>, ErrV>(out@ + rest),
                Err(e) => Err::<Seq<Bit>, ErrV>(e),
            }),
        decreases a.len() - i,
    {
        let ghost prev = out@;
        proof {
            assert(av.subrange(i as int, av.len() as int)[0] == av[i as int]);
            assert(av.subrange(i as int, av.len() as int).subrange(
                1,
                av.subrange(i as int, av.len() as int).len() as int,
            ) =~= av.subrange(i as int + 1, av.len() as int));
        }
        match decode_bit(&a[i]) {
            Ok(b) => {
                out.push(b);
                proof {
                    if parse_bits(av.subrange(i as int + 1, av.len() as int)) is Ok {
                        let rest = parse_bits(av.subrange(i as int + 1, av.len() as int))->Ok_0;
                        assert(prev + (seq![b] + rest) =~= out@ + rest);
                    }
                }
            }
            Err(e) => {
                return Err(e);
            }
        }
        i += 1;
    }
    proof {
        assert(av.subrange(a.len() as int, av.len() as int) =~= Seq::<JVal>::empty());
        assert(out@ + Seq::<Bit>::empty() =~= out@);
    }
    Ok(out)
}

/// An optional non-negative integer field, defaulting to 0.
fn uint_field_x(o: &Vec<(String, Json)>, k: &str) -> (r: Result<u64, Error>)
    ensures
        res_v(r) == uint_field(jentries(o@), k@),
{
    match get_field(o, k) {
        None => Ok(0),
        Some(v) => match v {
            Json::Uint(n) => Ok(*n),
            _ => Err(Error::mismatch(k, v)),
        },
    }
}

/// A required non-negative integer field.
fn uint_req_field_x(o: &Vec<(String, Json)>, k: &str) -> (r: Result<u64, Error>)
    ensures
        res_v(r) == uint_req_field(jentries(o@), k@),
{
    match get_field(o, k) {
        None => Err(Error::missing(k)),
        Some(v) => match v {
            Json::Uint(n) => Ok(*n),
            _ => Err(Error::mismatch(k, v)),
        },
    }
}

/// A required string field.
fn text_req_field_x(o: &Vec<(String, Json)>, k: &str) -> (r: Result<String, Error>)
    ensures
        (match r {
            Ok(s) => text_req_field(jentries(o@), k@) == Ok::<Seq<char>, ErrV>(s@),
            Err(e) => text_req_field(jentries(o@), k@) == Err::<Seq<char>, ErrV>(e@),
        }),
{
    match get_field(o, k) {
        None => Err(Error::missing(k)),
        Some(v) => match v {
            Json::Text(s) => Ok(s.clone()),
            _ => Err(Error::mismatch(k, v)),
        },
    }
}

/// An optional boolean-flag field, defaulting to false.
fn flag_field_x(o: &Vec<(String, Json)>, k: &str) -> (r: Result<bool, Error>)
    ensures
        res_v(r) == flag_field(jentries(o@), k@),
{
    match get_field(o, k) {
        None => Ok(false),
        Some(v) => match v {
            Json::Uint(n) => Ok(*n == 1),
            Json::Nint(_) => Ok(false),
            _ => Err(Error::flag_value(k, v)),
        },
    }
}

/// An optional object field, kept verbatim, defaulting to empty.
fn obj_field_x(o: &Vec<(String, Json)>, k: &str) -> (r: Result<Vec<(String, Json)>, Error>)
    ensures
        (match r {
            Ok(v) => obj_field(jentries(o@), k@) == Ok::<Seq<(Seq<char>, JVal)>, ErrV>(
                jentries(v@),
            ),
            Err(e) => obj_field(jentries(o@), k@) == Err::<Seq<(Seq<char>, JVal)>, ErrV>(e@),
        }),
{
    match get_field(o, k) {
        None => {
            let r: Vec<(String, Json)> = Vec::new();
            proof {
                assert(jentries(r@) =~= Seq::<(Seq<char>, JVal)>::empty());
            }
            Ok(r)
        }
        Some(v) => match v {
            Json::Obj(entries) => Ok(clone_entries(entries)),
            _ => Err(Error::mismatch(k, v)),
        },
    }
}

/// A required field holding an array of bit values.
fn bits_field_x(o: &Vec<(String, Json)>, k: &str) -> (r: Result<Vec<Bit>, Error>)
    ensures
        res_v(r) == bits_field(jentries(o@), k@),
{
    match get_field(o, k) {
        None => Err(Error::missing(k)),
        Some(v) => match v {
            Json::Arr(a) => match decode_bits(a) {
                Ok(bs) => Ok(bs),
                Err(e) => Err(e.at(k)),
            },
            _ => Err(Error::mismatch(k, v)),
        },
    }
}

/// Decoding a port object.
pub fn decode_port(j: &Json) -> (r: Result<Port, Error>)
    ensures
        res_v(r) == parse_port(j@),
{
    let o = match j {
        Json::Obj(o) => o,
        _ => {
            return Err(Error::not_object(j));
        }
    };
    let dv = match get_field(o, "direction") {
        Some(v) => v,
        None => {
            return Err(Error::missing("direction"));
        }
    };
    let direction = match decode_direction(dv) {
        Some(d) => d,
        None => {
            return Err(Error::mismatch("direction", dv));
        }
    };
    let bits = match bits_field_x(o, "bits") {
        Ok(b) => b,
        Err(e) => {
            return Err(e);
        }
    };
    let offset = match uint_field_x(o, "offset") {
        Ok(n) => n,
        Err(e) => {
            return Err(e);
        }
    };
    let upto = match uint_field_x(o, "upto") {
        Ok(n) => n,
        Err(e) => {
            return Err(e);
        }
    };
    let signed = match flag_field_x(o, "signed") {
        Ok(b) => b,
        Err(e) => {
            return Err(e);
        }
    };
    let extra = rest_fields(Entity::Port, o);
    let p = Port { direction, bits, offset, upto, signed, extra };
    proof {
        assert((|k: Seq<char>| known_key(Entity::Port, k)) =~= (|k: Seq<char>| port_known_key(k)));
        assert(parse_port_obj(jentries(o@)) == Ok::<_, ErrV>(p@));
    }
    Ok(p)
}

/// Decoding a memory object.
pub fn decode_memory(j: &Json) -> (r: Result<Memory, Error>)
    ensures
        res_v(r) == parse_memory(j@),
{
    let o = match j {
        Json::Obj(o) => o,
        _ => {
            return Err(Error::not_object(j));
        }
    };
    let hide_name = match flag_field_x(o, "hide_name") {
        Ok(b) => b,
        Err(e) => {
            return Err(e);
        }
    };
    let attributes = match obj_field_x(o, "attributes") {
        Ok(v) => v,
        Err(e) => {
            return Err(e);
        }
    };
    let width = match uint_req_field_x(o, "width") {
        Ok(n) => n,
        Err(e) => {
            return Err(e);
        }
    };
    let size = match uint_req_field_x(o, "size") {
        Ok(n) => n,
        Err(e) => {
            return Err(e);
        }
    };
    let start_offset = match uint_field_x(o, "start_offset") {
        Ok(n) => n,
        Err(e) => {
            return Err(e);
        }
    };
    let extra = rest_fields(Entity::Memory, o);
    let m = Memory { hide_name, attributes, width, size, start_offset, extra };
    proof {
        assert((|k: Seq<char>| known_key(Entity::Memory, k)) =~= (|k: Seq<char>| memory_known_key(k)));
        assert(parse_memory_obj(jentries(o@)) == Ok::<_, ErrV>(m@));
    }
    Ok(m)
}

/// Decoding a net object.
pub fn decode_net(j: &Json) -> (r: Result<Net, Error>)
    ensures
        res_v(r) == parse_net(j@),
{
    let o = match j {
        Json::Obj(o) => o,
        _ => {
            return Err(Error::not_object(j));
        }
    };
    let hide_name = match flag_field_x(o, "hide_name") {
        Ok(b) => b,
        Err(e) => {
            return Err(e);
        }
    };
    let attributes = match obj_field_x(o, "attributes") {
        Ok(v) => v,
        Err(e) => {
            return Err(e);
        }
    };
    let bits = match bits_field_x(o, "bits") {
        Ok(b) => b,
        Err(e) => {
            return Err(e);
        }
    };
    let offset = match uint_field_x(o, "offset") {
        Ok(n) => n,
        Err(e) => {
            return Err(e);
        }
    };
    let upto = match uint_field_x(o, "upto") {
        Ok(n) => n,
        Err(e) => {
            return Err(e);
        }
    };
    let signed = match flag_field_x(o, "signed") {
        Ok(b) => b,
        Err(e) => {
            return Err(e);
        }
    };
    let extra = rest_fields(Entity::Net, o);
    let n = Net { hide_name, attributes, bits, offset, upto, signed, extra };
    proof {
        assert((|k: Seq<char>| known_key(Entity::Net, k)) =~= (|k: Seq<char>| net_known_key(k)));
        assert(parse_net_obj(jentries(o@)) == Ok::<_, ErrV>(n@));
    }
    Ok(n)
}

/// Decoding an object of direction strings.
#[verifier::loop_isolation(false)]
fn decode_dirs_map(o: &Vec<(String, Json)>) -> (r: Result<Vec<(String, Direction)>, Error>)
    ensures
        (match r {
            Ok(v) => parse_dirs(jentries(o@)) == Ok::<Seq<(Seq<char>, Direction)>, ErrV>(
                entries_view(v@),
            ),
            Err(e) => parse_dirs(jentries(o@)) == Err::<Seq<(Seq<char>, Direction)>, ErrV>(e@),
        }),
{
    let ghost oe = jentries(o@);
    let mut out: Vec<(String, Direction)> = Vec::new();
    proof {
        assert(oe.subrange(0, oe.len() as int) =~= oe);
        if parse_dirs(oe) is Ok {
            assert(entries_view(out@) + parse_dirs(oe)->Ok_0 =~= parse_dirs(oe)->Ok_0);
        }
    }
    let mut i: usize = 0;
    while i < o.len()
        invariant
            i <= o.len(),
            parse_dirs(oe) == (match parse_dirs(oe.subrange(i as int, oe.len() as int)) {
                Ok(rest) => Ok::<Seq<(Seq<char>, Direction)>, ErrV>(entries_view(out@) + rest),
                Err(e) => Err::<Seq<(Seq<char>, Direction)>, ErrV>(e),
            }),
        decreases o.len() - i,
    {
        let ghost prev = out@;
        proof {
            assert(oe.subrange(i as int, oe.len() as int)[0] == oe[i as int]);
            assert(oe.subrange(i as int, oe.len() as int).subrange(
                1,
                oe.subrange(i as int, oe.len() as int).len() as int,
            ) =~= oe.subrange(i as int + 1, oe.len() as int));
        }
        match decode_direction(&o[i].1) {
            Some(d) => {
                out.push((o[i].0.clone(), d));
                proof {
                    if parse_dirs(oe.subrange(i as int + 1, oe.len() as int)) is Ok {
                        let rest = parse_dirs(oe.subrange(i as int + 1, oe.len() as int))->Ok_0;
                        assert(entries_view(out@) =~= entries_view(prev) + seq![
                            (oe[i as int].0, d),
                        ]);
                        assert(entries_view(prev) + (seq![(oe[i as int].0, d)] + rest) =~= entries_view(
                            out@,
                        ) + rest);
                    }
                }
            }
            None => {
                return Err(Error::mismatch(o[i].0.as_str(), &o[i].1));
            }
        }
        i += 1;
    }
    proof {
        assert(oe.subrange(o.len() as int, oe.len() as int) =~= Seq::<(Seq<char>, JVal)>::empty());
        assert(entries_view(out@) + Seq::<(Seq<char>, Direction)>::empty() =~= entries_view(out@));
    }
    Ok(out)
}

/// Decoding an object of bit arrays.
#[verifier::loop_isolation(false)]
fn decode_conns_map(o: &Vec<(String, Json)>) -> (r: Result<Vec<(String, Vec<Bit>)>, Error>)
    ensures
        (match r {
            Ok(v) => parse_conns(jentries(o@)) == Ok::<Seq<(Seq<char>, Seq<Bit>)>, ErrV>(
                entries_view(v@),
            ),
            Err(e) => parse_conns(jentries(o@)) == Err::<Seq<(Seq<char>, Seq<Bit>)>, ErrV>(e@),
        }),
{
    let ghost oe = jentries(o@);
    let mut out: Vec<(String, Vec<Bit>)> = Vec::new();
    proof {
        assert(oe.subrange(0, oe.len() as int) =~= oe);
        if parse_conns(oe) is Ok {
            assert(entries_view(out@) + parse_conns(oe)->Ok_0 =~= parse_conns(oe)->Ok_0);
        }
    }
    let mut i: usize = 0;
    while i < o.len()
        invariant
            i <= o.len(),
            parse_conns(oe) == (match parse_conns(oe.subrange(i as int, oe.len() as int)) {
                Ok(rest) => Ok::<Seq<(Seq<char>, Seq<Bit>)>, ErrV>(entries_view(out@) + rest),
                Err(e) => Err::<Seq<(Seq<char>, Seq<Bit>)>, ErrV>(e),
            }),
        decreases o.len() - i,
    {
        let ghost prev = out@;
        proof {
            assert(oe.subrange(i as int, oe.len() as int)[0] == oe[i as int]);
            assert(oe.subrange(i as int, oe.len() as int).subrange(
                1,
                oe.subrange(i as int, oe.len() as int).len() as int,
            ) =~= oe.subrange(i as int + 1, oe.len() as int));
        }
        match &o[i].1 {
            Json::Arr(a) => match decode_bits(a) {
                Ok(bs) => {
                    let ghost bsv = bs@;
                    out.push((o[i].0.clone(), bs));
                    proof {
                        assert(entries_view(out@) =~= entries_view(prev) + seq![
                            (oe[i as int].0, bsv),
                        ]);
                        if parse_conns(oe.subrange(i as int + 1, oe.len() as int)) is Ok {
                            let rest = parse_conns(
                                oe.subrange(i as int + 1, oe.len() as int),
                            )->Ok_0;
                            assert(entries_view(prev) + (seq![(oe[i as int].0, bsv)] + rest)
                                =~= entries_view(out@) + rest);
                        }
                    }
                }
                Err(e) => {
                    return Err(e.at(o[i].0.as_str()));
                }
            },
            _ => {
                return Err(Error::mismatch(o[i].0.as_str(), &o[i].1));
            }
        }
        i += 1;
    }
    proof {
        assert(oe.subrange(o.len() as int, oe.len() as int) =~= Seq::<(Seq<char>, JVal)>::empty());
        assert(entries_view(out@) + Seq::<(Seq<char>, Seq<Bit>)>::empty() =~= entries_view(out@));
    }
    Ok(out)
}

/// Decoding a cell object.
pub fn decode_cell(j: &Json) -> (r: Result<Cell, Error>)
    ensures
        res_v(r) == parse_cell(j@),
{
    let o = match j {
        Json::Obj(o) => o,
        _ => {
            return Err(Error::not_object(j));
        }
    };
    let hide_name = match flag_field_x(o, "hide_name") {
        Ok(b) => b,
        Err(e) => {
            return Err(e);
        }
    };
    let module = match text_req_field_x(o, "type") {
        Ok(s) => s,
        Err(e) => {
            return Err(e);
        }
    };
    let attributes = match obj_field_x(o, "attributes") {
        Ok(v) => v,
        Err(e) => {
            return Err(e);
        }
    };
    let parameters = match obj_field_x(o, "parameters") {
        Ok(v) => v,
        Err(e) => {
            return Err(e);
        }
    };
    let port_directions = match obj_field_x(o, "port_directions") {
        Ok(v) => v,
        Err(e) => {
            return Err(e);
        }
    };
    let port_directions = match decode_dirs_map(&port_directions) {
        Ok(v) => v,
        Err(e) => {
            return Err(e.at("port_directions"));
        }
    };
    let connections = match obj_field_x(o, "connections") {
        Ok(v) => v,
        Err(e) => {
            return Err(e);
        }
    };
    let connections = match decode_conns_map(&connections) {
        Ok(v) => v,
        Err(e) => {
            return Err(e.at("connections"));
        }
    };
    let extra = rest_fields(Entity::Cell, o);
    let c = Cell {
        hide_name,
        module,
        attributes,
        parameters,
        port_directions,
        connections,
        extra,
    };
    proof {
        assert((|k: Seq<char>| known_key(Entity::Cell, k)) =~= (|k: Seq<char>| cell_known_key(k)));
        assert(parse_cell_obj(jentries(o@)) == Ok::<_, ErrV>(c@));
    }
    Ok(c)
}


/// Decoding an object of port objects, order kept.
#[verifier::loop_isolation(false)]
fn decode_ports_map(o: &Vec<(String, Json)>) -> (r: Result<Vec<(String, Port)>, Error>)
    ensures
        (match r {
            Ok(v) => parse_ports(jentries(o@)) == Ok::<Seq<(Seq<char>, PortV)>, ErrV>(
                entries_view(v@),
            ),
            Err(e) => parse_ports(jentries(o@)) == Err::<Seq<(Seq<char>, PortV)>, ErrV>(e@),
        }),
{
    let ghost oe = jentries(o@);
    let mut out: Vec<(String, Port)> = Vec::new();
    proof {
        assert(oe.subrange(0, oe.len() as int) =~= oe);
        if parse_ports(oe) is Ok {
            assert(entries_view(out@) + parse_ports(oe)->Ok_0 =~= parse_ports(oe)->Ok_0);
        }
    }
    let mut i: usize = 0;
    while i < o.len()
        invariant
            i <= o.len(),
            parse_ports(oe) == (match parse_ports(oe.subrange(i as int, oe.len() as int)) {
                Ok(rest) => Ok::<Seq<(Seq<char>, PortV)>, ErrV>(entries_view(out@) + rest),
                Err(e) => Err::<Seq<(Seq<char>, PortV)>, ErrV>(e),
            }),
        decreases o.len() - i,
    {
        let ghost prev = out@;
        proof {
            assert(oe.subrange(i as int, oe.len() as int)[0] == oe[i as int]);
            assert(oe.subrange(i as int, oe.len() as int).subrange(
                1,
                oe.subrange(i as int, oe.len() as int).len() as int,
            ) =~= oe.subrange(i as int + 1, oe.len() as int));
        }
        match decode_port(&o[i].1) {
            Ok(p) => {
                let ghost pv = p@;
                out.push((o[i].0.clone(), p));
                proof {
                    assert(entries_view(out@) =~= entries_view(prev) + seq![(oe[i as int].0, pv)]);
                    if parse_ports(oe.subrange(i as int + 1, oe.len() as int)) is Ok {
                        let rest = parse_ports(oe.subrange(i as int + 1, oe.len() as int))->Ok_0;
                        assert(entries_view(prev) + (seq![(oe[i as int].0, pv)] + rest)
                            =~= entries_view(out@) + rest);
                    }
                }
            }
            Err(e) => {
                return Err(e.at(o[i].0.as_str()));
            }
        }
        i += 1;
    }
    proof {
        assert(oe.subrange(o.len() as int, oe.len() as int) =~= Seq::<(Seq<char>, JVal)>::empty());
        assert(entries_view(out@) + Seq::<(Seq<char>, PortV)>::empty() =~= entries_view(out@));
    }
    Ok(out)
}

/// An optional object field of port objects, defaulting to empty.
fn ports_field_x(o: &Vec<(String, Json)>, k: &str) -> (r: Result<Vec<(String, Port)>, Error>)
    ensures
        (match r {
            Ok(v) => ports_field(jentries(o@), k@) == Ok::<Seq<(Seq<char>, PortV)>, ErrV>(
                entries_view(v@),
            ),
            Err(e) => ports_field(jentries(o@), k@) == Err::<Seq<(Seq<char>, PortV)>, ErrV>(e@),
        }),
{
    let entries = match obj_field_x(o, k) {
        Ok(v) => v,
        Err(e) => {
            return Err(e);
        }
    };
    match decode_ports_map(&entries) {
        Ok(v) => Ok(v),
        Err(e) => Err(e.at(k)),
    }
}

/// Decoding an object of cell objects, order kept.
#[verifier::loop_isolation(false)]
fn decode_cells_map(o: &Vec<(String, Json)>) -> (r: Result<Vec<(String, Cell)>, Error>)
    ensures
        (match r {
            Ok(v) => parse_cells(jentries(o@)) == Ok::<Seq<(Seq<char>, CellV)>, ErrV>(
                entries_view(v@),
            ),
            Err(e) => parse_cells(jentries(o@)) == Err::<Seq<(Seq<char>, CellV)>, ErrV>(e@),
        }),
{
    let ghost oe = jentries(o@);
    let mut out: Vec<(String, Cell)> = Vec::new();
    proof {
        assert(oe.subrange(0, oe.len() as int) =~= oe);
        if parse_cells(oe) is Ok {
            assert(entries_view(out@) + parse_cells(oe)->Ok_0 =~= parse_cells(oe)->Ok_0);
        }
    }
    let mut i: usize = 0;
    while i < o.len()
        invariant
            i <= o.len(),
            parse_cells(oe) == (match parse_cells(oe.subrange(i as int, oe.len() as int)) {
                Ok(rest) => Ok::<Seq<(Seq<char>, CellV)>, ErrV>(entries_view(out@) + rest),
                Err(e) => Err::<Seq<(Seq<char>, CellV)>, ErrV>(e),
            }),
        decreases o.len() - i,
    {
        let ghost prev = out@;
        proof {
            assert(oe.subrange(i as int, oe.len() as int)[0] == oe[i as int]);
            assert(oe.subrange(i as int, oe.len() as int).subrange(
                1,
                oe.subrange(i as int, oe.len() as int).len() as int,
            ) =~= oe.subrange(i as int + 1, oe.len() as int));
        }
        match decode_cell(&o[i].1) {
            Ok(p) => {
                let ghost pv = p@;
                out.push((o[i].0.clone(), p));
                proof {
                    assert(entries_view(out@) =~= entries_view(prev) + seq![(oe[i as int].0, pv)]);
                    if parse_cells(oe.subrange(i as int + 1, oe.len() as int)) is Ok {
                        let rest = parse_cells(oe.subrange(i as int + 1, oe.len() as int))->Ok_0;
                        assert(entries_view(prev) + (seq![(oe[i as int].0, pv)] + rest)
                            =~= entries_view(out@) + rest);
                    }
                }
            }
            Err(e) => {
                return Err(e.at(o[i].0.as_str()));
            }
        }
        i += 1;
    }
    proof {
        assert(oe.subrange(o.len() as int, oe.len() as int) =~= Seq::<(Seq<char>, JVal)>::empty());
        assert(entries_view(out@) + Seq::<(Seq<char>, CellV)>::empty() =~= entries_view(out@));
    }
    Ok(out)
}

/// An optional object field of cell objects, defaulting to empty.
fn cells_field_x(o: &Vec<(String, Json)>, k: &str) -> (r: Result<Vec<(String, Cell)>, Error>)
    ensures
        (match r {
            Ok(v) => cells_field(jentries(o@), k@) == Ok::<Seq<(Seq<char>, CellV)>, ErrV>(
                entries_view(v@),
            ),
            Err(e) => cells_field(jentries(o@), k@) == Err::<Seq<(Seq<char>, CellV)>, ErrV>(e@),
        }),
{
    let entries = match obj_field_x(o, k) {
        Ok(v) => v,
        Err(e) => {
            return Err(e);
        }
    };
    match decode_cells_map(&entries) {
        Ok(v) => Ok(v),
        Err(e) => Err(e.at(k)),
    }
}

/// Decoding an object of memory objects, order kept.
#[verifier::loop_isolation(false)]
fn decode_memories_map(o: &Vec<(String, Json)>) -> (r: Result<Vec<(String, Memory)>, Error>)
    ensures
        (match r {
            Ok(v) => parse_memories(jentries(o@)) == Ok::<Seq<(Seq<char>, MemoryV)>, ErrV>(
                entries_view(v@),
            ),
            Err(e) => parse_memories(jentries(o@)) == Err::<Seq<(Seq<char>, MemoryV)>, ErrV>(e@),
        }),
{
    let ghost oe = jentries(o@);
    let mut out: Vec<(String, Memory)> = Vec::new();
    proof {
        assert(oe.subrange(0, oe.len() as int) =~= oe);
        if parse_memories(oe) is Ok {
            assert(entries_view(out@) + parse_memories(oe)->Ok_0 =~= parse_memories(oe)->Ok_0);
        }
    }
    let mut i: usize = 0;
    while i < o.len()
        invariant
            i <= o.len(),
            parse_memories(oe) == (match parse_memories(oe.subrange(i as int, oe.len() as int)) {
                Ok(rest) => Ok::<Seq<(Seq<char>, MemoryV)>, ErrV>(entries_view(out@) + rest),
                Err(e) => Err::<Seq<(Seq<char>, MemoryV)>, ErrV>(e),
            }),
        decreases o.len() - i,
    {
        let ghost prev = out@;
        proof {
            assert(oe.subrange(i as int, oe.len() as int)[0] == oe[i as int]);
            assert(oe.subrange(i as int, oe.len() as int).subrange(
                1,
                oe.subrange(i as int, oe.len() as int).len() as int,
            ) =~= oe.subrange(i as int + 1, oe.len() as int));
        }
        match decode_memory(&o[i].1) {
            Ok(p) => {
                let ghost pv = p@;
                out.push((o[i].0.clone(), p));
                proof {
                    assert(entries_view(out@) =~= entries_view(prev) + seq![(oe[i as int].0, pv)]);
                    if parse_memories(oe.subrange(i as int + 1, oe.len() as int)) is Ok {
                        let rest = parse_memories(oe.subrange(i as int + 1, oe.len() as int))->Ok_0;
                        assert(entries_view(prev) + (seq![(oe[i as int].0, pv)] + rest)
                            =~= entries_view(out@) + rest);
                    }
                }
            }
            Err(e) => {
                return Err(e.at(o[i].0.as_str()));
            }
        }
        i += 1;
    }
    proof {
        assert(oe.subrange(o.len() as int, oe.len() as int) =~= Seq::<(Seq<char>, JVal)>::empty());
        assert(entries_view(out@) + Seq::<(Seq<char>, MemoryV)>::empty() =~= entries_view(out@));
    }
    Ok(out)
}

/// An optional object field of memory objects, defaulting to empty.
fn memories_field_x(o: &Vec<(String, Json)>, k: &str) -> (r: Result<Vec<(String, Memory)>, Error>)
    ensures
        (match r {
            Ok(v) => memories_field(jentries(o@), k@) == Ok::<Seq<(Seq<char>, MemoryV)>, ErrV>(
                entries_view(v@),
            ),
            Err(e) => memories_field(jentries(o@), k@) == Err::<Seq<(Seq<char>, MemoryV)>, ErrV>(e@),
        }),
{
    let entries = match obj_field_x(o, k) {
        Ok(v) => v,
        Err(e) => {
            return Err(e);
        }
    };
    match decode_memories_map(&entries) {
        Ok(v) => Ok(v),
        Err(e) => Err(e.at(k)),
    }
}

/// Decoding an object of net objects, order kept.
#[verifier::loop_isolation(false)]
fn decode_nets_map(o: &Vec<(String, Json)>) -> (r: Result<Vec<(String, Net)>, Error>)
    ensures
        (match r {
            Ok(v) => parse_nets(jentries(o@)) == Ok::<Seq<(Seq<char>, NetV)>, ErrV>(
                entries_view(v@),
            ),
            Err(e) => parse_nets(jentries(o@)) == Err::<Seq<(Seq<char>, NetV)>, ErrV>(e@),
        }),
{
    let ghost oe = jentries(o@);
    let mut out: Vec<(String, Net)> = Vec::new();
    proof {
        assert(oe.subrange(0, oe.len() as int) =~= oe);
        if parse_nets(oe) is Ok {
            assert(entries_view(out@) + parse_nets(oe)->Ok_0 =~= parse_nets(oe)->Ok_0);
        }
    }
    let mut i: usize = 0;
    while i < o.len()
        invariant
            i <= o.len(),
            parse_nets(oe) == (match parse_nets(oe.subrange(i as int, oe.len() as int)) {
                Ok(rest) => Ok::<Seq<(Seq<char>, NetV)>, ErrV>(entries_view(out@) + rest),
                Err(e) => Err::<Seq<(Seq<char>, NetV)>, ErrV>(e),
            }),
        decreases o.len() - i,
    {
        let ghost prev = out@;
        proof {
            assert(oe.subrange(i as int, oe.len() as int)[0] == oe[i as int]);
            assert(oe.subrange(i as int, oe.len() as int).subrange(
                1,
                oe.subrange(i as int, oe.len() as int).len() as int,
            ) =~= oe.subrange(i as int + 1, oe.len() as int));
        }
        match decode_net(&o[i].1) {
            Ok(p) => {
                let ghost pv = p@;
                out.push((o[i].0.clone(), p));
                proof {
                    assert(entries_view(out@) =~= entries_view(prev) + seq![(oe[i as int].0, pv)]);
                    if parse_nets(oe.subrange(i as int + 1, oe.len() as int)) is Ok {
                        let rest = parse_nets(oe.subrange(i as int + 1, oe.len() as int))->Ok_0;
                        assert(entries_view(prev) + (seq![(oe[i as int].0, pv)] + rest)
                            =~= entries_view(out@) + rest);
                    }
                }
            }
            Err(e) => {
                return Err(e.at(o[i].0.as_str()));
            }
        }
        i += 1;
    }
    proof {
        assert(oe.subrange(o.len() as int, oe.len() as int) =~= Seq::<(Seq<char>, JVal)>::empty());
        assert(entries_view(out@) + Seq::<(Seq<char>, NetV)>::empty() =~= entries_view(out@));
    }
    Ok(out)
}

/// An optional object field of net objects, defaulting to empty.
fn nets_field_x(o: &Vec<(String, Json)>, k: &str) -> (r: Result<Vec<(String, Net)>, Error>)
    ensures
        (match r {
            Ok(v) => nets_field(jentries(o@), k@) == Ok::<Seq<(Seq<char>, NetV)>, ErrV>(
                entries_view(v@),
            ),
            Err(e) => nets_field(jentries(o@), k@) == Err::<Seq<(Seq<char>, NetV)>, ErrV>(e@),
        }),
{
    let entries = match obj_field_x(o, k) {
        Ok(v) => v,
        Err(e) => {
            return Err(e);
        }
    };
    match decode_nets_map(&entries) {
        Ok(v) => Ok(v),
        Err(e) => Err(e.at(k)),
    }
}

/// Decoding a module object.
pub fn decode_module(j: &Json) -> (r: Result<Module, Error>)
    ensures
        res_v(r) == parse_module(j@),
{
    let o = match j {
        Json::Obj(o) => o,
        _ => {
            return Err(Error::not_object(j));
        }
    };
    let attributes = match obj_field_x(o, "attributes") {
        Ok(v) => v,
        Err(e) => {
            return Err(e);
        }
    };
    let ports = match ports_field_x(o, "ports") {
        Ok(v) => v,
        Err(e) => {
            return Err(e);
        }
    };
    let cells = match cells_field_x(o, "cells") {
        Ok(v) => v,
        Err(e) => {
            return Err(e);
        }
    };
    let memories = match memories_field_x(o, "memories") {
        Ok(v) => v,
        Err(e) => {
            return Err(e);
        }
    };
    let nets = match nets_field_x(o, "netnames") {
        Ok(v) => v,
        Err(e) => {
            return Err(e);
        }
    };
    let extra = rest_fields(Entity::Module, o);
    let m = Module { attributes, ports, cells, memories, nets, extra };
    proof {
        assert((|k: Seq<char>| known_key(Entity::Module, k)) =~= (
        |k: Seq<char>| module_known_key(k)));
        assert(parse_module_obj(jentries(o@)) == Ok::<_, ErrV>(m@));
    }
    Ok(m)
}

/// Decoding an object of module objects, order kept.
#[verifier::loop_isolation(false)]
fn decode_modules_map(o: &Vec<(String, Json)>) -> (r: Result<Vec<(String, Module)>, Error>)
    ensures
        (match r {
            Ok(v) => parse_modules(jentries(o@)) == Ok::<Seq<(Seq<char>, ModuleV)>, ErrV>(
                entries_view(v@),
            ),
            Err(e) => parse_modules(jentries(o@)) == Err::<Seq<(Seq<char>, ModuleV)>, ErrV>(e@),
        }),
{
    let ghost oe = jentries(o@);
    let mut out: Vec<(String, Module)> = Vec::new();
    proof {
        assert(oe.subrange(0, oe.len() as int) =~= oe);
        if parse_modules(oe) is Ok {
            assert(entries_view(out@) + parse_modules(oe)->Ok_0 =~= parse_modules(oe)->Ok_0);
        }
    }
    let mut i: usize = 0;
    while i < o.len()
        invariant
            i <= o.len(),
            parse_modules(oe) == (match parse_modules(oe.subrange(i as int, oe.len() as int)) {
                Ok(rest) => Ok::<Seq<(Seq<char>, ModuleV)>, ErrV>(entries_view(out@) + rest),
                Err(e) => Err::<Seq<(Seq<char>, ModuleV)>, ErrV>(e),
            }),
        decreases o.len() - i,
    {
        let ghost prev = out@;
        proof {
            assert(oe.subrange(i as int, oe.len() as int)[0] == oe[i as int]);
            assert(oe.subrange(i as int, oe.len() as int).subrange(
                1,
                oe.subrange(i as int, oe.len() as int).len() as int,
            ) =~= oe.subrange(i as int + 1, oe.len() as int));
        }
        match decode_module(&o[i].1) {
            Ok(m) => {
                let ghost mv = m@;
                out.push((o[i].0.clone(), m));
                proof {
                    assert(entries_view(out@) =~= entries_view(prev) + seq![(oe[i as int].0, mv)]);
                    if parse_modules(oe.subrange(i as int + 1, oe.len() as int)) is Ok {
                        let rest = parse_modules(oe.subrange(i as int + 1, oe.len() as int))->Ok_0;
                        assert(entries_view(prev) + (seq![(oe[i as int].0, mv)] + rest)
                            =~= entries_view(out@) + rest);
                    }
                }
            }
            Err(e) => {
                return Err(e.at(o[i].0.as_str()));
            }
        }
        i += 1;
    }
    proof {
        assert(oe.subrange(o.len() as int, oe.len() as int) =~= Seq::<(Seq<char>, JVal)>::empty());
        assert(entries_view(out@) + Seq::<(Seq<char>, ModuleV)>::empty() =~= entries_view(out@));
    }
    Ok(out)
}

/// Decoding a whole netlist document.
pub fn decode_netlist(j: &Json) -> (r: Result<Netlist, Error>)
    ensures
        res_v(r) == parse_netlist(j@),
{
    let o = match j {
        Json::Obj(o) => o,
        _ => {
            return Err(Error::not_object(j));
        }
    };
    let creator = match text_req_field_x(o, "creator") {
        Ok(s) => s,
        Err(e) => {
            return Err(e);
        }
    };
    let mv = match get_field(o, "modules") {
        Some(v) => v,
        None => {
            return Err(Error::missing("modules"));
        }
    };
    let mo = match mv {
        Json::Obj(m) => m,
        _ => {
            return Err(Error::mismatch("modules", mv));
        }
    };
    let modules = match decode_modules_map(mo) {
        Ok(v) => v,
        Err(e) => {
            return Err(e.at("modules"));
        }
    };
    let extra = rest_fields(Entity::Netlist, o);
    let n = Netlist { creator, modules, extra };
    proof {
        assert((|k: Seq<char>| known_key(Entity::Netlist, k)) =~= (
        |k: Seq<char>| netlist_known_key(k)));
        assert(parse_netlist_obj(jentries(o@)) == Ok::<_, ErrV>(n@));
    }
    Ok(n)
}

} // verus!
