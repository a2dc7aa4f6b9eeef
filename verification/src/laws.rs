//! The codec's laws, stated over the wire specification and proved once for
//! all inputs.

use vstd::prelude::*;
use crate::json::JVal;
use crate::model::{Bit, ModuleV, NetlistV, PortV, CellV, MemoryV, NetV};
use crate::error::ErrV;
use crate::wire::{
    obj_get, obj_keys, rest_of, parse_bit, emit_bit, parse_flag_value, emit_flag, parse_ports,
    parse_cells, parse_memories, parse_nets, parse_modules, parse_module_obj, parse_netlist,
    emit_ports, emit_cells, emit_memories, emit_nets, emit_modules, emit_module, emit_netlist,
    module_known_key, netlist_known_key,
};

verus! {

/// Decoding a valid bit wire value and encoding the result reproduces the
/// value exactly: no normalization, no loss.
pub proof fn lemma_bit_decode_encode(v: JVal, b: Bit)
    requires
        parse_bit(v) == Ok::<Bit, ErrV>(b),
    ensures
        emit_bit(b) == v,
{
}

/// Encoding any bit and decoding the result yields the bit back: the bit
/// codec round-trips in both directions.
pub proof fn lemma_bit_encode_decode(b: Bit)
    ensures
        parse_bit(emit_bit(b)) == Ok::<Bit, ErrV>(b),
{
    reveal_strlit("0");
    reveal_strlit("1");
    reveal_strlit("z");
    reveal_strlit("x");
    assert(("0"@)[0] == '0' && ("1"@)[0] == '1' && ("z"@)[0] == 'z' && ("x"@)[0] == 'x');
}

/// The boolean-flag codec: an integer decodes to true exactly when it is 1
/// (negative integers decode to false), and encoding always writes 0,
/// whatever the flag — the format-mandated asymmetry.
pub proof fn lemma_flag_codec(v: JVal, b: bool)
    ensures
        v matches JVal::Uint(n) ==> parse_flag_value(v) == Some(n == 1),
        v matches JVal::Nint(m) ==> parse_flag_value(v) == Some(false),
        emit_flag(b) == JVal::Uint(0),
{
}

/// A decoded mapping of ports has exactly the keys of its wire object, in
/// the same order.
pub proof fn lemma_parse_ports_keys(o: Seq<(Seq<char>, JVal)>, s: Seq<(Seq<char>, PortV)>)
    requires
        parse_ports(o) == Ok::<Seq<(Seq<char>, PortV)>, ErrV>(s),
    ensures
        s.len() == o.len(),
        forall|i: int| 0 <= i < o.len() ==> s[i].0 == o[i].0,
    decreases o.len(),
{
    if o.len() > 0 {
        let rest = o.subrange(1, o.len() as int);
        lemma_parse_ports_keys(rest, parse_ports(rest)->Ok_0);
    }
}

/// A decoded mapping of cells has exactly the keys of its wire object, in
/// the same order.
pub proof fn lemma_parse_cells_keys(o: Seq<(Seq<char>, JVal)>, s: Seq<(Seq<char>, CellV)>)
    requires
        parse_cells(o) == Ok::<Seq<(Seq<char>, CellV)>, ErrV>(s),
    ensures
        s.len() == o.len(),
        forall|i: int| 0 <= i < o.len() ==> s[i].0 == o[i].0,
    decreases o.len(),
{
    if o.len() > 0 {
        let rest = o.subrange(1, o.len() as int);
        lemma_parse_cells_keys(rest, parse_cells(rest)->Ok_0);
    }
}

/// A decoded mapping of memories has exactly the keys of its wire object, in
/// the same order.
pub proof fn lemma_parse_memories_keys(o: Seq<(Seq<char>, JVal)>, s: Seq<(Seq<char>, MemoryV)>)
    requires
        parse_memories(o) == Ok::<Seq<(Seq<char>, MemoryV)>, ErrV>(s),
    ensures
        s.len() == o.len(),
        forall|i: int| 0 <= i < o.len() ==> s[i].0 == o[i].0,
    decreases o.len(),
{
    if o.len() > 0 {
        let rest = o.subrange(1, o.len() as int);
        lemma_parse_memories_keys(rest, parse_memories(rest)->Ok_0);
    }
}

/// A decoded mapping of nets has exactly the keys of its wire object, in the
/// same order.
pub proof fn lemma_parse_nets_keys(o: Seq<(Seq<char>, JVal)>, s: Seq<(Seq<char>, NetV)>)
    requires
        parse_nets(o) == Ok::<Seq<(Seq<char>, NetV)>, ErrV>(s),
    ensures
        s.len() == o.len(),
        forall|i: int| 0 <= i < o.len() ==> s[i].0 == o[i].0,
    decreases o.len(),
{
    if o.len() > 0 {
        let rest = o.subrange(1, o.len() as int);
        lemma_parse_nets_keys(rest, parse_nets(rest)->Ok_0);
    }
}

/// A decoded mapping of modules has exactly the keys of its wire object, in
/// the same order.
pub proof fn lemma_parse_modules_keys(o: Seq<(Seq<char>, JVal)>, s: Seq<(Seq<char>, ModuleV)>)
    requires
        parse_modules(o) == Ok::<Seq<(Seq<char>, ModuleV)>, ErrV>(s),
    ensures
        s.len() == o.len(),
        forall|i: int| 0 <= i < o.len() ==> s[i].0 == o[i].0,
    decreases o.len(),
{
    if o.len() > 0 {
        let rest = o.subrange(1, o.len() as int);
        lemma_parse_modules_keys(rest, parse_modules(rest)->Ok_0);
    }
}

/// Decoding a document and re-encoding it is order-stable at the top level:
/// the re-encoded document holds the known fields first, then the
/// unrecognized input fields exactly as they stood, in their input order;
/// and its modules object lists the module names in the input's order.
pub proof fn lemma_netlist_order_stable(o: Seq<(Seq<char>, JVal)>, mo: Seq<(Seq<char>, JVal)>, n: NetlistV)
    requires
        parse_netlist(JVal::Obj(o)) == Ok::<NetlistV, ErrV>(n),
        obj_get(o, "modules"@) == Some(JVal::Obj(mo)),
    ensures
        emit_netlist(n) == JVal::Obj(
            seq![
                ("creator"@, JVal::Text(n.creator)),
                ("modules"@, JVal::Obj(emit_modules(n.modules))),
            ] + n.extra,
        ),
        obj_keys(emit_modules(n.modules)) == obj_keys(mo),
        n.extra == rest_of(o, |k: Seq<char>| netlist_known_key(k)),
{
    lemma_parse_modules_keys(mo, n.modules);
    assert(obj_keys(emit_modules(n.modules)) =~= obj_keys(mo));
}

/// Decoding a module object and re-encoding it is order-stable for every
/// named mapping and for the passthrough fields; a mapping whose key is
/// absent from the input decodes to the empty mapping.
pub proof fn lemma_module_order_stable(o: Seq<(Seq<char>, JVal)>, m: ModuleV)
    requires
        parse_module_obj(o) == Ok::<ModuleV, ErrV>(m),
    ensures
        emit_module(m) == JVal::Obj(
            seq![
                ("attributes"@, JVal::Obj(m.attributes)),
                ("ports"@, JVal::Obj(emit_ports(m.ports))),
                ("cells"@, JVal::Obj(emit_cells(m.cells))),
                ("memories"@, JVal::Obj(emit_memories(m.memories))),
                ("netnames"@, JVal::Obj(emit_nets(m.nets))),
            ] + m.extra,
        ),
        obj_get(o, "ports"@) matches Some(JVal::Obj(po)) ==> obj_keys(
            emit_ports(m.ports),
        ) == obj_keys(po),
        obj_get(o, "cells"@) matches Some(JVal::Obj(co)) ==> obj_keys(
            emit_cells(m.cells),
        ) == obj_keys(co),
        obj_get(o, "memories"@) matches Some(JVal::Obj(mo)) ==> obj_keys(
            emit_memories(m.memories),
        ) == obj_keys(mo),
        obj_get(o, "netnames"@) matches Some(JVal::Obj(no)) ==> obj_keys(
            emit_nets(m.nets),
        ) == obj_keys(no),
        obj_get(o, "ports"@) is None ==> m.ports == Seq::<(Seq<char>, PortV)>::empty(),
        obj_get(o, "netnames"@) is None ==> m.nets == Seq::<(Seq<char>, NetV)>::empty(),
        m.extra == rest_of(o, |k: Seq<char>| module_known_key(k)),
{
    if let Some(JVal::Obj(po)) = obj_get(o, "ports"@) {
        lemma_parse_ports_keys(po, m.ports);
        assert(obj_keys(emit_ports(m.ports)) =~= obj_keys(po));
    }
    if let Some(JVal::Obj(co)) = obj_get(o, "cells"@) {
        lemma_parse_cells_keys(co, m.cells);
        assert(obj_keys(emit_cells(m.cells)) =~= obj_keys(co));
    }
    if let Some(JVal::Obj(mo)) = obj_get(o, "memories"@) {
        lemma_parse_memories_keys(mo, m.memories);
        assert(obj_keys(emit_memories(m.memories)) =~= obj_keys(mo));
    }
    if let Some(JVal::Obj(no)) = obj_get(o, "netnames"@) {
        lemma_parse_nets_keys(no, m.nets);
        assert(obj_keys(emit_nets(m.nets)) =~= obj_keys(no));
    }
}

/// Unrecognized keys pass through: nothing of a module object is recognized,
/// so a module object with none of the schema's keys decodes successfully,
/// with every mapping empty and the whole object kept as passthrough. In
/// particular a module with no "ports" and no "netnames" keys decodes
/// successfully, defaulting both to empty mappings.
pub proof fn lemma_module_defaults(o: Seq<(Seq<char>, JVal)>)
    requires
        forall|i: int| 0 <= i < o.len() ==> !module_known_key(#[trigger] o[i].0),
    ensures
        parse_module_obj(o) == Ok::<ModuleV, ErrV>(
            ModuleV {
                attributes: Seq::empty(),
                ports: Seq::empty(),
                cells: Seq::empty(),
                memories: Seq::empty(),
                nets: Seq::empty(),
                extra: o,
            },
        ),
{
    lemma_obj_get_unknown(o, "attributes"@);
    lemma_obj_get_unknown(o, "ports"@);
    lemma_obj_get_unknown(o, "cells"@);
    lemma_obj_get_unknown(o, "memories"@);
    lemma_obj_get_unknown(o, "netnames"@);
    lemma_rest_of_nothing_known(o, |k: Seq<char>| module_known_key(k));
    assert(parse_module_obj(o)->Ok_0 =~= (ModuleV {
        attributes: Seq::empty(),
        ports: Seq::empty(),
        cells: Seq::empty(),
        memories: Seq::empty(),
        nets: Seq::empty(),
        extra: o,
    }));
}

/// A key recognized by the module schema is not found among entries whose
/// keys are all unrecognized.
proof fn lemma_obj_get_unknown(o: Seq<(Seq<char>, JVal)>, k: Seq<char>)
    requires
        forall|i: int| 0 <= i < o.len() ==> !module_known_key(#[trigger] o[i].0),
        module_known_key(k),
    ensures
        obj_get(o, k) is None,
    decreases o.len(),
{
    if o.len() > 0 {
        let rest = o.subrange(1, o.len() as int);
        assert(forall|i: int| 0 <= i < rest.len() ==> rest[i] == o[i + 1]);
        lemma_obj_get_unknown(rest, k);
    }
}

/// When no entry's key is recognized, the passthrough is the whole object.
proof fn lemma_rest_of_nothing_known(o: Seq<(Seq<char>, JVal)>, known: spec_fn(Seq<char>) -> bool)
    requires
        forall|i: int| 0 <= i < o.len() ==> !known(#[trigger] o[i].0),
    ensures
        rest_of(o, known) == o,
    decreases o.len(),
{
    if o.len() > 0 {
        let rest = o.subrange(1, o.len() as int);
        assert(forall|i: int| 0 <= i < rest.len() ==> rest[i] == o[i + 1]);
        lemma_rest_of_nothing_known(rest, known);
        assert(seq![o[0]] + rest =~= o);
    }
}

} // verus!
