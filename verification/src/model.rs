//! The typed netlist entities and their mathematical models.
//!
//! Every named mapping (modules, ports, cells, memories, nets, attributes,
//! parameters, connections, passthrough fields) is an order-preserving entry
//! list: the order of keys mirrors the producing tool's emission order and is
//! part of the value.

use vstd::prelude::*;
use crate::json::{Json, JVal, jentries};

verus! {

/// Direction of a port or of a cell connection.
#[derive(Copy, Clone, Debug, PartialEq, Eq, Structural, PartialOrd, Ord, Hash)]
pub enum Direction {
    Input,
    Output,
    InOut,
}

impl View for Direction {
    type V = Direction;

    open spec fn view(&self) -> Direction {
        *self
    }
}

/// A single wire reference: a numbered signal within the module's local
/// namespace, or one of four reserved constants (logic-0, logic-1,
/// high-impedance, undefined).
#[derive(Copy, Clone, Debug, PartialEq, Eq, Structural, PartialOrd, Ord, Hash)]
pub enum Bit {
    Signal(u64),
    _0,
    _1,
    Z,
    X,
}

impl View for Bit {
    type V = Bit;

    open spec fn view(&self) -> Bit {
        *self
    }
}

/// The model of an order-preserving mapping: its entries, in order, with
/// keys as character sequences and values as their own models.
pub open spec fn entries_view<T: View>(v: Seq<(String, T)>) -> Seq<(Seq<char>, T::V)> {
    Seq::new(v.len(), |i: int| (v[i].0@, v[i].1@))
}

/// A module port: direction, one bit per position, and numbering options.
#[derive(Debug, Clone)]
pub struct Port {
    pub direction: Direction,
    pub bits: Vec<Bit>,
    pub offset: u64,
    pub upto: u64,
    pub signed: bool,
    pub extra: Vec<(String, Json)>,
}

#[verifier::ext_equal]
pub struct PortV {
    pub direction: Direction,
    pub bits: Seq<Bit>,
    pub offset: u64,
    pub upto: u64,
    pub signed: bool,
    pub extra: Seq<(Seq<char>, JVal)>,
}

impl View for Port {
    type V = PortV;

    open spec fn view(&self) -> PortV {
        PortV {
            direction: self.direction,
            bits: self.bits@,
            offset: self.offset,
            upto: self.upto,
            signed: self.signed,
            extra: jentries(self.extra@),
        }
    }
}

/// A cell instance: the referenced module or primitive type, its parameters
/// and per-port connections.
#[derive(Debug, Clone)]
pub struct Cell {
    pub hide_name: bool,
    pub module: String,
    pub attributes: Vec<(String, Json)>,
    pub parameters: Vec<(String, Json)>,
    pub port_directions: Vec<(String, Direction)>,
    pub connections: Vec<(String, Vec<Bit>)>,
    pub extra: Vec<(String, Json)>,
}

#[verifier::ext_equal]
pub struct CellV {
    pub hide_name: bool,
    pub module: Seq<char>,
    pub attributes: Seq<(Seq<char>, JVal)>,
    pub parameters: Seq<(Seq<char>, JVal)>,
    pub port_directions: Seq<(Seq<char>, Direction)>,
    pub connections: Seq<(Seq<char>, Seq<Bit>)>,
    pub extra: Seq<(Seq<char>, JVal)>,
}

impl View for Cell {
    type V = CellV;

    open spec fn view(&self) -> CellV {
        CellV {
            hide_name: self.hide_name,
            module: self.module@,
            attributes: jentries(self.attributes@),
            parameters: jentries(self.parameters@),
            port_directions: entries_view(self.port_directions@),
            connections: entries_view(self.connections@),
            extra: jentries(self.extra@),
        }
    }
}

/// A memory: word width, word count and addressing start offset.
#[derive(Debug, Clone)]
pub struct Memory {
    pub hide_name: bool,
    pub attributes: Vec<(String, Json)>,
    pub width: u64,
    pub size: u64,
    pub start_offset: u64,
    pub extra: Vec<(String, Json)>,
}

#[verifier::ext_equal]
pub struct MemoryV {
    pub hide_name: bool,
    pub attributes: Seq<(Seq<char>, JVal)>,
    pub width: u64,
    pub size: u64,
    pub start_offset: u64,
    pub extra: Seq<(Seq<char>, JVal)>,
}

impl View for Memory {
    type V = MemoryV;

    open spec fn view(&self) -> MemoryV {
        MemoryV {
            hide_name: self.hide_name,
            attributes: jentries(self.attributes@),
            width: self.width,
            size: self.size,
            start_offset: self.start_offset,
            extra: jentries(self.extra@),
        }
    }
}

/// A named net: the bits it is made of, and numbering options.
#[derive(Debug, Clone)]
pub struct Net {
    pub hide_name: bool,
    pub attributes: Vec<(String, Json)>,
    pub bits: Vec<Bit>,
    pub offset: u64,
    pub upto: u64,
    pub signed: bool,
    pub extra: Vec<(String, Json)>,
}

#[verifier::ext_equal]
pub struct NetV {
    pub hide_name: bool,
    pub attributes: Seq<(Seq<char>, JVal)>,
    pub bits: Seq<Bit>,
    pub offset: u64,
    pub upto: u64,
    pub signed: bool,
    pub extra: Seq<(Seq<char>, JVal)>,
}

impl View for Net {
    type V = NetV;

    open spec fn view(&self) -> NetV {
        NetV {
            hide_name: self.hide_name,
            attributes: jentries(self.attributes@),
            bits: self.bits@,
            offset: self.offset,
            upto: self.upto,
            signed: self.signed,
            extra: jentries(self.extra@),
        }
    }
}

/// A named circuit definition: ports, cell instances, memories and nets.
#[derive(Debug, Clone)]
pub struct Module {
    pub attributes: Vec<(String, Json)>,
    pub ports: Vec<(String, Port)>,
    pub cells: Vec<(String, Cell)>,
    pub memories: Vec<(String, Memory)>,
    pub nets: Vec<(String, Net)>,
    pub extra: Vec<(String, Json)>,
}

#[verifier::ext_equal]
pub struct ModuleV {
    pub attributes: Seq<(Seq<char>, JVal)>,
    pub ports: Seq<(Seq<char>, PortV)>,
    pub cells: Seq<(Seq<char>, CellV)>,
    pub memories: Seq<(Seq<char>, MemoryV)>,
    pub nets: Seq<(Seq<char>, NetV)>,
    pub extra: Seq<(Seq<char>, JVal)>,
}

impl View for Module {
    type V = ModuleV;

    open spec fn view(&self) -> ModuleV {
        ModuleV {
            attributes: jentries(self.attributes@),
            ports: entries_view(self.ports@),
            cells: entries_view(self.cells@),
            memories: entries_view(self.memories@),
            nets: entries_view(self.nets@),
            extra: jentries(self.extra@),
        }
    }
}

/// A whole netlist document: the creator string and the named modules.
#[derive(Debug, Clone)]
pub struct Netlist {
    pub creator: String,
    pub modules: Vec<(String, Module)>,
    pub extra: Vec<(String, Json)>,
}

#[verifier::ext_equal]
pub struct NetlistV {
    pub creator: Seq<char>,
    pub modules: Seq<(Seq<char>, ModuleV)>,
    pub extra: Seq<(Seq<char>, JVal)>,
}

impl View for Netlist {
    type V = NetlistV;

    open spec fn view(&self) -> NetlistV {
        NetlistV {
            creator: self.creator@,
            modules: entries_view(self.modules@),
            extra: jentries(self.extra@),
        }
    }
}

impl Netlist {
    /// An empty netlist for the given creator string.
    pub fn new(creator: &str) -> (r: Self)
        ensures
            r@ == (NetlistV {
                creator: creator@,
                modules: Seq::<(Seq<char>, ModuleV)>::empty(),
                extra: Seq::<(Seq<char>, JVal)>::empty(),
            }),
    {
        let r = Netlist { creator: String::from_str(creator), modules: Vec::new(), extra: Vec::new() };
        proof {
            assert(entries_view(r.modules@) =~= Seq::<(Seq<char>, ModuleV)>::empty());
            assert(r@ =~= (NetlistV {
                creator: creator@,
                modules: Seq::<(Seq<char>, ModuleV)>::empty(),
                extra: Seq::<(Seq<char>, JVal)>::empty(),
            }));
        }
        r
    }
}

} // verus!
