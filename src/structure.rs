//! The hierarchy that decoded records are gathered into: a structure holds
//! models, a model chains, a chain residues, a residue atoms.
use vstd::prelude::*;

verus! {

pub struct Structure {
    models: Vec<Model>,
    name: String,
}

pub struct Model {
    chains: Vec<Chain>,
    id: u32,
}

pub struct Chain {
    residues: Vec<Residue>,
    id: char,
}

pub struct Residue {
    atoms: Vec<Atom>,
    kind: AminoAcid,
    id: u32,
}

pub struct Atom {}

/// The amino acids that a residue can be.
#[derive(Clone, Copy, Debug, PartialEq, Eq, Structural)]
pub enum AminoAcid {
    Ala,
    Val,
    Ile,
    Leu,
    Met,
    Phe,
    Tyr,
    Trp,
    Arg,
    His,
    Lys,
    Asp,
    Glu,
    Ser,
    Thr,
    Asn,
    Gln,
    Cys,
    Sec,
    Gly,
    Pro,
}

} // verus!
