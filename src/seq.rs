//! Sequence types and the IUPAC symbol tables used to classify residues.
use vstd::prelude::*;

verus! {

/// The biological kind of a sequence.
#[derive(Debug, PartialEq, Eq, Clone, Copy, Structural)]
pub enum SeqType {
    DNA,
    RNA,
    Protein,
}

impl Default for SeqType {
    /// DNA: nucleotide content alone cannot tell DNA from RNA, and DNA is the
    /// conventional fallback.
    fn default() -> (r: SeqType)
        ensures
            r == SeqType::DNA,
    {
        SeqType::DNA
    }
}

/// The IUPAC nucleotide codes, upper case.
pub open spec fn nucleic_acid_symbols() -> Set<char> {
    set!['A', 'C', 'G', 'T', 'U', 'W', 'S', 'M', 'K', 'R', 'Y', 'B', 'D', 'H', 'V', 'N']
}

/// The IUPAC amino-acid codes, upper case.
pub open spec fn amino_acid_symbols() -> Set<char> {
    set![
        'A', 'R', 'N', 'D', 'C', 'Q', 'E', 'G', 'H', 'I', 'L', 'K', 'M', 'F', 'P', 'S', 'T',
        'W', 'Y', 'V', 'X'
    ]
}

/// The amino-acid codes that are no nucleotide code: seeing one marks a protein.
pub open spec fn amino_acid_exclusive_symbols() -> Set<char> {
    amino_acid_symbols().difference(nucleic_acid_symbols())
}

/// Membership in the nucleotide table.
pub fn is_nucleic_acid_symbol(c: char) -> (r: bool)
    ensures
        r == nucleic_acid_symbols().contains(c),
{
    match c {
        'A' | 'C' | 'G' | 'T' | 'U' | 'W' | 'S' | 'M' | 'K' | 'R' | 'Y' | 'B' | 'D' | 'H'
        | 'V' | 'N' => true,
        _ => false,
    }
}

/// Membership in the amino-acid table.
pub fn is_amino_acid_symbol(c: char) -> (r: bool)
    ensures
        r == amino_acid_symbols().contains(c),
{
    match c {
        'A' | 'R' | 'N' | 'D' | 'C' | 'Q' | 'E' | 'G' | 'H' | 'I' | 'L' | 'K' | 'M' | 'F'
        | 'P' | 'S' | 'T' | 'W' | 'Y' | 'V' | 'X' => true,
        _ => false,
    }
}

/// Membership in the difference of the amino-acid table and the nucleotide table.
pub fn is_amino_acid_exclusive_symbol(c: char) -> (r: bool)
    ensures
        r == amino_acid_exclusive_symbols().contains(c),
{
    is_amino_acid_symbol(c) && !is_nucleic_acid_symbol(c)
}

} // verus!
