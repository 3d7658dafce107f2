//! Symbol alphabets that a sequence is drawn from.
use vstd::prelude::*;

verus! {

/// The symbol set of a sequence.
#[derive(Debug, PartialEq, Eq, Clone, Copy, Structural)]
pub enum Alphabet {
    IUPACNucleicAcid,
    IUPACProtein,
}

impl Default for Alphabet {
    /// The nucleotide alphabet, in line with the default sequence type.
    fn default() -> (r: Alphabet)
        ensures
            r == Alphabet::IUPACNucleicAcid,
    {
        Alphabet::IUPACNucleicAcid
    }
}

} // verus!
