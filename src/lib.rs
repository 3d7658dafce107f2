//! Parsing of single FASTA records, with inference of the sequence type and
//! symbol alphabet from the residues.
pub mod alphabets;
pub mod fasta;
pub mod seq;
pub mod text;
