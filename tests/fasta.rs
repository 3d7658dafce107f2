use bioseq::alphabets::Alphabet;
use bioseq::fasta::{FastaError, FastaSeq};
use bioseq::seq::{
    is_amino_acid_exclusive_symbol, is_amino_acid_symbol, is_nucleic_acid_symbol, SeqType,
};

#[test]
fn create_seq_from_string() {
    let seq = String::from("  \n>Seq1 Homo Sapiens COX1\nACTGGGTGTGT\n\nAAATTTGG\nATG");
    let fasta = FastaSeq::from_string(&seq, SeqType::DNA, Alphabet::IUPACNucleicAcid)
        .expect("Couldn't create FASTA sequence");

    assert_eq!(fasta.id(), "Seq1");
    assert_eq!(fasta.desc(), Some("Homo Sapiens COX1"));
    assert_eq!(fasta.sequence(), "ACTGGGTGTGTAAATTTGGATG");
    assert_eq!(fasta.alphabet(), Alphabet::IUPACNucleicAcid);
    assert_eq!(fasta.seq_type(), SeqType::DNA);
    assert_eq!(fasta.len(), fasta.sequence().len());
}

#[test]
fn create_seq_from_string_no_desc() {
    let seq = String::from("  \n>Seq1\nACTGGGTGTGT\n\nAAATTTGG\nATG");
    let fasta = FastaSeq::from_string(&seq, SeqType::DNA, Alphabet::IUPACNucleicAcid)
        .expect("Couldn't create FASTA sequence");

    assert_eq!(fasta.id(), "Seq1");
    assert_eq!(fasta.desc(), None);
    assert_eq!(fasta.sequence(), "ACTGGGTGTGTAAATTTGGATG");
    assert_eq!(fasta.alphabet(), Alphabet::IUPACNucleicAcid);
    assert_eq!(fasta.seq_type(), SeqType::DNA);
    assert_eq!(fasta.len(), fasta.sequence().len());
}

#[test]
fn create_seq_from_string_inferred() {
    // Default, should be inferred as DNA
    let seq = String::from("\n>Seq1\n\nACTGCATT");
    let fasta = FastaSeq::from_string_inferred(&seq).expect("Couldn't create FASTA sequence");

    assert_eq!(fasta.alphabet(), Alphabet::IUPACNucleicAcid);
    assert_eq!(fasta.seq_type(), SeqType::DNA);

    // Should be inferred as RNA
    let seq = String::from("\n>Seq1\n\nACUGCAuu\n");
    let fasta = FastaSeq::from_string_inferred(&seq).expect("Couldn't create FASTA sequence");

    assert_eq!(fasta.alphabet(), Alphabet::IUPACNucleicAcid);
    assert_eq!(fasta.seq_type(), SeqType::RNA);

    // Should be inferred as Protein
    let seq = String::from("\n>Seq1\n\nYWATTVEIL\n");
    let fasta = FastaSeq::from_string_inferred(&seq).expect("Couldn't create FASTA sequence");

    assert_eq!(fasta.alphabet(), Alphabet::IUPACProtein);
    assert_eq!(fasta.seq_type(), SeqType::Protein);

    // Should be inferred as DNA, the default since we can't differentiate between DNA/RNA
    let seq = String::from("\n>Seq1\n\nACAABBV\n");
    let fasta = FastaSeq::from_string_inferred(&seq).expect("Couldn't create FASTA sequence");

    assert_eq!(fasta.alphabet(), Alphabet::IUPACNucleicAcid);
    assert_eq!(fasta.seq_type(), SeqType::DNA);

    // Should be inferred as DNA, although it looks like a protein, because we can't differentiate
    // and that's the default
    let seq = String::from("\n>Seq1\n\nATYYVHHR\n");
    let fasta = FastaSeq::from_string_inferred(&seq).expect("Couldn't create FASTA sequence");

    assert_eq!(fasta.alphabet(), Alphabet::default());
    assert_eq!(fasta.seq_type(), SeqType::default());
}

#[test]
fn explicit_kinds_are_kept() {
    let fasta = FastaSeq::from_string(">ID\nACUGEEL\n", SeqType::Protein, Alphabet::IUPACProtein)
        .unwrap();
    assert_eq!(fasta.seq_type(), SeqType::Protein);
    assert_eq!(fasta.alphabet(), Alphabet::IUPACProtein);
    let fasta =
        FastaSeq::from_string(">ID\nACUG\n", SeqType::DNA, Alphabet::IUPACProtein).unwrap();
    assert_eq!(fasta.seq_type(), SeqType::DNA);
    assert_eq!(fasta.alphabet(), Alphabet::IUPACProtein);
}

#[test]
fn newlines_removed_from_sequence() {
    let fasta =
        FastaSeq::from_string(">ID\nAC\nGT\n", SeqType::DNA, Alphabet::IUPACNucleicAcid).unwrap();
    assert_eq!(fasta.sequence(), "ACGT");
    assert_eq!(fasta.id(), "ID");
    assert_eq!(fasta.len(), 4);
}

#[test]
fn sequence_trimmed_after_joining() {
    let fasta = FastaSeq::from_string(
        ">ID\n  AC \nGT\t\n\n",
        SeqType::DNA,
        Alphabet::IUPACNucleicAcid,
    )
    .unwrap();
    assert_eq!(fasta.sequence(), "AC GT");
    assert_eq!(fasta.len(), 5);
}

#[test]
fn description_absent_without_space() {
    let fasta =
        FastaSeq::from_string(">ID\nACGT", SeqType::DNA, Alphabet::IUPACNucleicAcid).unwrap();
    assert_eq!(fasta.desc(), None);
}

#[test]
fn description_absent_after_trailing_space() {
    let fasta =
        FastaSeq::from_string(">ID \nACGT", SeqType::DNA, Alphabet::IUPACNucleicAcid).unwrap();
    assert_eq!(fasta.id(), "ID");
    assert_eq!(fasta.desc(), None);
    assert_eq!(fasta.sequence(), "ACGT");
}

#[test]
fn description_trimmed() {
    let fasta = FastaSeq::from_string(
        ">ID   two words  \r\nACGT",
        SeqType::DNA,
        Alphabet::IUPACNucleicAcid,
    )
    .unwrap();
    assert_eq!(fasta.desc(), Some("two words"));
}

#[test]
fn missing_identifier_fails() {
    let r = FastaSeq::from_string("> \nACGT", SeqType::DNA, Alphabet::IUPACNucleicAcid);
    assert_eq!(r.err(), Some(FastaError::MissingIdentifier));
    let r = FastaSeq::from_string_inferred(">\nACGT");
    assert_eq!(r.err(), Some(FastaError::MissingIdentifier));
}

#[test]
fn missing_marker_fails() {
    let r = FastaSeq::from_string("no header here", SeqType::DNA, Alphabet::IUPACNucleicAcid);
    assert_eq!(r.err(), Some(FastaError::MalformedInput));
    let r = FastaSeq::from_string_inferred("");
    assert_eq!(r.err(), Some(FastaError::MalformedInput));
}

#[test]
fn missing_line_break_fails() {
    let r = FastaSeq::from_string(">ID ACGT", SeqType::DNA, Alphabet::IUPACNucleicAcid);
    assert_eq!(r.err(), Some(FastaError::MalformedInput));
    let r = FastaSeq::from_string_inferred(">ID ACGT");
    assert_eq!(r.err(), Some(FastaError::MalformedInput));
}

#[test]
fn text_before_marker_ignored() {
    let fasta = FastaSeq::from_string(
        "junk\nmore junk >A1 first\nAAA\n>B2 second\nCCC",
        SeqType::DNA,
        Alphabet::IUPACNucleicAcid,
    )
    .unwrap();
    assert_eq!(fasta.id(), "A1");
    assert_eq!(fasta.desc(), Some("first"));
    assert_eq!(fasta.sequence(), "AAA>B2 secondCCC");
}

#[test]
fn length_counts_characters() {
    let fasta =
        FastaSeq::from_string(">ID\nAÅC\nG", SeqType::DNA, Alphabet::IUPACNucleicAcid).unwrap();
    assert_eq!(fasta.len(), fasta.sequence().chars().count());
    assert_eq!(fasta.len(), 4);
}

#[test]
fn classify_rna_first() {
    assert_eq!(
        FastaSeq::infer_type_and_alphabet("ACUGCAUU"),
        (SeqType::RNA, Alphabet::IUPACNucleicAcid)
    );
    assert_eq!(
        FastaSeq::infer_type_and_alphabet("ACUWE"),
        (SeqType::RNA, Alphabet::IUPACNucleicAcid)
    );
    assert_eq!(
        FastaSeq::infer_type_and_alphabet("acgu"),
        (SeqType::RNA, Alphabet::IUPACNucleicAcid)
    );
}

#[test]
fn classify_protein() {
    assert_eq!(
        FastaSeq::infer_type_and_alphabet("YWATTVEIL"),
        (SeqType::Protein, Alphabet::IUPACProtein)
    );
    assert_eq!(
        FastaSeq::infer_type_and_alphabet("acgtq"),
        (SeqType::Protein, Alphabet::IUPACProtein)
    );
}

#[test]
fn classify_falls_back_to_dna() {
    assert_eq!(
        FastaSeq::infer_type_and_alphabet("ACAABBV"),
        (SeqType::DNA, Alphabet::IUPACNucleicAcid)
    );
    assert_eq!(
        FastaSeq::infer_type_and_alphabet("ATYYVHHR"),
        (SeqType::DNA, Alphabet::IUPACNucleicAcid)
    );
    assert_eq!(
        FastaSeq::infer_type_and_alphabet(""),
        (SeqType::DNA, Alphabet::IUPACNucleicAcid)
    );
    assert_eq!(
        FastaSeq::infer_type_and_alphabet("ZZJ12"),
        (SeqType::DNA, Alphabet::IUPACNucleicAcid)
    );
}

#[test]
fn defaults() {
    assert_eq!(SeqType::default(), SeqType::DNA);
    assert_eq!(Alphabet::default(), Alphabet::IUPACNucleicAcid);
}

#[test]
fn symbol_tables() {
    for c in ['E', 'F', 'I', 'L', 'P', 'Q', 'X'] {
        assert!(is_amino_acid_exclusive_symbol(c));
    }
    for c in ['A', 'C', 'G', 'T', 'U', 'N', 'B', 'Z', 'e'] {
        assert!(!is_amino_acid_exclusive_symbol(c));
    }
    assert!(is_nucleic_acid_symbol('U'));
    assert!(!is_amino_acid_symbol('U'));
    assert!(is_amino_acid_symbol('X'));
}

#[test]
fn new_keeps_fields() {
    let f = FastaSeq::new(
        String::from("MKV"),
        Alphabet::IUPACProtein,
        SeqType::Protein,
        String::from("p1"),
        Some(String::from("a protein")),
    );
    assert_eq!(f.sequence(), "MKV");
    assert_eq!(f.id(), "p1");
    assert_eq!(f.desc(), Some("a protein"));
    assert_eq!(f.alphabet(), Alphabet::IUPACProtein);
    assert_eq!(f.seq_type(), SeqType::Protein);
    assert_eq!(f.len(), 3);
}
