//! Single FASTA records: parsing, classification of the residues, and access
//! to the parsed fields.
use vstd::prelude::*;
use vstd::string::StrSliceExecFns;

use crate::alphabets::Alphabet;
use crate::seq::{amino_acid_exclusive_symbols, is_amino_acid_exclusive_symbol, SeqType};
use crate::text::{
    chars_of, is_white_space, remove_newlines, string_of_range, trim, trim_bounds,
    without_newlines,
};

verus! {

/// Why a string could not be read as a FASTA record.
#[derive(Debug, PartialEq, Eq, Clone, Copy, Structural)]
pub enum FastaError {
    /// No `>` header marker, or no line break after the header line.
    MalformedInput,
    /// The header names no identifier.
    MissingIdentifier,
}

/// A collection of FASTA sequences.
pub struct FastaRecord {
    sequences: Vec<FastaSeq>,
}

/// A single sequence of a FASTA file.
pub struct FastaSeq {
    sequence: String,
    alphabet: Alphabet,
    seq_type: SeqType,
    id: String,
    desc: Option<String>,
}

/// The contents of a [`FastaSeq`], as mathematical values.
pub struct FastaSeqModel {
    pub sequence: Seq<char>,
    pub alphabet: Alphabet,
    pub seq_type: SeqType,
    pub id: Seq<char>,
    pub desc: Option<Seq<char>>,
}

impl View for FastaSeq {
    type V = FastaSeqModel;

    closed spec fn view(&self) -> FastaSeqModel {
        FastaSeqModel {
            sequence: self.sequence@,
            alphabet: self.alphabet,
            seq_type: self.seq_type,
            id: self.id@,
            desc: match self.desc {
                Some(d) => Some(d@),
                None => None,
            },
        }
    }
}

/// The record invariant: the identifier holds a character other than
/// whitespace, and the sequence holds no line feed.
pub open spec fn model_wf(m: FastaSeqModel) -> bool {
    &&& exists|i: int| 0 <= i < m.id.len() && !is_white_space(#[trigger] m.id[i])
    &&& !m.sequence.contains('\n')
}

/// `i` is the position of the first `c` in `s`.
pub open spec fn is_first_index(s: Seq<char>, c: char, i: int) -> bool {
    &&& 0 <= i < s.len()
    &&& s[i] == c
    &&& forall|j: int| 0 <= j < i ==> s[j] != c
}

/// The position of the first `c` in `s`.
pub open spec fn first_index(s: Seq<char>, c: char) -> int
    recommends
        s.contains(c),
{
    choose|i: int| is_first_index(s, c, i)
}

/// `s` cut at its first `c` into what stands before and what stands after it;
/// `None` when `s` holds no `c`.
pub open spec fn split_first(s: Seq<char>, c: char) -> Option<(Seq<char>, Seq<char>)> {
    if s.contains(c) {
        let i = first_index(s, c);
        Some((s.subrange(0, i), s.subrange(i + 1, s.len() as int)))
    } else {
        None
    }
}

/// The record that `s` describes, with the given type and alphabet.
///
/// Everything before the first `>` is skipped. The header line runs from
/// there to the first line feed; its first space parts the identifier from
/// the description, and both are trimmed. A description that trims to nothing
/// is absent. The sequence is the rest of the text with every line feed taken
/// out, then trimmed.
pub open spec fn parse_record(s: Seq<char>, seq_type: SeqType, alphabet: Alphabet) -> Result<
    FastaSeqModel,
    FastaError,
> {
    match split_first(s, '>') {
        None => Err(FastaError::MalformedInput),
        Some((_, rest)) => match split_first(rest, '\n') {
            None => Err(FastaError::MalformedInput),
            Some((header, body)) => {
                let (id_raw, desc_raw) = match split_first(header, ' ') {
                    Some(parts) => parts,
                    None => (header, Seq::<char>::empty()),
                };
                let id = trim(id_raw);
                let desc = trim(desc_raw);
                if id.len() == 0 {
                    Err(FastaError::MissingIdentifier)
                } else {
                    Ok(
                        FastaSeqModel {
                            sequence: trim(remove_newlines(body)),
                            alphabet,
                            seq_type,
                            id,
                            desc: if desc.len() == 0 {
                                None
                            } else {
                                Some(desc)
                            },
                        },
                    )
                }
            },
        },
    }
}

/// A first position of `c` is the first position of `c`.
pub proof fn lemma_first_index(s: Seq<char>, c: char, i: int)
    requires
        is_first_index(s, c, i),
    ensures
        s.contains(c),
        first_index(s, c) == i,
{
    assert(s[i] == c);
    let k = first_index(s, c);
    assert(is_first_index(s, c, k));
    if k < i {
        assert(s[k] == c);
    } else if k > i {
        assert(s[i] != c);
    }
}

/// `c` in upper case, for an ASCII letter; `c` itself otherwise.
pub open spec fn ascii_upper(c: char) -> char {
    if 'a' <= c && c <= 'z' {
        ((c as int) - 32) as char
    } else {
        c
    }
}

/// Some residue of `s` is uracil, in either case.
pub open spec fn has_uracil(s: Seq<char>) -> bool {
    exists|i: int| 0 <= i < s.len() && ascii_upper(#[trigger] s[i]) == 'U'
}

/// Some residue of `s`, in upper case, is an amino-acid code that is no
/// nucleotide code.
pub open spec fn has_protein_symbol(s: Seq<char>) -> bool {
    exists|i: int|
        0 <= i < s.len() && amino_acid_exclusive_symbols().contains(ascii_upper(#[trigger] s[i]))
}

/// The type and alphabet that the residues `s` point to. Uracil marks RNA and
/// is looked for first; a protein-only symbol marks a protein; anything else
/// cannot be told from DNA and falls back to the defaults.
pub open spec fn classify(s: Seq<char>) -> (SeqType, Alphabet) {
    if has_uracil(s) {
        (SeqType::RNA, Alphabet::IUPACNucleicAcid)
    } else if has_protein_symbol(s) {
        (SeqType::Protein, Alphabet::IUPACProtein)
    } else {
        (SeqType::DNA, Alphabet::IUPACNucleicAcid)
    }
}

/// The record that `s` describes, with the type and alphabet classified from
/// its residues.
pub open spec fn parse_record_inferred(s: Seq<char>) -> Result<FastaSeqModel, FastaError> {
    match parse_record(s, SeqType::DNA, Alphabet::IUPACNucleicAcid) {
        Ok(m) => Ok(
            FastaSeqModel {
                seq_type: classify(m.sequence).0,
                alphabet: classify(m.sequence).1,
                ..m
            },
        ),
        Err(e) => Err(e),
    }
}

/// Records read with a given type and alphabet keep them: neither is ever
/// replaced by what the residues suggest.
pub proof fn lemma_explicit_kinds_kept(s: Seq<char>, seq_type: SeqType, alphabet: Alphabet)
    ensures
        parse_record(s, seq_type, alphabet) is Ok ==> {
            &&& parse_record(s, seq_type, alphabet)->Ok_0.seq_type == seq_type
            &&& parse_record(s, seq_type, alphabet)->Ok_0.alphabet == alphabet
        },
{
}

/// `c` in upper case, for an ASCII letter; `c` itself otherwise.
fn ascii_upper_char(c: char) -> (r: char)
    ensures
        r == ascii_upper(c),
{
    if 'a' <= c && c <= 'z' {
        ((c as u8) - 32) as char
    } else {
        c
    }
}

/// Tells whether some residue of `v` is uracil, in either case.
fn contains_uracil(v: &Vec<char>) -> (r: bool)
    ensures
        r == has_uracil(v@),
{
    let mut i: usize = 0;
    while i < v.len()
        invariant
            i <= v@.len(),
            forall|j: int| 0 <= j < i ==> ascii_upper(#[trigger] v@[j]) != 'U',
        decreases v.len() - i,
    {
        if ascii_upper_char(v[i]) == 'U' {
            return true;
        }
        i = i + 1;
    }
    false
}

/// Tells whether some residue of `v`, in upper case, is a protein-only symbol.
fn contains_protein_symbol(v: &Vec<char>) -> (r: bool)
    ensures
        r == has_protein_symbol(v@),
{
    let mut i: usize = 0;
    while i < v.len()
        invariant
            i <= v@.len(),
            forall|j: int|
                0 <= j < i ==> !amino_acid_exclusive_symbols().contains(
                    ascii_upper(#[trigger] v@[j]),
                ),
        decreases v.len() - i,
    {
        if is_amino_acid_exclusive_symbol(ascii_upper_char(v[i])) {
            return true;
        }
        i = i + 1;
    }
    false
}

/// The position of the first `c` in `v[lo..hi]`, counted from the start of `v`.
fn find_char(v: &Vec<char>, lo: usize, hi: usize, c: char) -> (r: Option<usize>)
    requires
        lo <= hi <= v@.len(),
    ensures
        match r {
            Some(i) => lo <= i < hi && is_first_index(
                v@.subrange(lo as int, hi as int),
                c,
                i - lo,
            ),
            None => !v@.subrange(lo as int, hi as int).contains(c),
        },
{
    let mut i: usize = lo;
    while i < hi
        invariant
            lo <= i <= hi <= v@.len(),
            forall|j: int| lo <= j < i ==> v@[j] != c,
        decreases hi - i,
    {
        if v[i] == c {
            return Some(i);
        }
        i = i + 1;
    }
    None
}

impl FastaSeq {
    /// The record invariant.
    pub open spec fn wf(&self) -> bool {
        model_wf(self@)
    }

    /// A record of the given fields. The identifier must hold a character
    /// other than whitespace, and the sequence no line feed.
    pub fn new(
        sequence: String,
        alphabet: Alphabet,
        seq_type: SeqType,
        id: String,
        desc: Option<String>,
    ) -> (r: Self)
        requires
            exists|i: int| 0 <= i < id@.len() && !is_white_space(#[trigger] id@[i]),
            !sequence@.contains('\n'),
        ensures
            r.wf(),
            r@.sequence == sequence@,
            r@.alphabet == alphabet,
            r@.seq_type == seq_type,
            r@.id == id@,
            r@.desc == match desc {
                Some(d) => Some(d@),
                None => None::<Seq<char>>,
            },
    {
        let r = FastaSeq { sequence, alphabet, seq_type, id, desc };
        proof {
            let i = choose|i: int| 0 <= i < r.id@.len() && !is_white_space(#[trigger] r.id@[i]);
            assert(r@.id[i] == r.id@[i]);
        }
        r
    }

    /// Reads the record in `input_str`, with the type and alphabet given.
    pub fn from_string(input_str: &str, seq_type: SeqType, alphabet: Alphabet) -> (r: Result<
        Self,
        FastaError,
    >)
        ensures
            match r {
                Ok(f) => parse_record(input_str@, seq_type, alphabet) == Ok::<
                    FastaSeqModel,
                    FastaError,
                >(f@) && f.wf(),
                Err(e) => parse_record(input_str@, seq_type, alphabet) == Err::<
                    FastaSeqModel,
                    FastaError,
                >(e),
            },
    {
        let v = chars_of(input_str);
        let n = v.len();
        let ghost s = v@;
        let gt = match find_char(&v, 0, n, '>') {
            Some(i) => i,
            None => {
                assert(s.subrange(0, n as int) =~= s);
                return Err(FastaError::MalformedInput);
            },
        };
        assert(s.subrange(0, n as int) =~= s);
        proof {
            lemma_first_index(s, '>', gt as int);
        }
        let start = gt + 1;
        let ghost rest = s.subrange(start as int, n as int);
        let nl = match find_char(&v, start, n, '\n') {
            Some(i) => i,
            None => {
                return Err(FastaError::MalformedInput);
            },
        };
        proof {
            lemma_first_index(rest, '\n', nl - start);
        }
        let ghost header = rest.subrange(0, nl - start);
        let ghost body = rest.subrange(nl - start + 1, rest.len() as int);
        assert(header =~= s.subrange(start as int, nl as int));
        assert(body =~= s.subrange(nl + 1, n as int));
        let (id_lo, id_hi, desc_lo, desc_hi) = match find_char(&v, start, nl, ' ') {
            Some(sp) => {
                proof {
                    lemma_first_index(header, ' ', sp - start);
                    assert(header.subrange(0, sp - start) =~= s.subrange(
                        start as int,
                        sp as int,
                    ));
                    assert(header.subrange(sp - start + 1, header.len() as int)
                        =~= s.subrange(sp + 1, nl as int));
                }
                (start, sp, sp + 1, nl)
            },
            None => {
                assert(s.subrange(nl as int, nl as int) =~= Seq::<char>::empty());
                (start, nl, nl, nl)
            },
        };
        let (a, b) = trim_bounds(&v, id_lo, id_hi);
        if a == b {
            return Err(FastaError::MissingIdentifier);
        }
        let id = string_of_range(&v, a, b);
        let (c, d) = trim_bounds(&v, desc_lo, desc_hi);
        let desc = if c == d {
            None
        } else {
            Some(string_of_range(&v, c, d))
        };
        let residues = without_newlines(&v, nl + 1, n);
        let (e, f) = trim_bounds(&residues, 0, residues.len());
        assert(residues@.subrange(0, residues@.len() as int) =~= residues@);
        let sequence = string_of_range(&residues, e, f);
        assert(!is_white_space(id@[0]));
        Ok(FastaSeq::new(sequence, alphabet, seq_type, id, desc))
    }

    /// The sequence type and alphabet that the residues of `input_str` point to.
    pub fn infer_type_and_alphabet(input_str: &str) -> (r: (SeqType, Alphabet))
        ensures
            r == classify(input_str@),
    {
        let v = chars_of(input_str);
        if contains_uracil(&v) {
            (SeqType::RNA, Alphabet::IUPACNucleicAcid)
        } else if contains_protein_symbol(&v) {
            (SeqType::Protein, Alphabet::IUPACProtein)
        } else {
            (SeqType::default(), Alphabet::default())
        }
    }

    /// Reads the record in `input_str`, with the type and alphabet classified
    /// from its residues.
    pub fn from_string_inferred(input_str: &str) -> (r: Result<Self, FastaError>)
        ensures
            match r {
                Ok(f) => parse_record_inferred(input_str@) == Ok::<FastaSeqModel, FastaError>(f@)
                    && f.wf(),
                Err(e) => parse_record_inferred(input_str@) == Err::<FastaSeqModel, FastaError>(e),
            },
    {
        let fasta_seq = match Self::from_string(
            input_str,
            SeqType::DNA,
            Alphabet::IUPACNucleicAcid,
        ) {
            Ok(f) => f,
            Err(e) => {
                return Err(e);
            },
        };
        let (seq_type, alphabet) = Self::infer_type_and_alphabet(fasta_seq.sequence());
        let desc = match fasta_seq.desc() {
            Some(d) => Some(d.to_owned()),
            None => None,
        };
        let r = Self::new(
            fasta_seq.sequence().to_owned(),
            alphabet,
            seq_type,
            fasta_seq.id().to_owned(),
            desc,
        );
        assert(r@ == FastaSeqModel { seq_type, alphabet, ..fasta_seq@ });
        Ok(r)
    }

    /// The residues.
    pub fn sequence(&self) -> (r: &str)
        ensures
            r@ == self@.sequence,
    {
        self.sequence.as_str()
    }

    /// The identifier.
    pub fn id(&self) -> (r: &str)
        ensures
            r@ == self@.id,
    {
        self.id.as_str()
    }

    /// The description, if the header has one.
    pub fn desc(&self) -> (r: Option<&str>)
        ensures
            match r {
                Some(d) => self@.desc == Some(d@),
                None => self@.desc is None,
            },
    {
        match &self.desc {
            Some(d) => Some(d.as_str()),
            None => None,
        }
    }

    /// The symbol alphabet.
    pub fn alphabet(&self) -> (r: Alphabet)
        ensures
            r == self@.alphabet,
    {
        self.alphabet
    }

    /// The sequence type.
    pub fn seq_type(&self) -> (r: SeqType)
        ensures
            r == self@.seq_type,
    {
        self.seq_type
    }

    /// The number of characters of the sequence.
    pub fn len(&self) -> (r: usize)
        ensures
            r == self@.sequence.len(),
    {
        self.sequence.as_str().unicode_len()
    }
}

} // verus!
