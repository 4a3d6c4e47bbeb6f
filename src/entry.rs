//! Decoding of one line into a typed record, chosen by the keyword in its
//! first six columns.
use vstd::prelude::*;
use vstd::string::*;
use crate::date::{date_of, parse_date, Date};
use crate::error::{ErrorView, ParseError};
use crate::number::{all_digits, digits_value, parse_unsigned};
use crate::parsing::{
    bounded_int, charge_value, field, get_charge, get_int, get_opt_char, get_save_slice,
    get_string, int_field, opt_char, safe_slice,
};
use crate::text::{same_chars, split_words, strings_view, words};

verus! {

/// One decoded line. Coordinates, occupancy and temperature factor of an
/// atom are kept as the trimmed text of their columns.
#[derive(Clone, Debug, PartialEq)]
pub enum Entry {
    /// Classification, deposition date, identifier.
    Header(String, Date, String),
    /// Continuation number, title text.
    Title(u8, String),
    /// Continuation number, chain, number of residues, residue names.
    Seqres(u32, Option<char>, u32, Vec<String>),
    /// Serial, atom name, alternate location, residue name, chain, residue
    /// number, insertion code, x, y, z, occupancy, temperature factor,
    /// element, charge.
    Atom(
        u32,
        String,
        Option<char>,
        String,
        Option<char>,
        u32,
        Option<char>,
        String,
        String,
        String,
        String,
        String,
        String,
        i8,
    ),
    /// The twelve bookkeeping counts, in column order.
    Master(u32, u32, u32, u32, u32, u32, u32, u32, u32, u32, u32, u32),
    /// Model serial.
    Model(u32),
    EndModel,
}

/// The contents of an atom record.
pub struct AtomView {
    pub serial: u32,
    pub name: Seq<char>,
    pub alt_loc: Option<char>,
    pub res_name: Seq<char>,
    pub chain: Option<char>,
    pub res_seq: u32,
    pub insertion: Option<char>,
    pub x: Seq<char>,
    pub y: Seq<char>,
    pub z: Seq<char>,
    pub occupancy: Seq<char>,
    pub temperature: Seq<char>,
    pub element: Seq<char>,
    pub charge: i8,
}

/// The contents of an [`Entry`].
pub enum EntryView {
    Header(Seq<char>, Date, Seq<char>),
    Title(u8, Seq<char>),
    Seqres(u32, Option<char>, u32, Seq<Seq<char>>),
    Atom(AtomView),
    Master(Seq<u32>),
    Model(u32),
    EndModel,
}

impl View for Entry {
    type V = EntryView;

    open spec fn view(&self) -> EntryView {
        match self {
            Entry::Header(c, d, i) => EntryView::Header(c@, *d, i@),
            Entry::Title(n, t) => EntryView::Title(*n, t@),
            Entry::Seqres(n, c, k, r) => EntryView::Seqres(*n, *c, *k, strings_view(r@)),
            Entry::Atom(
                serial,
                name,
                alt_loc,
                res_name,
                chain,
                res_seq,
                insertion,
                x,
                y,
                z,
                occupancy,
                temperature,
                element,
                charge,
            ) => EntryView::Atom(
                AtomView {
                    serial: *serial,
                    name: name@,
                    alt_loc: *alt_loc,
                    res_name: res_name@,
                    chain: *chain,
                    res_seq: *res_seq,
                    insertion: *insertion,
                    x: x@,
                    y: y@,
                    z: z@,
                    occupancy: occupancy@,
                    temperature: temperature@,
                    element: element@,
                    charge: *charge,
                },
            ),
            Entry::Master(a, b, c, d, e, f, g, h, i, j, k, l) => EntryView::Master(
                seq![*a, *b, *c, *d, *e, *f, *g, *h, *i, *j, *k, *l],
            ),
            Entry::Model(n) => EntryView::Model(*n),
            Entry::EndModel => EntryView::EndModel,
        }
    }
}

/// The outcome of decoding, seen through the views of record and error.
pub open spec fn outcome(r: Result<Entry, ParseError>) -> Result<EntryView, ErrorView> {
    match r {
        Ok(e) => Ok(e@),
        Err(e) => Err(e@),
    }
}

/// The record keyword: the first six columns.
pub open spec fn keyword(line: Seq<char>) -> Seq<char> {
    line.take(6)
}

/// A HEADER line whose date columns were read as `date`.
pub open spec fn header_record(line: Seq<char>, date: Option<Date>) -> Result<
    EntryView,
    ErrorView,
> {
    match date {
        Some(d) => Ok(EntryView::Header(field(line, 11, 50), d, field(line, 63, 66))),
        None => Err(ErrorView::InvalidDate(field(line, 51, 59))),
    }
}

/// The continuation number of a TITLE line: 1 where its columns are blank.
pub open spec fn title_continuation(line: Seq<char>) -> Result<u8, ErrorView> {
    let t = field(line, 9, 10);
    if t.len() == 0 {
        Ok(1)
    } else {
        match bounded_int(t, 255) {
            Ok(v) => Ok(v as u8),
            Err(e) => Err(e),
        }
    }
}

pub open spec fn title_record(line: Seq<char>) -> Result<EntryView, ErrorView> {
    match title_continuation(line) {
        Ok(c) => Ok(EntryView::Title(c, field(line, 11, 80))),
        Err(e) => Err(e),
    }
}

pub open spec fn seqres_record(line: Seq<char>) -> Result<EntryView, ErrorView> {
    match int_field(line, 8, 10) {
        Err(e) => Err(e),
        Ok(n) => match int_field(line, 14, 17) {
            Err(e) => Err(e),
            Ok(k) => Ok(
                EntryView::Seqres(n, opt_char(line, 12), k, words(safe_slice(line, 18, 70))),
            ),
        },
    }
}

pub open spec fn atom_record(line: Seq<char>) -> Result<EntryView, ErrorView> {
    match int_field(line, 7, 11) {
        Err(e) => Err(e),
        Ok(serial) => match int_field(line, 23, 26) {
            Err(e) => Err(e),
            Ok(res_seq) => match charge_value(line, 79, 80) {
                Err(e) => Err(e),
                Ok(charge) => Ok(
                    EntryView::Atom(
                        AtomView {
                            serial,
                            name: field(line, 13, 16),
                            alt_loc: opt_char(line, 17),
                            res_name: field(line, 18, 20),
                            chain: opt_char(line, 22),
                            res_seq,
                            insertion: opt_char(line, 27),
                            x: field(line, 31, 38),
                            y: field(line, 39, 46),
                            z: field(line, 47, 54),
                            occupancy: field(line, 55, 60),
                            temperature: field(line, 61, 66),
                            element: field(line, 77, 78),
                            charge,
                        },
                    ),
                ),
            },
        },
    }
}

/// The first `k` MASTER counts, each in five columns from column 11 on,
/// or the error of the first that cannot be read.
pub open spec fn master_counts(line: Seq<char>, k: nat) -> Result<Seq<u32>, ErrorView>
    decreases k,
{
    if k == 0 {
        Ok(seq![])
    } else {
        match master_counts(line, (k - 1) as nat) {
            Err(e) => Err(e),
            Ok(s) => match int_field(line, 11 + 5 * (k - 1), 15 + 5 * (k - 1)) {
                Err(e) => Err(e),
                Ok(v) => Ok(s.push(v)),
            },
        }
    }
}

proof fn lemma_master_counts(line: Seq<char>, k: nat, m: nat)
    requires
        k <= m,
    ensures
        master_counts(line, k) is Ok ==> master_counts(line, k)->Ok_0.len() == k,
        master_counts(line, k) is Err ==> master_counts(line, m) == master_counts(line, k),
    decreases m,
{
    if k < m {
        lemma_master_counts(line, k, (m - 1) as nat);
    } else if k > 0 {
        lemma_master_counts(line, (k - 1) as nat, (k - 1) as nat);
    }
}

pub open spec fn master_record(line: Seq<char>) -> Result<EntryView, ErrorView> {
    match master_counts(line, 12) {
        Err(e) => Err(e),
        Ok(s) => Ok(EntryView::Master(s)),
    }
}

pub open spec fn model_record(line: Seq<char>) -> Result<EntryView, ErrorView> {
    match int_field(line, 11, 14) {
        Err(e) => Err(e),
        Ok(n) => Ok(EntryView::Model(n)),
    }
}

/// What a line decodes to.
pub open spec fn decode(line: Seq<char>) -> Result<EntryView, ErrorView> {
    let k = keyword(line);
    if k == "HEADER"@ {
        header_record(line, date_of(field(line, 51, 59)))
    } else if k == "TITLE "@ {
        title_record(line)
    } else if k == "SEQRES"@ {
        seqres_record(line)
    } else if k == "ATOM  "@ {
        atom_record(line)
    } else if k == "MASTER"@ {
        master_record(line)
    } else if k == "MODEL "@ {
        model_record(line)
    } else if k == "ENDMDL"@ {
        Ok(EntryView::EndModel)
    } else {
        Err(ErrorView::UnknownEntry(k))
    }
}

proof fn lemma_keywords_differ()
    ensures
        "HEADER"@ != "TITLE "@,
        "HEADER"@ != "SEQRES"@,
        "HEADER"@ != "ATOM  "@,
        "HEADER"@ != "MASTER"@,
        "HEADER"@ != "MODEL "@,
        "HEADER"@ != "ENDMDL"@,
        "TITLE "@ != "SEQRES"@,
        "TITLE "@ != "ATOM  "@,
        "TITLE "@ != "MASTER"@,
        "TITLE "@ != "MODEL "@,
        "TITLE "@ != "ENDMDL"@,
        "SEQRES"@ != "ATOM  "@,
        "SEQRES"@ != "MASTER"@,
        "SEQRES"@ != "MODEL "@,
        "SEQRES"@ != "ENDMDL"@,
        "ATOM  "@ != "MASTER"@,
        "ATOM  "@ != "MODEL "@,
        "ATOM  "@ != "ENDMDL"@,
        "MASTER"@ != "MODEL "@,
        "MASTER"@ != "ENDMDL"@,
        "MODEL "@ != "ENDMDL"@,
{
    reveal_strlit("HEADER");
    reveal_strlit("TITLE ");
    reveal_strlit("SEQRES");
    reveal_strlit("ATOM  ");
    reveal_strlit("MASTER");
    reveal_strlit("MODEL ");
    reveal_strlit("ENDMDL");
    assert("HEADER"@[0] != "TITLE "@[0]);
    assert("HEADER"@[0] != "SEQRES"@[0]);
    assert("HEADER"@[0] != "ATOM  "@[0]);
    assert("HEADER"@[0] != "MASTER"@[0]);
    assert("HEADER"@[0] != "MODEL "@[0]);
    assert("HEADER"@[0] != "ENDMDL"@[0]);
    assert("TITLE "@[0] != "SEQRES"@[0]);
    assert("TITLE "@[0] != "ATOM  "@[0]);
    assert("TITLE "@[0] != "MASTER"@[0]);
    assert("TITLE "@[0] != "MODEL "@[0]);
    assert("TITLE "@[0] != "ENDMDL"@[0]);
    assert("SEQRES"@[0] != "ATOM  "@[0]);
    assert("SEQRES"@[0] != "MASTER"@[0]);
    assert("SEQRES"@[0] != "MODEL "@[0]);
    assert("SEQRES"@[0] != "ENDMDL"@[0]);
    assert("ATOM  "@[0] != "MASTER"@[0]);
    assert("ATOM  "@[0] != "MODEL "@[0]);
    assert("ATOM  "@[0] != "ENDMDL"@[0]);
    assert("MASTER"@[1] != "MODEL "@[1]);
    assert("MASTER"@[0] != "ENDMDL"@[0]);
    assert("MODEL "@[0] != "ENDMDL"@[0]);
}

/// A HEADER line whose date columns hold a date decodes to the trimmed
/// classification and identifier columns and to the date those columns denote.
pub proof fn header_fields(line: Seq<char>)
    requires
        keyword(line) == "HEADER"@,
        date_of(field(line, 51, 59)) is Some,
    ensures
        decode(line) == Ok::<EntryView, ErrorView>(
            EntryView::Header(
                field(line, 11, 50),
                date_of(field(line, 51, 59))->0,
                field(line, 63, 66),
            ),
        ),
{
}

/// A TITLE line with blank continuation columns continues number 1; one
/// whose continuation columns hold `2` continues number 2.
pub proof fn title_continuation_number(line: Seq<char>)
    requires
        keyword(line) == "TITLE "@,
    ensures
        field(line, 9, 10).len() == 0 ==> decode(line) == Ok::<EntryView, ErrorView>(
            EntryView::Title(1, field(line, 11, 80)),
        ),
        field(line, 9, 10) == seq!['2'] ==> decode(line) == Ok::<EntryView, ErrorView>(
            EntryView::Title(2, field(line, 11, 80)),
        ),
{
    lemma_keywords_differ();
    let t = seq!['2'];
    assert(t.drop_last() =~= Seq::<char>::empty());
    assert(t.last() == '2');
    assert(('2' as u32) == 50);
    assert(digits_value(t.drop_last()) == 0);
    assert(digits_value(t) == 2);
    assert(all_digits(t));
}

/// A SEQRES line whose two counts can be read lists the whitespace-separated
/// words of its residue columns in order, and has no chain exactly where its
/// chain column is blank.
pub proof fn seqres_fields(line: Seq<char>)
    requires
        keyword(line) == "SEQRES"@,
        int_field(line, 8, 10) is Ok,
        int_field(line, 14, 17) is Ok,
    ensures
        decode(line) == Ok::<EntryView, ErrorView>(
            EntryView::Seqres(
                int_field(line, 8, 10)->Ok_0,
                opt_char(line, 12),
                int_field(line, 14, 17)->Ok_0,
                words(safe_slice(line, 18, 70)),
            ),
        ),
        line.len() >= 12 && line[11] == ' ' ==> opt_char(line, 12) is None,
        line.len() >= 12 && line[11] != ' ' ==> opt_char(line, 12) == Some(line[11]),
{
    lemma_keywords_differ();
}

proof fn lemma_master_prefix(line: Seq<char>, v: Seq<u32>, k: nat)
    requires
        k <= v.len() == 12,
        forall|i: int|
            0 <= i < 12 ==> #[trigger] int_field(line, 11 + 5 * i, 15 + 5 * i) == Ok::<
                u32,
                ErrorView,
            >(v[i]),
    ensures
        master_counts(line, k) == Ok::<Seq<u32>, ErrorView>(v.take(k as int)),
    decreases k,
{
    if k > 0 {
        let j = k - 1;
        lemma_master_prefix(line, v, j as nat);
        assert(int_field(line, 11 + 5 * j, 15 + 5 * j) == Ok::<u32, ErrorView>(v[j]));
        assert(v.take(k as int) =~= v.take(j).push(v[j]));
    } else {
        assert(v.take(0) =~= Seq::<u32>::empty());
    }
}

/// A MASTER line whose twelve count fields hold the integers `v` decodes to
/// exactly those twelve values, in column order.
pub proof fn master_values(line: Seq<char>, v: Seq<u32>)
    requires
        keyword(line) == "MASTER"@,
        v.len() == 12,
        forall|i: int|
            0 <= i < 12 ==> #[trigger] int_field(line, 11 + 5 * i, 15 + 5 * i) == Ok::<
                u32,
                ErrorView,
            >(v[i]),
    ensures
        decode(line) == Ok::<EntryView, ErrorView>(EntryView::Master(v)),
{
    lemma_keywords_differ();
    lemma_master_prefix(line, v, 12);
    assert(v.take(12) =~= v);
}

/// A line whose keyword is none of the known ones decodes to an unknown-entry
/// error that holds the keyword.
pub proof fn unknown_keyword(line: Seq<char>)
    requires
        keyword(line) != "HEADER"@,
        keyword(line) != "TITLE "@,
        keyword(line) != "SEQRES"@,
        keyword(line) != "ATOM  "@,
        keyword(line) != "MASTER"@,
        keyword(line) != "MODEL "@,
        keyword(line) != "ENDMDL"@,
    ensures
        decode(line) == Err::<EntryView, ErrorView>(ErrorView::UnknownEntry(keyword(line))),
{
}

impl Entry {
    /// Builds the record of a HEADER line whose date columns were read as `date`.
    pub fn header_from(line: &str, date: Option<Date>) -> (r: Result<Entry, ParseError>)
        ensures
            outcome(r) == header_record(line@, date),
    {
        match date {
            Some(d) => Ok(Entry::Header(get_string(line, 11, 50), d, get_string(line, 63, 66))),
            None => Err(ParseError::InvalidDate(get_string(line, 51, 59))),
        }
    }

    fn title_from(line: &str) -> (r: Result<Entry, ParseError>)
        ensures
            outcome(r) == title_record(line@),
    {
        let text = get_string(line, 9, 10);
        let continuation: u8 = if text.as_str().unicode_len() == 0 {
            1
        } else {
            match parse_unsigned(text.as_str(), 255) {
                Ok(v) => v as u8,
                Err(e) => {
                    return Err(ParseError::InvalidInt(e));
                },
            }
        };
        Ok(Entry::Title(continuation, get_string(line, 11, 80)))
    }

    fn seqres_from(line: &str) -> (r: Result<Entry, ParseError>)
        ensures
            outcome(r) == seqres_record(line@),
    {
        let n = match get_int(line, 8, 10) {
            Ok(v) => v,
            Err(e) => {
                return Err(e);
            },
        };
        let chain = get_opt_char(line, 12);
        let k = match get_int(line, 14, 17) {
            Ok(v) => v,
            Err(e) => {
                return Err(e);
            },
        };
        let names = split_words(get_save_slice(line, 18, 70));
        Ok(Entry::Seqres(n, chain, k, names))
    }

    fn atom_from(line: &str) -> (r: Result<Entry, ParseError>)
        requires
            line@.len() > 0,
        ensures
            outcome(r) == atom_record(line@),
    {
        let serial = match get_int(line, 7, 11) {
            Ok(v) => v,
            Err(e) => {
                return Err(e);
            },
        };
        let res_seq = match get_int(line, 23, 26) {
            Ok(v) => v,
            Err(e) => {
                return Err(e);
            },
        };
        let charge = match get_charge(line, 79, 80) {
            Ok(v) => v,
            Err(e) => {
                return Err(e);
            },
        };
        Ok(
            Entry::Atom(
                serial,
                get_string(line, 13, 16),
                get_opt_char(line, 17),
                get_string(line, 18, 20),
                get_opt_char(line, 22),
                res_seq,
                get_opt_char(line, 27),
                get_string(line, 31, 38),
                get_string(line, 39, 46),
                get_string(line, 47, 54),
                get_string(line, 55, 60),
                get_string(line, 61, 66),
                get_string(line, 77, 78),
                charge,
            ),
        )
    }

    fn master_from(line: &str) -> (r: Result<Entry, ParseError>)
        ensures
            outcome(r) == master_record(line@),
    {
        let mut counts: Vec<u32> = Vec::new();
        let mut k: usize = 0;
        while k < 12
            invariant
                k <= 12,
                master_counts(line@, k as nat) == Ok::<Seq<u32>, ErrorView>(counts@),
            decreases 12 - k,
        {
            let start = 11 + 5 * k;
            match get_int(line, start, start + 4) {
                Ok(v) => {
                    counts.push(v);
                },
                Err(e) => {
                    proof {
                        lemma_master_counts(line@, (k + 1) as nat, 12);
                    }
                    return Err(e);
                },
            }
            k = k + 1;
        }
        proof {
            lemma_master_counts(line@, 12, 12);
            let c = counts@;
            assert(c =~= seq![c[0], c[1], c[2], c[3], c[4], c[5], c[6], c[7], c[8], c[9], c[10], c[11]]);
        }
        Ok(
            Entry::Master(
                counts[0],
                counts[1],
                counts[2],
                counts[3],
                counts[4],
                counts[5],
                counts[6],
                counts[7],
                counts[8],
                counts[9],
                counts[10],
                counts[11],
            ),
        )
    }

    fn model_from(line: &str) -> (r: Result<Entry, ParseError>)
        ensures
            outcome(r) == model_record(line@),
    {
        match get_int(line, 11, 14) {
            Ok(v) => Ok(Entry::Model(v)),
            Err(e) => Err(e),
        }
    }

    /// Decodes one line by the keyword in its first six columns.
    pub fn from_str(line: &str) -> (r: Result<Entry, ParseError>)
        requires
            line@.len() >= 6,
        ensures
            outcome(r) == decode(line@),
    {
        let k = line.substring_char(0, 6);
        if same_chars(k, "HEADER") {
            let date = parse_date(get_string(line, 51, 59).as_str());
            Entry::header_from(line, date)
        } else if same_chars(k, "TITLE ") {
            Entry::title_from(line)
        } else if same_chars(k, "SEQRES") {
            Entry::seqres_from(line)
        } else if same_chars(k, "ATOM  ") {
            Entry::atom_from(line)
        } else if same_chars(k, "MASTER") {
            Entry::master_from(line)
        } else if same_chars(k, "MODEL ") {
            Entry::model_from(line)
        } else if same_chars(k, "ENDMDL") {
            Ok(Entry::EndModel)
        } else {
            Err(ParseError::UnknownEntry(k.to_owned()))
        }
    }
}

} // verus!
