use pdb_records::{Date, Entry};

#[test]
fn create_header() {
    let line =
        "HEADER    CELL CYCLE                              30-JAN-12   4AGL              ";
    let result = Entry::Header(
        "CELL CYCLE".to_string(),
        Date { year: 2012, month: 1, day: 30 },
        "4AGL".to_string(),
    );
    assert_eq!(result, Entry::from_str(line).unwrap());
}

#[test]
fn create_title() {
    let line =
        "TITLE     STRUCTURE OF THE P53 CORE DOMAIN MUTANT Y220C BOUND TO THE STABILIZING";
    let result = Entry::Title(
        1,
        "STRUCTURE OF THE P53 CORE DOMAIN MUTANT Y220C BOUND TO THE STABILIZING".to_string(),
    );
    assert_eq!(result, Entry::from_str(line).unwrap());
}

#[test]
fn create_title_continuation() {
    let line = "TITLE    2 SMALL MOLECULE PHIKAN784";
    let result = Entry::Title(2, "SMALL MOLECULE PHIKAN784".to_string());
    assert_eq!(result, Entry::from_str(line).unwrap());
}

#[test]
fn create_seqres_full() {
    let line =
        "SEQRES   2 A  219  TYR GLY PHE ARG LEU GLY PHE LEU HIS SER GLY THR ALA          ";
    let result = Entry::Seqres(
        2,
        Some('A'),
        219,
        vec![
            "TYR".to_string(),
            "GLY".to_string(),
            "PHE".to_string(),
            "ARG".to_string(),
            "LEU".to_string(),
            "GLY".to_string(),
            "PHE".to_string(),
            "LEU".to_string(),
            "HIS".to_string(),
            "SER".to_string(),
            "GLY".to_string(),
            "THR".to_string(),
            "ALA".to_string(),
        ],
    );
    assert_eq!(result, Entry::from_str(line).unwrap());
}

#[test]
fn create_seqres_half() {
    let line =
        "SEQRES  17 B  219  GLY SER THR LYS ARG ALA LEU PRO ASN ASN THR                  ";
    let result = Entry::Seqres(
        17,
        Some('B'),
        219,
        vec![
            "GLY".to_string(),
            "SER".to_string(),
            "THR".to_string(),
            "LYS".to_string(),
            "ARG".to_string(),
            "ALA".to_string(),
            "LEU".to_string(),
            "PRO".to_string(),
            "ASN".to_string(),
            "ASN".to_string(),
            "THR".to_string(),
        ],
    );
    assert_eq!(result, Entry::from_str(line).unwrap());
}

#[test]
fn create_seqres_one_chain() {
    let line =
        "SEQRES  17    219  GLY SER THR LYS ARG ALA LEU PRO ASN ASN THR                  ";
    let result = Entry::Seqres(
        17,
        None,
        219,
        vec![
            "GLY".to_string(),
            "SER".to_string(),
            "THR".to_string(),
            "LYS".to_string(),
            "ARG".to_string(),
            "ALA".to_string(),
            "LEU".to_string(),
            "PRO".to_string(),
            "ASN".to_string(),
            "ASN".to_string(),
            "THR".to_string(),
        ],
    );
    assert_eq!(result, Entry::from_str(line).unwrap());
}

#[test]
fn create_atom() {
    let line =
        "ATOM     13  CG2 VAL A  97     114.726  77.558 -32.731  1.00 20.45           C  ";
    let result = Entry::Atom(
        13,
        "CG2".to_string(),
        None,
        "VAL".to_string(),
        Some('A'),
        97,
        None,
        "114.726".to_string(),
        "77.558".to_string(),
        "-32.731".to_string(),
        "1.00".to_string(),
        "20.45".to_string(),
        "C".to_string(),
        0,
    );
    let decoded = Entry::from_str(line).unwrap();
    assert_eq!(result, decoded);
    match decoded {
        Entry::Atom(_, _, _, _, _, _, _, x, y, z, occupancy, temperature, _, _) => {
            assert_eq!(x.parse::<f32>().unwrap(), 114.726);
            assert_eq!(y.parse::<f32>().unwrap(), 77.558);
            assert_eq!(z.parse::<f32>().unwrap(), -32.731);
            assert_eq!(occupancy.parse::<f32>().unwrap(), 1.00);
            assert_eq!(temperature.parse::<f32>().unwrap(), 20.45);
        }
        _ => panic!("not an atom"),
    }
}

#[test]
fn create_master() {
    let line = "MASTER      526    0    4    5   22    0    6    6 3738    2   38   34";
    let result = Entry::Master(526, 0, 4, 5, 22, 0, 6, 6, 3738, 2, 38, 34);
    assert_eq!(result, Entry::from_str(line).unwrap());
}

#[test]
fn create_model() {
    let line =
        "MODEL        1                                                                  ";
    let result = Entry::Model(1);
    assert_eq!(result, Entry::from_str(line).unwrap());
}

#[test]
fn create_endmodel() {
    let line = "ENDMDL  1                                          ";
    let result = Entry::EndModel;
    assert_eq!(result, Entry::from_str(line).unwrap());
}
