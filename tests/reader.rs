use dynamo::ffield::Forces;
use dynamo::reader::{section_header, ParseError, Section, TopologyReader};

const TEXT: &[&str] = &[
    "MAIN",
    "lj geom 0.5 0.8333",
    "",
    "ATOMTYPES",
    "c 6 12.011 0.4 0.3",
    "h 1 1.008 0.1 0.2",
    "MOL",
    "ethyne 3",
    "ATOMS",
    "1 h H1 1 ETH 0.2",
    "2 c C1 1 ETH -0.2",
    "3 c C2 1 ETH -0.2",
    "4 h H2 1 ETH 0.2",
    "BONDS",
    "bond_harm 1 2 0.106 300000",
    "angle_harm 1 2 3 180 400",
    "lj_pair 1 4",
    "EXCLPAIRS",
    "1 4 3 2",
    "SYSTEM",
    "ethyne 5",
];

fn read(lines: &[&str]) -> TopologyReader {
    let mut r = TopologyReader::new();
    for l in lines {
        r.feed(l).unwrap();
    }
    r
}

#[test]
fn headers() {
    assert_eq!(section_header("MAIN"), Some(Section::Main));
    assert_eq!(section_header("ATOMTYPES"), Some(Section::AtomTypes));
    assert_eq!(section_header("MOL"), Some(Section::Molecule));
    assert_eq!(section_header("ATOMS"), Some(Section::Atoms));
    assert_eq!(section_header("BONDS extra"), Some(Section::Bonds));
    assert_eq!(section_header("EXCLPAIRS"), Some(Section::ExclPairs));
    assert_eq!(section_header("SYSTEM"), Some(Section::System));
    assert_eq!(section_header(" MAIN"), None);
    assert_eq!(section_header("MAI"), None);
}

#[test]
fn reads_a_topology() {
    let r = read(TEXT);
    let top = &r.top;
    assert_eq!(r.section, Section::System);
    assert_eq!(top.defaults.nb_func, "lj");
    assert_eq!(top.defaults.comb_rule, "geom");
    assert_eq!(top.defaults.ljscale.as_deref(), Some("0.5"));
    assert_eq!(top.defaults.qqscale.as_deref(), Some("0.8333"));
    assert_eq!(top.molecules.len(), 1);
    let mol = &top.molecules[0];
    assert_eq!(mol.name, "ethyne");
    assert_eq!(mol.nbexc, 3);
    assert_eq!(mol.nmols, 5);
    assert_eq!(mol.atoms.len(), 4);
    assert_eq!(mol.atoms[1].mass, "12.011");
    assert_eq!(mol.atoms[3].charge, "0.2");
    assert_eq!(mol.atoms[1].excluded, vec![2, 3, 4]);
    assert_eq!(mol.bonded_interactions.len(), 3);
    assert_eq!(top.count_atoms(), Some(20));

    let ff = Forces::new(top);
    assert_eq!(ff.bonds.len(), 5);
    assert_eq!(ff.angles.len(), 5);
    assert_eq!(ff.pairs.len(), 5);
    assert_eq!(ff.pairs[4].atoms().clone(), vec![16, 19]);
    assert_eq!(
        ff.pairs[4].params,
        vec!["0.1".to_string(), "0.2".to_string(), "0.1".to_string(), "0.2".to_string()]
    );
}

#[test]
fn interaction_lines_are_stored_as_single_spaced_words() {
    let mut r = read(&TEXT[..16]);
    r.feed("  bond_harm  1 2\t0.1   5 ").unwrap();
    assert_eq!(r.top.molecules[0].bonded_interactions[2], "bond_harm 1 2 0.1 5");
    assert_eq!(r.top.molecules[0].bonded_interactions[0], "bond_harm 1 2 0.106 300000");
}

#[test]
fn real_valued_fields_must_be_numerals() {
    let mut r = read(&TEXT[..13]);
    r.feed("ATOMTYPES").unwrap();
    assert_eq!(r.feed("n 7 heavy 0.1 0.2"), Err(ParseError::BadNumber));
    assert_eq!(r.feed("n 7 14 0.1 w"), Err(ParseError::BadNumber));
    r.feed("ATOMS").unwrap();
    assert_eq!(r.feed("5 c C3 1 ETH neutral"), Err(ParseError::BadNumber));
    assert_eq!(r.top.molecules[0].atoms.len(), 4);
}

#[test]
fn scale_factors_are_optional() {
    let r = read(&["lj LB"]);
    assert_eq!(r.top.defaults.comb_rule, "LB");
    assert_eq!(r.top.defaults.ljscale, None);
    assert_eq!(r.top.defaults.qqscale, None);
}

#[test]
fn system_line_for_an_unknown_template_changes_nothing() {
    let mut r = read(&TEXT[..TEXT.len() - 1]);
    r.feed("propyne 7").unwrap();
    assert_eq!(r.top.molecules[0].nmols, 0);
}

#[test]
fn refused_lines() {
    let mut r = TopologyReader::new();
    assert_eq!(r.feed("lj"), Err(ParseError::MissingField));
    r.feed("ATOMS").unwrap();
    assert_eq!(r.feed("1 c C 1 R 0"), Err(ParseError::NoMolecule));
    r.feed("BONDS").unwrap();
    assert_eq!(r.feed("bond_harm 1 2 1 1"), Err(ParseError::NoMolecule));
    r.feed("ATOMTYPES").unwrap();
    assert_eq!(r.feed("c x 12 0 0"), Err(ParseError::BadNumber));
    assert_eq!(r.feed("c 4294967296 12 0 0"), Err(ParseError::BadNumber));
    assert_eq!(r.feed("c 6 12 0"), Err(ParseError::MissingField));
    r.feed("c 6 12 0 0").unwrap();
    r.feed("MOL").unwrap();
    assert_eq!(r.feed("m -1"), Err(ParseError::BadNumber));
    r.feed("m 3").unwrap();
    r.feed("ATOMS").unwrap();
    assert_eq!(r.feed("1 n N 1 R 0"), Err(ParseError::UndefinedAtomType));
    assert_eq!(r.feed("1 c C one R 0"), Err(ParseError::BadNumber));
    r.feed("1 c C 1 R 0").unwrap();
    r.feed("EXCLPAIRS").unwrap();
    assert_eq!(r.feed("1 x"), Err(ParseError::BadNumber));
    assert_eq!(r.feed("1 0"), Err(ParseError::BadAtom));
    assert_eq!(r.feed("   "), Err(ParseError::MissingField));
    r.feed("SYSTEM").unwrap();
    assert_eq!(r.feed("m"), Err(ParseError::MissingField));
    assert_eq!(r.feed("m many"), Err(ParseError::BadNumber));
    assert_eq!(r.top.molecules[0].nmols, 0);
    assert_eq!(r.top.molecules[0].atoms.len(), 1);
}
