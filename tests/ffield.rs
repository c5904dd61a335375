use dynamo::ffield::{BuildError, Forces, Kind};
use dynamo::topology::Topology;

#[test]
fn it_builds() {
    let mut top = Topology::new();
    top.defaults.comb_rule = "geom".to_string();
    top.add_atomtype("a".to_string(), 0, "0.0".to_string(), "0.0".to_string(), "0.0".to_string());

    top.add_molecule("one".to_string(), 1, 3);
    top.add_atom(0, "a", "a", 1, "a", "0.0".to_string()).unwrap();
    top.add_atom(0, "a", "a", 1, "a", "0.0".to_string()).unwrap();
    top.add_atom(0, "a", "a", 1, "a", "0.0".to_string()).unwrap();
    top.add_bonded_interaction(0, "bond_harm 1 2 0 0");
    top.add_bonded_interaction(0, "bond_harm 1 3 0 0");
    top.add_bonded_interaction(0, "bond_harm 2 3 0 0");

    top.add_molecule("two".to_string(), 10, 3);
    top.add_atom(1, "a", "a", 1, "a", "0.0".to_string()).unwrap();
    top.add_atom(1, "a", "a", 1, "a", "0.0".to_string()).unwrap();
    top.add_atom(1, "a", "a", 1, "a", "0.0".to_string()).unwrap();
    top.add_bonded_interaction(1, "bond_harm 1 2 0 0");
    top.add_bonded_interaction(1, "bond_harm 1 3 0 0");
    top.add_bonded_interaction(1, "bond_harm 2 3 0 0");

    let ff = Forces::new(&top);
    let atoms = ff.bonds[ff.bonds.len() - 1].atoms();
    // 3 + 3*10 atoms = 33; (2, 3) is (32, 33), indexed at (31, 32)
    assert_eq!(atoms.len(), 2);
    assert_eq!(atoms[0], 31);
    assert_eq!(atoms[1], 32);
}

fn one_molecule(comb_rule: &str, lines: &[&str]) -> Topology {
    let mut top = Topology::new();
    top.set_defaults("lj", comb_rule, None, None);
    top.add_atomtype("c".to_string(), 6, "12.011".to_string(), "0.4".to_string(), "0.3".to_string());
    top.add_atomtype("h".to_string(), 1, "1.008".to_string(), "0.1".to_string(), "0.2".to_string());
    top.add_molecule("m".to_string(), 2, 3);
    for t in ["c", "h", "h", "c"] {
        top.add_atom(0, t, t, 1, "RES", "0.5".to_string()).unwrap();
    }
    for l in lines {
        top.add_bonded_interaction(0, l);
    }
    top
}

#[test]
fn files_each_kind_into_its_list() {
    let top = one_molecule(
        "LB",
        &[
            "bond_harm 1 2 0.109 3000",
            "angle_harm 1 2 3 109.5 300",
            "pdih 1 2 3 4 180 5 2",
            "idih_harm 4 3 2 1 0 40",
            "lj_pair 1 4 0.5 0.25",
            "lj_pair 1 2",
        ],
    );
    assert_eq!(top.count_atoms(), Some(8));
    let ff = Forces::new(&top);
    assert_eq!(ff.bonds.len(), 2);
    assert_eq!(ff.angles.len(), 2);
    assert_eq!(ff.torsions.len(), 4);
    assert_eq!(ff.pairs.len(), 4);
    // Second replica starts at atom 4.
    assert_eq!(ff.bonds[1].atoms().clone(), vec![4, 5]);
    assert_eq!(ff.bonds[0].params, vec!["0.109".to_string(), "3000".to_string()]);
    assert_eq!(ff.angles[0].atoms().clone(), vec![0, 1, 2]);
    assert_eq!(ff.angles[0].params, vec!["109.5".to_string(), "300".to_string()]);
    assert_eq!(ff.torsions[0].kind, Kind::Pdih);
    assert_eq!(ff.torsions[0].params, vec!["180".to_string(), "5".to_string(), "2".to_string()]);
    assert_eq!(ff.torsions[1].kind, Kind::IdihHarm);
    assert_eq!(ff.torsions[1].atoms().clone(), vec![3, 2, 1, 0]);
    assert_eq!(ff.torsions[3].atoms().clone(), vec![7, 6, 5, 4]);
    assert_eq!(ff.pairs[0].kind, Kind::LjPair);
    assert_eq!(ff.pairs[0].params, vec!["0.5".to_string(), "0.25".to_string()]);
    assert_eq!(ff.pairs[1].kind, Kind::LjPairCombined);
    assert_eq!(
        ff.pairs[1].params,
        vec!["0.4".to_string(), "0.3".to_string(), "0.1".to_string(), "0.2".to_string()]
    );
    assert_eq!(ff.pairs[3].atoms().clone(), vec![4, 5]);
}

#[test]
fn unknown_comb_rule_is_refused() {
    let top = one_molecule("arith", &["bond_harm 1 2 0.1 1"]);
    assert_eq!(Forces::check(&top).err(), Some(BuildError::UnknownCombRule));
    let empty = one_molecule("geom", &[]);
    assert_eq!(Forces::check(&empty), Ok(()));
    assert!(Forces::new(&empty).bonds.is_empty());
}

#[test]
fn unknown_keyword_is_refused() {
    let top = one_molecule("geom", &["bond_harm 1 2 0.1 1", "morse 1 2 0.1 1 1"]);
    assert_eq!(Forces::check(&top).err(), Some(BuildError::UnknownInteraction));
}

#[test]
fn short_lines_are_refused() {
    for line in ["bond_harm 1 2 0.1", "angle_harm 1 2 3 90", "pdih 1 2 3 4 0 1", "lj_pair 1", "   "] {
        let top = one_molecule("geom", &[line]);
        assert_eq!(Forces::check(&top).err(), Some(BuildError::MissingField), "{}", line);
    }
}

#[test]
fn bad_atom_fields_are_refused() {
    let top = one_molecule("geom", &["bond_harm 1 x 0.1 1"]);
    assert_eq!(Forces::check(&top).err(), Some(BuildError::BadIndex));
    let top = one_molecule("geom", &["bond_harm 0 2 0.1 1"]);
    assert_eq!(Forces::check(&top).err(), Some(BuildError::IndexOutOfRange));
    let top = one_molecule("geom", &["bond_harm 1 5 0.1 1"]);
    assert_eq!(Forces::check(&top).err(), Some(BuildError::IndexOutOfRange));
    // The numeral error of a later field comes before the range error of an earlier one.
    let top = one_molecule("geom", &["angle_harm 9 2 - 90 1"]);
    assert_eq!(Forces::check(&top).err(), Some(BuildError::BadIndex));
}

#[test]
fn atom_count_overflow_is_refused() {
    let mut top = one_molecule("geom", &[]);
    top.add_molecule("big".to_string(), usize::MAX, 3);
    top.add_atom(1, "c", "c", 1, "R", "0".to_string()).unwrap();
    assert_eq!(top.count_atoms(), None);
    assert_eq!(Forces::check(&top).err(), Some(BuildError::TooManyAtoms));
}

#[test]
fn malformed_parameters_are_refused() {
    let top = one_molecule("geom", &["bond_harm 1 2 0.1 stiff"]);
    assert_eq!(Forces::check(&top).err(), Some(BuildError::BadParameter));
    let top = one_molecule("geom", &["angle_harm 1 2 3 1.0.0 5"]);
    assert_eq!(Forces::check(&top).err(), Some(BuildError::BadParameter));
    // Extra fields after the parameters are ignored.
    let top = one_molecule("geom", &["bond_harm 1 2 0.1 5 ; note"]);
    assert!(Forces::check(&top).is_ok());
}

#[test]
fn combined_pair_parameters_must_be_numerals() {
    let mut top = one_molecule("geom", &["lj_pair 1 2"]);
    top.add_atomtype("x".to_string(), 0, "1".to_string(), "big".to_string(), "0.1".to_string());
    top.add_atom(0, "x", "X", 1, "R", "0".to_string()).unwrap();
    let mut other = one_molecule("geom", &["lj_pair 1 5"]);
    other.add_atomtype("x".to_string(), 0, "1".to_string(), "big".to_string(), "0.1".to_string());
    other.add_atom(0, "x", "X", 1, "R", "0".to_string()).unwrap();
    assert!(Forces::check(&top).is_ok());
    assert_eq!(Forces::check(&other).err(), Some(BuildError::BadParameter));
}

#[test]
fn malformed_scale_factors_are_refused() {
    let mut top = one_molecule("geom", &["bond_harm 1 2 0.1 1"]);
    top.set_defaults("lj", "geom", Some("half".to_string()), None);
    assert_eq!(Forces::check(&top).err(), Some(BuildError::BadParameter));
    top.set_defaults("lj", "geom", Some("0.5".to_string()), Some("1e0".to_string()));
    let ff = Forces::new(&top);
    assert_eq!(ff.ljscale.as_deref(), Some("0.5"));
    assert_eq!(ff.qqscale.as_deref(), Some("1e0"));
    assert_eq!(ff.comb_rule, dynamo::ffield::CombRule::Geom);
}
