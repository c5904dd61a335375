use dynamo::topology::{sorted_indices, Topology};

fn small() -> Topology {
    let mut top = Topology::new();
    top.add_atomtype("o".to_string(), 8, "15.999".to_string(), "0.6".to_string(), "0.3".to_string());
    top.add_atomtype("h".to_string(), 1, "1.008".to_string(), "0.0".to_string(), "0.0".to_string());
    top.add_molecule("water".to_string(), 3, 2);
    top.add_atom(0, "o", "OW", 1, "SOL", "-0.8".to_string()).unwrap();
    top.add_atom(0, "h", "HW1", 1, "SOL", "0.4".to_string()).unwrap();
    top.add_atom(0, "h", "HW2", 1, "SOL", "0.4".to_string()).unwrap();
    top.add_molecule("ion".to_string(), 2, 0);
    top
}

#[test]
fn atoms_take_their_type_parameters() {
    let top = small();
    let ow = &top.molecules[0].atoms[0];
    assert_eq!(ow.index, 0);
    assert_eq!(ow.element, 8);
    assert_eq!(ow.mass, "15.999");
    assert_eq!(ow.charge, "-0.8");
    assert_eq!(ow.v, "0.6");
    assert_eq!(top.molecules[0].atoms[2].index, 2);
    assert_eq!(top.molecules[1].index, 1);
}

#[test]
fn a_later_type_definition_replaces_an_earlier_one() {
    let mut top = small();
    top.add_atomtype("h".to_string(), 1, "2.014".to_string(), "0.1".to_string(), "0.2".to_string());
    top.add_atom(1, "h", "D", 2, "ION", "1".to_string()).unwrap();
    let d = &top.molecules[1].atoms[0];
    assert_eq!(d.mass, "2.014");
    assert_eq!(d.w, "0.2");
    assert_eq!(d.index, 3);
}

#[test]
fn atom_type_lookup() {
    let mut top = small();
    assert!(top.has_atomtype("o"));
    assert!(top.has_atomtype("h"));
    assert!(!top.has_atomtype("na"));
    top.add_atomtype("na".to_string(), 11, "22.99".to_string(), "0.1".to_string(), "0.2".to_string());
    assert!(top.has_atomtype("na"));
}

#[test]
fn atoms_are_replicated_template_by_template() {
    let mut top = small();
    top.add_atom(1, "o", "O", 2, "ION", "0".to_string()).unwrap();
    assert_eq!(top.count_atoms(), Some(3 * 3 + 2));
    let atoms = top.get_atoms();
    let names: Vec<&str> = atoms.iter().map(|a| a.name.as_str()).collect();
    assert_eq!(
        names,
        vec!["OW", "HW1", "HW2", "OW", "HW1", "HW2", "OW", "HW1", "HW2", "O", "O"]
    );
    assert!(Topology::new().get_atoms().is_empty());
}

#[test]
fn exclusions_are_kept_in_ascending_order() {
    let mut top = small();
    top.add_atom(1, "o", "O", 2, "ION", "0".to_string()).unwrap();
    top.add_atom(1, "h", "H", 2, "ION", "0".to_string()).unwrap();
    top.add_exclpairs(0, vec![5, 1, 3, 1]);
    top.add_exclpairs(0, vec![2]);
    assert_eq!(top.molecules[1].atoms[0].excluded, vec![1, 1, 3, 5, 2]);
    assert!(top.molecules[1].atoms[1].excluded.is_empty());
    assert!(top.molecules[0].atoms[0].excluded.is_empty());
}

#[test]
fn sorting_indices() {
    assert_eq!(sorted_indices(&vec![3, 1, 2, 1]), vec![1, 1, 2, 3]);
    assert_eq!(sorted_indices(&vec![]), Vec::<usize>::new());
}

#[test]
fn defaults_and_lines() {
    let mut top = small();
    top.set_defaults("lj", "LB", Some("0.5".to_string()), None);
    assert_eq!(top.defaults.comb_rule, "LB");
    assert_eq!(top.defaults.ljscale.as_deref(), Some("0.5"));
    assert_eq!(top.defaults.qqscale, None);
    top.add_bonded_interaction(0, "bond_harm 1 2 0.1 100");
    assert_eq!(top.molecules[0].bonded_interactions, vec!["bond_harm 1 2 0.1 100".to_string()]);
    assert!(top.molecules[1].bonded_interactions.is_empty());
}
