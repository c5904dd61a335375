//! The static description of a system: atom types, molecule templates and
//! the bonded-interaction lines of each template.
//!
//! Real-valued quantities (masses, charges, van der Waals parameters, scale
//! factors) are kept as the text written in the topology. They are read as
//! numbers where the force field is evaluated.
use vstd::prelude::*;

verus! {

/// Parameters shared by every atom of one atom type.
pub struct AtomTypeParams {
    pub element: u32,
    pub mass: String,
    pub v: String,
    pub w: String,
}

/// One entry of the atom-type table: a type name and its parameters.
pub struct AtomTypeEntry {
    pub name: String,
    pub params: AtomTypeParams,
}

/// One atom of a molecule template.
pub struct Atom {
    pub index: usize,
    pub resname: String,
    pub resnum: usize,
    pub atomtype: String,
    pub name: String,
    pub element: u32,
    pub mass: String,
    pub charge: String,
    pub v: String,
    pub w: String,
    pub excluded: Vec<usize>,
}

/// `b` holds the same values as `a`.
pub open spec fn same_atom(a: Atom, b: Atom) -> bool {
    &&& b.index == a.index
    &&& b.resname == a.resname
    &&& b.resnum == a.resnum
    &&& b.atomtype == a.atomtype
    &&& b.name == a.name
    &&& b.element == a.element
    &&& b.mass == a.mass
    &&& b.charge == a.charge
    &&& b.v == a.v
    &&& b.w == a.w
    &&& b.excluded@ == a.excluded@
}

impl Atom {
    /// A copy of the atom.
    pub fn copy(&self) -> (r: Atom)
        ensures
            same_atom(*self, r),
    {
        Atom {
            index: self.index,
            resname: self.resname.clone(),
            resnum: self.resnum,
            atomtype: self.atomtype.clone(),
            name: self.name.clone(),
            element: self.element,
            mass: self.mass.clone(),
            charge: self.charge.clone(),
            v: self.v.clone(),
            w: self.w.clone(),
            excluded: self.excluded.clone(),
        }
    }

    pub fn new(
        index: usize,
        atomtype: String,
        name: String,
        resnum: usize,
        resname: String,
        element: u32,
        mass: String,
        charge: String,
        v: String,
        w: String,
    ) -> (r: Atom)
        ensures
            r.index == index,
            r.atomtype == atomtype,
            r.name == name,
            r.resnum == resnum,
            r.resname == resname,
            r.element == element,
            r.mass == mass,
            r.charge == charge,
            r.v == v,
            r.w == w,
            r.excluded@ == Seq::<usize>::empty(),
    {
        Atom {
            index,
            resnum,
            resname,
            atomtype,
            name,
            element,
            mass,
            charge,
            v,
            w,
            excluded: Vec::new(),
        }
    }
}

/// A molecule template: its atoms, its bonded-interaction lines, and how many
/// copies of it the system holds.
pub struct Molecule {
    pub index: usize,
    pub name: String,
    pub nmols: usize,
    pub nbexc: usize,
    pub bonded_interactions: Vec<String>,
    pub atoms: Vec<Atom>,
}

impl Molecule {
    /// The bonded-interaction lines, as text.
    pub open spec fn lines(&self) -> Seq<Seq<char>> {
        self.bonded_interactions@.map_values(|s: String| s@)
    }

    pub fn new(index: usize, name: String, nmols: usize, nbexc: usize) -> (r: Molecule)
        ensures
            r.index == index,
            r.name == name,
            r.nmols == nmols,
            r.nbexc == nbexc,
            r.atoms@ == Seq::<Atom>::empty(),
            r.bonded_interactions@ == Seq::<String>::empty(),
    {
        Molecule { index, name, nmols, nbexc, atoms: Vec::new(), bonded_interactions: Vec::new() }
    }

    pub fn add_bonded_interaction(&mut self, interaction: &str)
        ensures
            final(self).lines() == old(self).lines().push(interaction@),
            final(self).index == old(self).index,
            final(self).name == old(self).name,
            final(self).nmols == old(self).nmols,
            final(self).nbexc == old(self).nbexc,
            final(self).atoms == old(self).atoms,
    {
        let line = interaction.to_owned();
        self.bonded_interactions.push(line);
        assert(self.lines() =~= old(self).lines().push(interaction@));
    }
}

/// Global settings of a topology: the nonbonded function, the name of the
/// combination rule, and the optional scale factors of pair terms.
pub struct Defaults {
    pub nb_func: String,
    pub comb_rule: String,
    pub ljscale: Option<String>,
    pub qqscale: Option<String>,
}

/// Atom types, molecule templates and global settings.
pub struct Topology {
    pub atomtypes: Vec<AtomTypeEntry>,
    pub molecules: Vec<Molecule>,
    /// Number of template atoms added so far; the next atom gets this index.
    pub natoms: usize,
    pub defaults: Defaults,
}

/// Index of the first atom of molecule template `m` in the flat atom array:
/// every replica of every earlier template comes before it.
pub open spec fn base_offset(mols: Seq<Molecule>, m: nat) -> nat
    decreases m,
{
    if m == 0 {
        0
    } else {
        base_offset(mols, (m - 1) as nat) + (mols[m - 1].nmols as nat) * mols[m - 1].atoms@.len()
    }
}

/// Number of atoms in the system: all replicas of all templates.
pub open spec fn system_atoms(mols: Seq<Molecule>) -> nat {
    base_offset(mols, mols.len())
}

/// `q` copies of `s`, one after the other.
pub open spec fn repeated(s: Seq<Atom>, q: nat) -> Seq<Atom>
    decreases q,
{
    if q == 0 {
        Seq::empty()
    } else {
        repeated(s, (q - 1) as nat) + s
    }
}

/// The flat atom array of the first `m` templates: every replica of each.
pub open spec fn system_atom_list(mols: Seq<Molecule>, m: nat) -> Seq<Atom>
    decreases m,
{
    if m == 0 {
        Seq::empty()
    } else {
        system_atom_list(mols, (m - 1) as nat) + repeated(mols[m - 1].atoms@, mols[m - 1].nmols as nat)
    }
}

proof fn lemma_repeated_len(s: Seq<Atom>, q: nat)
    ensures
        repeated(s, q).len() == q * s.len(),
    decreases q,
{
    if q > 0 {
        let p = (q - 1) as nat;
        lemma_repeated_len(s, p);
        assert(repeated(s, q).len() == repeated(s, p).len() + s.len());
        assert(q * s.len() == p * s.len() + s.len()) by (nonlinear_arith)
            requires
                p + 1 == q,
        ;
    } else {
        assert(q * s.len() == 0) by (nonlinear_arith)
            requires
                q == 0,
        ;
    }
}

/// The flat atom array of the first `m` templates has `base_offset(mols, m)`
/// entries: every resolved atom index of those templates addresses it.
pub proof fn lemma_atom_list_len(mols: Seq<Molecule>, m: nat)
    ensures
        system_atom_list(mols, m).len() == base_offset(mols, m),
    decreases m,
{
    if m > 0 {
        lemma_atom_list_len(mols, (m - 1) as nat);
        lemma_repeated_len(mols[m - 1].atoms@, mols[m - 1].nmols as nat);
    }
}

/// Offsets grow with the template index.
pub proof fn lemma_base_offset_monotone(mols: Seq<Molecule>, a: nat, b: nat)
    requires
        a <= b,
    ensures
        base_offset(mols, a) <= base_offset(mols, b),
    decreases b,
{
    if a < b {
        lemma_base_offset_monotone(mols, a, (b - 1) as nat);
    }
}

/// The atom-type table as a map from type name to parameters: a later entry
/// of a name replaces an earlier one.
pub open spec fn type_table(s: Seq<AtomTypeEntry>) -> Map<Seq<char>, AtomTypeParams>
    decreases s.len(),
{
    if s.len() == 0 {
        Map::empty()
    } else {
        type_table(s.drop_last()).insert(s.last().name@, s.last().params)
    }
}

proof fn lemma_type_table_suffix(s: Seq<AtomTypeEntry>, k: nat, name: Seq<char>)
    requires
        k <= s.len(),
        forall|q: int| k <= q < s.len() ==> (#[trigger] s[q]).name@ != name,
    ensures
        type_table(s).contains_key(name) == type_table(s.take(k as int)).contains_key(name),
        type_table(s).contains_key(name) ==> type_table(s)[name] == type_table(s.take(k as int))[name],
    decreases s.len(),
{
    if s.len() == k {
        assert(s.take(k as int) =~= s);
    } else {
        let t = s.drop_last();
        assert(t.take(k as int) =~= s.take(k as int));
        assert forall|q: int| k <= q < t.len() implies (#[trigger] t[q]).name@ != name by {
            assert(t[q] == s[q]);
        }
        lemma_type_table_suffix(t, k, name);
    }
}

/// Why a topology edit was refused.
#[derive(PartialEq, Eq, Structural, Debug, Clone, Copy)]
pub enum TopologyError {
    /// The running atom count would no longer fit in a machine word.
    TooManyAtoms,
}

/// `new` differs from `old` at most in molecule template `moli`.
pub open spec fn others_kept(old: Topology, new: Topology, moli: int) -> bool {
    &&& new.molecules@.len() == old.molecules@.len()
    &&& forall|m: int|
        0 <= m < old.molecules@.len() && m != moli ==> new.molecules@[m] == old.molecules@[m]
    &&& new.atomtypes == old.atomtypes
    &&& new.defaults == old.defaults
}

/// `new` is `old` with `line` appended to the interaction lines of template
/// `moli`.
pub open spec fn line_appended(old: Topology, new: Topology, moli: int, line: Seq<char>) -> bool {
    let a = old.molecules@[moli];
    let b = new.molecules@[moli];
    &&& others_kept(old, new, moli)
    &&& new.natoms == old.natoms
    &&& b.lines() == a.lines().push(line)
    &&& b.index == a.index
    &&& b.name == a.name
    &&& b.nmols == a.nmols
    &&& b.nbexc == a.nbexc
    &&& b.atoms == a.atoms
}

/// `new` is `old` with an atom appended to template `moli`: it takes the next
/// atom index, and the element, mass and van der Waals parameters of its type.
pub open spec fn atom_appended(
    old: Topology,
    new: Topology,
    moli: int,
    atomtype: Seq<char>,
    name: Seq<char>,
    resnum: usize,
    resname: Seq<char>,
    charge: Seq<char>,
) -> bool {
    let p = type_table(old.atomtypes@)[atomtype];
    let a = old.molecules@[moli];
    let b = new.molecules@[moli];
    let atom = b.atoms@.last();
    &&& others_kept(old, new, moli)
    &&& new.natoms == old.natoms + 1
    &&& b.atoms@ == a.atoms@.push(atom)
    &&& b.bonded_interactions == a.bonded_interactions
    &&& b.index == a.index
    &&& b.name == a.name
    &&& b.nmols == a.nmols
    &&& b.nbexc == a.nbexc
    &&& atom.index == old.natoms
    &&& atom.atomtype@ == atomtype
    &&& atom.name@ == name
    &&& atom.resnum == resnum
    &&& atom.resname@ == resname
    &&& atom.element == p.element
    &&& atom.mass == p.mass
    &&& atom.charge@ == charge
    &&& atom.v == p.v
    &&& atom.w == p.w
    &&& atom.excluded@ == Seq::<usize>::empty()
}

/// `new` is `old` with an empty template appended, numbered by its position.
pub open spec fn molecule_appended(
    old: Topology,
    new: Topology,
    name: Seq<char>,
    nmols: usize,
    nbexc: usize,
) -> bool {
    let b = new.molecules@.last();
    &&& new.molecules@.len() == old.molecules@.len() + 1
    &&& new.molecules@.drop_last() == old.molecules@
    &&& b.index == old.molecules@.len()
    &&& b.name@ == name
    &&& b.nmols == nmols
    &&& b.nbexc == nbexc
    &&& b.atoms@ == Seq::<Atom>::empty()
    &&& b.bonded_interactions@ == Seq::<String>::empty()
    &&& new.atomtypes == old.atomtypes
    &&& new.defaults == old.defaults
    &&& new.natoms == old.natoms
}

/// Ascending order.
pub open spec fn sorted(s: Seq<usize>) -> bool {
    forall|a: int, b: int| 0 <= a < b < s.len() ==> s[a] <= s[b]
}

/// The same indices in ascending order.
pub fn sorted_indices(v: &Vec<usize>) -> (r: Vec<usize>)
    ensures
        sorted(r@),
        r@.to_multiset() == v@.to_multiset(),
{
    let mut r: Vec<usize> = Vec::new();
    let mut k: usize = 0;
    assert(v@.take(0) =~= r@);
    while k < v.len()
        invariant
            k <= v@.len(),
            sorted(r@),
            r@.to_multiset() == v@.take(k as int).to_multiset(),
        decreases v@.len() - k,
    {
        let x = v[k];
        let mut i: usize = 0;
        while i < r.len() && r[i] <= x
            invariant
                i <= r@.len(),
                forall|a: int| 0 <= a < i ==> r@[a] <= x,
            decreases r@.len() - i,
        {
            i = i + 1;
        }
        let ghost before = r@;
        r.insert(i, x);
        proof {
            assert(r@.remove(i as int) =~= before);
            assert(r@[i as int] == x);
            r@.to_multiset_ensures();
            v@.take(k as int).to_multiset_ensures();
            assert(r@.contains(x));
            assert(r@.to_multiset().count(x) > 0);
            assert(r@.remove(i as int).to_multiset() =~= r@.to_multiset().remove(r@[i as int]));
            assert(before.to_multiset() =~= r@.to_multiset().remove(x));
            assert(r@.to_multiset() =~= before.to_multiset().insert(x));
            assert(v@.take(k + 1) =~= v@.take(k as int).push(x));
            assert forall|a: int, b: int| 0 <= a < b < r@.len() implies r@[a] <= r@[b] by {
                if a < i && b > i {
                    assert(r@[a] == before[a]);
                    assert(r@[b] == before[b - 1]);
                    if i < before.len() {
                        assert(before[i as int] > x);
                        assert(before[i as int] <= before[b - 1] || b - 1 == i);
                    }
                }
            }
        }
        k = k + 1;
    }
    assert(v@.take(v@.len() as int) =~= v@);
    r
}

/// `new` is `old` with the exclusions `excl` appended to atom `i` of the last
/// template.
pub open spec fn exclusions_appended(old: Topology, new: Topology, i: int, excl: Seq<usize>) -> bool {
    let moli = old.molecules@.len() - 1;
    let a = old.molecules@[moli];
    let b = new.molecules@[moli];
    &&& others_kept(old, new, moli)
    &&& new.natoms == old.natoms
    &&& b.bonded_interactions == a.bonded_interactions
    &&& b.index == a.index
    &&& b.name == a.name
    &&& b.nmols == a.nmols
    &&& b.nbexc == a.nbexc
    &&& b.atoms@.len() == a.atoms@.len()
    &&& forall|q: int| 0 <= q < a.atoms@.len() && q != i ==> b.atoms@[q] == a.atoms@[q]
    &&& (Atom { excluded: b.atoms@[i].excluded, ..a.atoms@[i] }) == b.atoms@[i]
    &&& b.atoms@[i].excluded@ == a.atoms@[i].excluded@ + excl
}

impl Topology {
    pub fn new() -> (r: Topology)
        ensures
            r.atomtypes@ == Seq::<AtomTypeEntry>::empty(),
            r.molecules@ == Seq::<Molecule>::empty(),
            r.natoms == 0,
            r.defaults.nb_func@ == Seq::<char>::empty(),
            r.defaults.comb_rule@ == Seq::<char>::empty(),
            r.defaults.ljscale is None,
            r.defaults.qqscale is None,
    {
        Topology {
            atomtypes: Vec::new(),
            molecules: Vec::new(),
            natoms: 0,
            defaults: Defaults {
                nb_func: String::new(),
                comb_rule: String::new(),
                ljscale: None,
                qqscale: None,
            },
        }
    }

    pub fn set_defaults(
        &mut self,
        nb_func: &str,
        comb_rule: &str,
        ljscale: Option<String>,
        qqscale: Option<String>,
    )
        ensures
            final(self).defaults.nb_func@ == nb_func@,
            final(self).defaults.comb_rule@ == comb_rule@,
            final(self).defaults.ljscale == ljscale,
            final(self).defaults.qqscale == qqscale,
            final(self).atomtypes == old(self).atomtypes,
            final(self).molecules == old(self).molecules,
            final(self).natoms == old(self).natoms,
    {
        self.defaults.nb_func = nb_func.to_owned();
        self.defaults.comb_rule = comb_rule.to_owned();
        self.defaults.ljscale = ljscale;
        self.defaults.qqscale = qqscale;
    }

    /// Number of atoms in the system, or `None` where it does not fit in a
    /// `usize`.
    pub fn count_atoms(&self) -> (r: Option<usize>)
        ensures
            match r {
                Some(n) => n == system_atoms(self.molecules@),
                None => system_atoms(self.molecules@) > usize::MAX,
            },
    {
        let ghost mols = self.molecules@;
        let mut total: usize = 0;
        let mut m: usize = 0;
        while m < self.molecules.len()
            invariant
                mols == self.molecules@,
                m <= mols.len(),
                total == base_offset(mols, m as nat),
            decreases mols.len() - m,
        {
            let mol = &self.molecules[m];
            proof {
                lemma_base_offset_monotone(mols, (m + 1) as nat, mols.len());
            }
            let per = match mol.nmols.checked_mul(mol.atoms.len()) {
                Some(p) => p,
                None => {
                    return None;
                },
            };
            total = match total.checked_add(per) {
                Some(t) => t,
                None => {
                    return None;
                },
            };
            m = m + 1;
        }
        Some(total)
    }

    /// The flat atom array of the system: each template's atoms, once per
    /// replica, template after template.
    pub fn get_atoms(&self) -> (r: Vec<Atom>)
        ensures
            r@.len() == system_atoms(self.molecules@),
            forall|g: int|
                0 <= g < r@.len() ==> same_atom(
                    system_atom_list(self.molecules@, self.molecules@.len())[g],
                    #[trigger] r@[g],
                ),
    {
        let ghost mols = self.molecules@;
        let mut atoms: Vec<Atom> = Vec::new();
        let mut m: usize = 0;
        while m < self.molecules.len()
            invariant
                mols == self.molecules@,
                m <= mols.len(),
                atoms@.len() == system_atom_list(mols, m as nat).len(),
                forall|g: int|
                    0 <= g < atoms@.len() ==> same_atom(
                        system_atom_list(mols, m as nat)[g],
                        #[trigger] atoms@[g],
                    ),
            decreases mols.len() - m,
        {
            let mol = &self.molecules[m];
            let ghost done = system_atom_list(mols, m as nat);
            let mut q: usize = 0;
            while q < mol.nmols
                invariant
                    mols == self.molecules@,
                    m < mols.len(),
                    *mol == mols[m as int],
                    done == system_atom_list(mols, m as nat),
                    q <= mol.nmols,
                    atoms@.len() == (done + repeated(mol.atoms@, q as nat)).len(),
                    forall|g: int|
                        0 <= g < atoms@.len() ==> same_atom(
                            (done + repeated(mol.atoms@, q as nat))[g],
                            #[trigger] atoms@[g],
                        ),
                decreases mol.nmols - q,
            {
                let ghost start = done + repeated(mol.atoms@, q as nat);
                let mut l: usize = 0;
                while l < mol.atoms.len()
                    invariant
                        l <= mol.atoms@.len(),
                        atoms@.len() == (start + mol.atoms@.take(l as int)).len(),
                        forall|g: int|
                            0 <= g < atoms@.len() ==> same_atom(
                                (start + mol.atoms@.take(l as int))[g],
                                #[trigger] atoms@[g],
                            ),
                    decreases mol.atoms@.len() - l,
                {
                    let a = mol.atoms[l].copy();
                    atoms.push(a);
                    assert(start + mol.atoms@.take(l + 1) =~= (start + mol.atoms@.take(
                        l as int,
                    )).push(mol.atoms@[l as int]));
                    l = l + 1;
                }
                assert(mol.atoms@.take(mol.atoms@.len() as int) =~= mol.atoms@);
                assert(done + repeated(mol.atoms@, (q + 1) as nat) =~= start + mol.atoms@);
                q = q + 1;
            }
            m = m + 1;
        }
        proof {
            lemma_atom_list_len(mols, mols.len());
        }
        atoms
    }

    /// Whether the table defines type `name`.
    pub fn has_atomtype(&self, name: &str) -> (r: bool)
        ensures
            r == type_table(self.atomtypes@).contains_key(name@),
    {
        self.find_atomtype(name).is_some()
    }

    /// Position of the entry that defines type `name`, if any.
    fn find_atomtype(&self, name: &str) -> (r: Option<usize>)
        ensures
            match r {
                Some(k) => k < self.atomtypes@.len() && type_table(self.atomtypes@).contains_key(name@)
                    && type_table(self.atomtypes@)[name@] == self.atomtypes@[k as int].params,
                None => !type_table(self.atomtypes@).contains_key(name@),
            },
    {
        let ghost s = self.atomtypes@;
        let mut k: usize = self.atomtypes.len();
        while k > 0
            invariant
                s == self.atomtypes@,
                k <= s.len(),
                forall|q: int| k <= q < s.len() ==> (#[trigger] s[q]).name@ != name@,
            decreases k,
        {
            if crate::text::same_text(self.atomtypes[k - 1].name.as_str(), name) {
                proof {
                    lemma_type_table_suffix(s, k as nat, name@);
                    let t = s.take(k as int);
                    assert(t.drop_last() =~= s.take(k - 1));
                    assert(t.last() == s[k - 1]);
                }
                return Some(k - 1);
            }
            k = k - 1;
        }
        proof {
            lemma_type_table_suffix(s, 0, name@);
            assert(s.take(0) =~= Seq::<AtomTypeEntry>::empty());
        }
        None
    }

    /// Defines atom type `atomtype`, replacing an earlier definition.
    pub fn add_atomtype(&mut self, atomtype: String, element: u32, mass: String, v: String, w: String)
        ensures
            type_table(final(self).atomtypes@) == type_table(old(self).atomtypes@).insert(
                atomtype@,
                (AtomTypeParams { element, mass, v, w }),
            ),
            final(self).molecules == old(self).molecules,
            final(self).defaults == old(self).defaults,
            final(self).natoms == old(self).natoms,
    {
        let params = AtomTypeParams { element, mass, v, w };
        self.atomtypes.push(AtomTypeEntry { name: atomtype, params });
        assert(self.atomtypes@.drop_last() == old(self).atomtypes@);
    }

    /// Appends an atom of type `atomtype`, which the table must define, to
    /// molecule template `moli`. It takes the next atom index and the type's
    /// element, mass and van der Waals parameters.
    pub fn add_atom(
        &mut self,
        moli: usize,
        atomtype: &str,
        name: &str,
        resnum: usize,
        resname: &str,
        charge: String,
    ) -> (r: Result<(), TopologyError>)
        requires
            moli < old(self).molecules@.len(),
            type_table(old(self).atomtypes@).contains_key(atomtype@),
        ensures
            r is Err <==> old(self).natoms == usize::MAX,
            r is Err ==> *final(self) == *old(self),
            r is Ok ==> atom_appended(
                *old(self),
                *final(self),
                moli as int,
                atomtype@,
                name@,
                resnum,
                resname@,
                charge@,
            ),
    {
        let k = self.find_atomtype(atomtype).unwrap();
        if self.natoms == usize::MAX {
            return Err(TopologyError::TooManyAtoms);
        }
        let p = &self.atomtypes[k].params;
        let atom = Atom::new(
            self.natoms,
            atomtype.to_owned(),
            name.to_owned(),
            resnum,
            resname.to_owned(),
            p.element,
            p.mass.clone(),
            charge,
            p.v.clone(),
            p.w.clone(),
        );
        self.molecules[moli].atoms.push(atom);
        self.natoms = self.natoms + 1;
        Ok(())
    }

    /// Adds the atoms of `excl`, in ascending order, to the exclusions of atom
    /// `i` of the last template.
    pub fn add_exclpairs(&mut self, i: usize, excl: Vec<usize>)
        requires
            old(self).molecules@.len() > 0,
            i < old(self).molecules@.last().atoms@.len(),
        ensures
            exists|s: Seq<usize>|
                {
                    &&& sorted(s)
                    &&& s.to_multiset() == excl@.to_multiset()
                    &&& exclusions_appended(*old(self), *final(self), i as int, s)
                },
    {
        let excl = sorted_indices(&excl);
        let moli = self.molecules.len() - 1;
        let mut tail = excl.clone();
        assert(tail@ == excl@) by {
            assert(tail@ =~= excl@);
        }
        self.molecules[moli].atoms[i].excluded.append(&mut tail);
        assert(exclusions_appended(*old(self), *self, i as int, excl@));
    }

    /// Appends an empty molecule template, numbered by its position.
    pub fn add_molecule(&mut self, name: String, nmols: usize, nbexc: usize)
        ensures
            molecule_appended(*old(self), *final(self), name@, nmols, nbexc),
    {
        let index = self.molecules.len();
        let molecule = Molecule::new(index, name, nmols, nbexc);
        self.molecules.push(molecule);
        assert(self.molecules@.drop_last() =~= old(self).molecules@);
    }

    /// Appends an interaction line to molecule template `moli`.
    pub fn add_bonded_interaction(&mut self, moli: usize, interaction: &str)
        requires
            moli < old(self).molecules@.len(),
        ensures
            line_appended(*old(self), *final(self), moli as int, interaction@),
    {
        self.molecules[moli].add_bonded_interaction(interaction);
    }
}

} // verus!
