//! The line-by-line reader of the topology text format.
//!
//! A file is a series of sections, each opened by a header line:
//!  * `MAIN`: `nb_func comb_rule [ljscale [qqscale]]`
//!  * `ATOMTYPES`: `type element mass v w`
//!  * `MOL`: `name nbexc` opens a new molecule template
//!  * `ATOMS`: `index type name resnum resname charge`
//!  * `BONDS`: one interaction line, kept as its words joined by single
//!    spaces
//!  * `EXCLPAIRS`: `atom excluded...` for the last template
//!  * `SYSTEM`: `name count`, the number of replicas of a template
//! Lines before any header belong to `MAIN`; empty lines are skipped.
use vstd::prelude::*;

use crate::text::{
    index_value, is_real, is_real_numeral, join_words, joined, parse_index, split_fields, words_of,
};
use crate::topology::{
    atom_appended, exclusions_appended, molecule_appended, sorted, type_table, Topology,
};

verus! {

/// The section of a topology file that a data line belongs to.
#[derive(PartialEq, Eq, Structural, Debug, Clone, Copy)]
pub enum Section {
    Main,
    AtomTypes,
    Molecule,
    Atoms,
    Bonds,
    ExclPairs,
    System,
}

/// Why a topology line was refused.
#[derive(PartialEq, Eq, Structural, Debug, Clone, Copy)]
pub enum ParseError {
    /// The line has fewer fields than its section needs.
    MissingField,
    /// A field that must be a non-negative integer, or a real numeral, is
    /// not one.
    BadNumber,
    /// The line belongs to a template, and none has been opened.
    NoMolecule,
    /// An atom names a type that no `ATOMTYPES` line defined.
    UndefinedAtomType,
    /// The running atom count would no longer fit in a machine word.
    TooManyAtoms,
    /// An exclusion names an atom that the last template does not have.
    BadAtom,
}

pub open spec fn starts_with(line: Seq<char>, prefix: Seq<char>) -> bool {
    prefix.len() <= line.len() && line.subrange(0, prefix.len() as int) == prefix
}

fn has_prefix(line: &str, prefix: &str) -> (r: bool)
    ensures
        r == starts_with(line@, prefix@),
{
    let n = prefix.unicode_len();
    if n > line.unicode_len() {
        return false;
    }
    let mut i: usize = 0;
    while i < n
        invariant
            n == prefix@.len(),
            n <= line@.len(),
            i <= n,
            forall|k: int| 0 <= k < i ==> line@[k] == prefix@[k],
        decreases n - i,
    {
        if line.get_char(i) != prefix.get_char(i) {
            assert(line@.subrange(0, n as int)[i as int] != prefix@[i as int]);
            return false;
        }
        i = i + 1;
    }
    assert(line@.subrange(0, n as int) =~= prefix@);
    true
}

/// The section that a header line opens, if the line is one.
pub open spec fn header_of(line: Seq<char>) -> Option<Section> {
    if starts_with(line, "MAIN"@) {
        Some(Section::Main)
    } else if starts_with(line, "ATOMTYPES"@) {
        Some(Section::AtomTypes)
    } else if starts_with(line, "MOL"@) {
        Some(Section::Molecule)
    } else if starts_with(line, "ATOMS"@) {
        Some(Section::Atoms)
    } else if starts_with(line, "BONDS"@) {
        Some(Section::Bonds)
    } else if starts_with(line, "EXCLPAIRS"@) {
        Some(Section::ExclPairs)
    } else if starts_with(line, "SYSTEM"@) {
        Some(Section::System)
    } else {
        None
    }
}

pub fn section_header(line: &str) -> (r: Option<Section>)
    ensures
        r == header_of(line@),
{
    if has_prefix(line, "MAIN") {
        Some(Section::Main)
    } else if has_prefix(line, "ATOMTYPES") {
        Some(Section::AtomTypes)
    } else if has_prefix(line, "MOL") {
        Some(Section::Molecule)
    } else if has_prefix(line, "ATOMS") {
        Some(Section::Atoms)
    } else if has_prefix(line, "BONDS") {
        Some(Section::Bonds)
    } else if has_prefix(line, "EXCLPAIRS") {
        Some(Section::ExclPairs)
    } else if has_prefix(line, "SYSTEM") {
        Some(Section::System)
    } else {
        None
    }
}

/// Field `i` of a line, if the line has one.
pub open spec fn field_at(fv: Seq<Seq<char>>, i: int) -> Option<Seq<char>> {
    if i < fv.len() {
        Some(fv[i])
    } else {
        None
    }
}

pub open spec fn text_of(t: Option<String>) -> Option<Seq<char>> {
    match t {
        Some(s) => Some(s@),
        None => None,
    }
}

/// The value of field `i` of a line, which must be a numeral.
pub open spec fn number_at(fv: Seq<Seq<char>>, i: int) -> nat {
    match index_value(fv[i]) {
        Some(v) => v,
        None => 0,
    }
}

/// What a `MAIN` line does.
pub open spec fn main_line(old: Topology, new: Topology, fv: Seq<Seq<char>>) -> bool {
    &&& new.defaults.nb_func@ == fv[0]
    &&& new.defaults.comb_rule@ == fv[1]
    &&& text_of(new.defaults.ljscale) == field_at(fv, 2)
    &&& text_of(new.defaults.qqscale) == field_at(fv, 3)
    &&& new.atomtypes == old.atomtypes
    &&& new.molecules == old.molecules
    &&& new.natoms == old.natoms
}

/// What an `ATOMTYPES` line does.
pub open spec fn atomtype_line(old: Topology, new: Topology, fv: Seq<Seq<char>>) -> bool {
    let p = type_table(new.atomtypes@)[fv[0]];
    &&& type_table(new.atomtypes@) == type_table(old.atomtypes@).insert(fv[0], p)
    &&& p.element == number_at(fv, 1)
    &&& p.mass@ == fv[2]
    &&& p.v@ == fv[3]
    &&& p.w@ == fv[4]
    &&& new.molecules == old.molecules
    &&& new.defaults == old.defaults
    &&& new.natoms == old.natoms
}

/// What a `SYSTEM` line does: the first template of that name gets the count;
/// without one, nothing changes.
pub open spec fn system_line(old: Topology, new: Topology, fv: Seq<Seq<char>>) -> bool {
    let mols = old.molecules@;
    &&& new.atomtypes == old.atomtypes
    &&& new.defaults == old.defaults
    &&& new.natoms == old.natoms
    &&& if forall|m: int| 0 <= m < mols.len() ==> (#[trigger] mols[m]).name@ != fv[0] {
        new.molecules@ == mols
    } else {
        exists|k: int|
            {
                &&& 0 <= k < mols.len()
                &&& mols[k].name@ == fv[0]
                &&& forall|m: int| 0 <= m < k ==> (#[trigger] mols[m]).name@ != fv[0]
                &&& new.molecules@ == mols.update(
                    k,
                    (crate::topology::Molecule { nmols: number_at(fv, 1) as usize, ..mols[k] }),
                )
            }
    }
}

/// The exclusions of an `EXCLPAIRS` line, in the order written.
pub open spec fn exclusion_values(fv: Seq<Seq<char>>) -> Seq<usize> {
    Seq::new((fv.len() - 1) as nat, |q: int| number_at(fv, q + 1) as usize)
}

pub open spec fn numerals_from(fv: Seq<Seq<char>>, start: int) -> bool {
    forall|q: int| start <= q < fv.len() ==> (#[trigger] index_value(fv[q])) is Some
}

/// What a data line with fields `fv`, in section `section`, does to `old`:
/// either `new` and `Ok`, or an error and no change.
pub open spec fn line_effect(
    old: Topology,
    new: Topology,
    section: Section,
    line: Seq<char>,
    fv: Seq<Seq<char>>,
    r: Result<(), ParseError>,
) -> bool {
    let nmol = old.molecules@.len();
    let unchanged = new == old;
    match section {
        Section::Main => if fv.len() < 2 {
            r == Err::<(), ParseError>(ParseError::MissingField) && unchanged
        } else {
            r is Ok && main_line(old, new, fv)
        },
        Section::AtomTypes => if fv.len() < 5 {
            r == Err::<(), ParseError>(ParseError::MissingField) && unchanged
        } else if index_value(fv[1]) is None || number_at(fv, 1) > u32::MAX || !is_real_numeral(fv[2])
            || !is_real_numeral(fv[3]) || !is_real_numeral(fv[4]) {
            r == Err::<(), ParseError>(ParseError::BadNumber) && unchanged
        } else {
            r is Ok && atomtype_line(old, new, fv)
        },
        Section::Molecule => if fv.len() < 2 {
            r == Err::<(), ParseError>(ParseError::MissingField) && unchanged
        } else if index_value(fv[1]) is None {
            r == Err::<(), ParseError>(ParseError::BadNumber) && unchanged
        } else {
            r is Ok && molecule_appended(old, new, fv[0], 0, number_at(fv, 1) as usize)
        },
        Section::Atoms => if nmol == 0 {
            r == Err::<(), ParseError>(ParseError::NoMolecule) && unchanged
        } else if fv.len() < 6 {
            r == Err::<(), ParseError>(ParseError::MissingField) && unchanged
        } else if index_value(fv[3]) is None || !is_real_numeral(fv[5]) {
            r == Err::<(), ParseError>(ParseError::BadNumber) && unchanged
        } else if !type_table(old.atomtypes@).contains_key(fv[1]) {
            r == Err::<(), ParseError>(ParseError::UndefinedAtomType) && unchanged
        } else if old.natoms == usize::MAX {
            r == Err::<(), ParseError>(ParseError::TooManyAtoms) && unchanged
        } else {
            r is Ok && atom_appended(
                old,
                new,
                nmol - 1,
                fv[1],
                fv[2],
                number_at(fv, 3) as usize,
                fv[4],
                fv[5],
            )
        },
        Section::Bonds => if nmol == 0 {
            r == Err::<(), ParseError>(ParseError::NoMolecule) && unchanged
        } else {
            r is Ok && crate::topology::line_appended(old, new, nmol - 1, joined(fv))
        },
        Section::ExclPairs => if nmol == 0 {
            r == Err::<(), ParseError>(ParseError::NoMolecule) && unchanged
        } else if fv.len() == 0 {
            r == Err::<(), ParseError>(ParseError::MissingField) && unchanged
        } else if !numerals_from(fv, 0) {
            r == Err::<(), ParseError>(ParseError::BadNumber) && unchanged
        } else if number_at(fv, 0) >= old.molecules@[nmol - 1].atoms@.len() {
            r == Err::<(), ParseError>(ParseError::BadAtom) && unchanged
        } else {
            r is Ok && exists|s: Seq<usize>|
                {
                    &&& sorted(s)
                    &&& s.to_multiset() == exclusion_values(fv).to_multiset()
                    &&& exclusions_appended(old, new, number_at(fv, 0) as int, s)
                }
        },
        Section::System => if fv.len() < 2 {
            r == Err::<(), ParseError>(ParseError::MissingField) && unchanged
        } else if index_value(fv[1]) is None {
            r == Err::<(), ParseError>(ParseError::BadNumber) && unchanged
        } else {
            r is Ok && system_line(old, new, fv)
        },
    }
}

/// Applies one data line of section `section`, with fields `fields`, to
/// `top`.
pub fn apply_line(top: &mut Topology, section: Section, line: &str, fields: &Vec<String>) -> (r:
    Result<(), ParseError>)
    ensures
        line_effect(
            *old(top),
            *final(top),
            section,
            line@,
            fields@.map_values(|s: String| s@),
            r,
        ),
{
    let ghost fv = fields@.map_values(|s: String| s@);
    assert forall|i: int| 0 <= i < fields@.len() implies #[trigger] fv[i] == fields@[i]@ by {}
    let nf = fields.len();
    let nmol = top.molecules.len();
    match section {
        Section::Main => {
            if nf < 2 {
                return Err(ParseError::MissingField);
            }
            let lj = if nf > 2 {
                Some(fields[2].clone())
            } else {
                None
            };
            let qq = if nf > 3 {
                Some(fields[3].clone())
            } else {
                None
            };
            top.set_defaults(fields[0].as_str(), fields[1].as_str(), lj, qq);
            Ok(())
        },
        Section::AtomTypes => {
            if nf < 5 {
                return Err(ParseError::MissingField);
            }
            if !is_real(fields[2].as_str()) || !is_real(fields[3].as_str()) || !is_real(
                fields[4].as_str(),
            ) {
                return Err(ParseError::BadNumber);
            }
            let element = match parse_index(fields[1].as_str()) {
                Some(e) => {
                    if e > 0xffff_ffffusize {
                        return Err(ParseError::BadNumber);
                    }
                    e as u32
                },
                None => {
                    return Err(ParseError::BadNumber);
                },
            };
            top.add_atomtype(
                fields[0].clone(),
                element,
                fields[2].clone(),
                fields[3].clone(),
                fields[4].clone(),
            );
            Ok(())
        },
        Section::Molecule => {
            if nf < 2 {
                return Err(ParseError::MissingField);
            }
            let nbexc = match parse_index(fields[1].as_str()) {
                Some(n) => n,
                None => {
                    return Err(ParseError::BadNumber);
                },
            };
            top.add_molecule(fields[0].clone(), 0, nbexc);
            Ok(())
        },
        Section::Atoms => {
            if nmol == 0 {
                return Err(ParseError::NoMolecule);
            }
            if nf < 6 {
                return Err(ParseError::MissingField);
            }
            let resnum = match parse_index(fields[3].as_str()) {
                Some(n) => n,
                None => {
                    return Err(ParseError::BadNumber);
                },
            };
            if !is_real(fields[5].as_str()) {
                return Err(ParseError::BadNumber);
            }
            if !top.has_atomtype(fields[1].as_str()) {
                return Err(ParseError::UndefinedAtomType);
            }
            let added = top.add_atom(
                nmol - 1,
                fields[1].as_str(),
                fields[2].as_str(),
                resnum,
                fields[4].as_str(),
                fields[5].clone(),
            );
            match added {
                Ok(()) => Ok(()),
                Err(_) => Err(ParseError::TooManyAtoms),
            }
        },
        Section::Bonds => {
            if nmol == 0 {
                return Err(ParseError::NoMolecule);
            }
            let text = join_words(fields);
            assert(text@ == joined(fv));
            top.add_bonded_interaction(nmol - 1, text.as_str());
            Ok(())
        },
        Section::ExclPairs => {
            if nmol == 0 {
                return Err(ParseError::NoMolecule);
            }
            if nf == 0 {
                return Err(ParseError::MissingField);
            }
            let mut vals: Vec<usize> = Vec::new();
            let mut q: usize = 0;
            while q < nf
                invariant
                    nf == fields@.len(),
                    nf > 0,
                    section == Section::ExclPairs,
                    nmol == old(top).molecules@.len(),
                    nmol > 0,
                    *top == *old(top),
                    fv == fields@.map_values(|s: String| s@),
                    forall|i: int| 0 <= i < fields@.len() ==> #[trigger] fv[i] == fields@[i]@,
                    q <= nf,
                    vals@.len() == q,
                    forall|k: int| 0 <= k < q ==> #[trigger] index_value(fv[k]) == Some(vals@[k] as nat),
                decreases nf - q,
            {
                match parse_index(fields[q].as_str()) {
                    Some(v) => {
                        vals.push(v);
                    },
                    None => {
                        assert(index_value(fv[q as int]) is None);
                        return Err(ParseError::BadNumber);
                    },
                }
                q = q + 1;
            }
            assert(numerals_from(fv, 0));
            assert forall|k: int| 0 <= k < nf implies number_at(fv, k) == #[trigger] vals@[k] by {
                assert(index_value(fv[k]) == Some(vals@[k] as nat));
            }
            let i = vals[0];
            if i >= top.molecules[nmol - 1].atoms.len() {
                return Err(ParseError::BadAtom);
            }
            let mut excl: Vec<usize> = Vec::new();
            q = 1;
            while q < nf
                invariant
                    nf == vals@.len(),
                    1 <= q <= nf,
                    excl@ == vals@.subrange(1, q as int),
                decreases nf - q,
            {
                excl.push(vals[q]);
                assert(excl@ =~= vals@.subrange(1, q + 1));
                q = q + 1;
            }
            assert(excl@ =~= exclusion_values(fv));
            top.add_exclpairs(i, excl);
            Ok(())
        },
        Section::System => {
            if nf < 2 {
                return Err(ParseError::MissingField);
            }
            let count = match parse_index(fields[1].as_str()) {
                Some(n) => n,
                None => {
                    return Err(ParseError::BadNumber);
                },
            };
            let ghost mols = top.molecules@;
            let mut k: usize = 0;
            while k < nmol
                invariant
                    mols == top.molecules@,
                    *top == *old(top),
                    nmol == mols.len(),
                    nf == fields@.len(),
                    nf >= 2,
                    fv == fields@.map_values(|s: String| s@),
                    forall|i: int| 0 <= i < fields@.len() ==> #[trigger] fv[i] == fields@[i]@,
                    number_at(fv, 1) == count,
                    index_value(fv[1]) is Some,
                    section == Section::System,
                    k <= nmol,
                    forall|m: int| 0 <= m < k ==> (#[trigger] mols[m]).name@ != fv[0],
                decreases nmol - k,
            {
                if crate::text::same_text(top.molecules[k].name.as_str(), fields[0].as_str()) {
                    assert(mols[k as int].name@ == fv[0]);
                    top.molecules[k].nmols = count;
                    assert(top.molecules@ =~= mols.update(
                        k as int,
                        (crate::topology::Molecule { nmols: count, ..mols[k as int] }),
                    ));
                    assert(system_line(*old(top), *top, fv));
                    return Ok(());
                }
                k = k + 1;
            }
            Ok(())
        },
    }
}

/// A topology being read line by line, and the section the reader is in.
pub struct TopologyReader {
    pub top: Topology,
    pub section: Section,
}

impl TopologyReader {
    pub fn new() -> (r: TopologyReader)
        ensures
            r.section == Section::Main,
            r.top.atomtypes@.len() == 0,
            r.top.molecules@.len() == 0,
            r.top.natoms == 0,
            r.top.defaults.nb_func@.len() == 0,
            r.top.defaults.comb_rule@.len() == 0,
            r.top.defaults.ljscale is None,
            r.top.defaults.qqscale is None,
    {
        TopologyReader { top: Topology::new(), section: Section::Main }
    }

    /// Takes one line: an empty line is skipped, a header line opens its
    /// section, and any other line is data of the current section.
    pub fn feed(&mut self, line: &str) -> (r: Result<(), ParseError>)
        ensures
            line@.len() == 0 ==> r is Ok && *final(self) == *old(self),
            line@.len() > 0 && header_of(line@) is Some ==> {
                &&& r is Ok
                &&& Some(final(self).section) == header_of(line@)
                &&& final(self).top == old(self).top
            },
            line@.len() > 0 && header_of(line@) is None ==> {
                &&& final(self).section == old(self).section
                &&& line_effect(
                    old(self).top,
                    final(self).top,
                    old(self).section,
                    line@,
                    words_of(line@),
                    r,
                )
            },
    {
        if line.unicode_len() == 0 {
            return Ok(());
        }
        match section_header(line) {
            Some(s) => {
                self.section = s;
                Ok(())
            },
            None => {
                let fields = split_fields(line);
                apply_line(&mut self.top, self.section, line, &fields)
            },
        }
    }
}

} // verus!
