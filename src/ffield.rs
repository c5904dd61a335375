//! The interaction registry. Each molecule template is replicated, and each of
//! its interaction lines is resolved into an interaction over global atom
//! indices, filed by kind.
use vstd::prelude::*;

use crate::text::{index_value, is_real, is_real_numeral, parse_index, same_text, split_fields, words_of};
use crate::topology::{base_offset, lemma_base_offset_monotone, system_atoms, Atom, Molecule, Topology};

verus! {

/// The interaction kinds that an interaction line can name.
#[derive(PartialEq, Eq, Structural, Debug, Clone, Copy)]
pub enum Kind {
    /// `bond_harm a b r0 k`: harmonic bond stretch.
    BondHarm,
    /// `angle_harm a b c t0 k`: harmonic angle bend, `t0` in degrees.
    AngleHarm,
    /// `pdih a b c d p0 k n`: periodic proper torsion, `p0` in degrees.
    Pdih,
    /// `idih_harm a b c d p0 k`: harmonic improper torsion, `p0` in degrees.
    IdihHarm,
    /// `lj_pair a b v w`: Lennard-Jones pair with its own parameters.
    LjPair,
    /// `lj_pair a b`: Lennard-Jones pair whose parameters come from the two
    /// atoms through the combination rule.
    LjPairCombined,
}

/// How pair parameters are derived from two atoms' own parameters.
#[derive(PartialEq, Eq, Structural, Debug, Clone, Copy)]
pub enum CombRule {
    /// Geometric mean of both parameters.
    Geom,
    /// Arithmetic mean of `v`, geometric mean of `w` (Lorentz-Berthelot).
    LB,
}

/// Why a topology could not be resolved into a force field.
#[derive(PartialEq, Eq, Structural, Debug, Clone, Copy)]
pub enum BuildError {
    /// The combination rule is neither `geom` nor `LB`.
    UnknownCombRule,
    /// An interaction line starts with a keyword that names no kind.
    UnknownInteraction,
    /// An interaction line has fewer fields than its kind needs.
    MissingField,
    /// An atom field of an interaction line is not a non-negative numeral.
    BadIndex,
    /// An atom field is 0 or larger than the molecule's atom count.
    IndexOutOfRange,
    /// The system holds more atoms than a `usize` can count.
    TooManyAtoms,
    /// A parameter or scale factor is not a real numeral.
    BadParameter,
}

/// One resolved interaction: its kind, its atoms as zero-based global
/// indices, and its parameters as text, in the order the line gives them
/// (for a combined pair: `v` and `w` of the first atom, then of the second).
pub struct Interaction {
    pub kind: Kind,
    pub atoms: Vec<usize>,
    pub params: Vec<String>,
}

pub struct InteractionView {
    pub kind: Kind,
    pub atoms: Seq<usize>,
    pub params: Seq<Seq<char>>,
}

impl View for Interaction {
    type V = InteractionView;

    open spec fn view(&self) -> InteractionView {
        InteractionView {
            kind: self.kind,
            atoms: self.atoms@,
            params: self.params@.map_values(|s: String| s@),
        }
    }
}

impl Interaction {
    /// The global indices of the interaction's atoms.
    pub fn atoms(&self) -> (r: &Vec<usize>)
        ensures
            r@ == self.atoms@,
    {
        &self.atoms
    }
}

/// Number of atoms an interaction of kind `k` spans.
pub open spec fn arity(k: Kind) -> nat {
    match k {
        Kind::BondHarm => 2,
        Kind::AngleHarm => 3,
        Kind::Pdih => 4,
        Kind::IdihHarm => 4,
        Kind::LjPair => 2,
        Kind::LjPairCombined => 2,
    }
}

/// Number of parameter fields that follow the atoms on a line of kind `k`.
pub open spec fn param_count(k: Kind) -> nat {
    match k {
        Kind::BondHarm => 2,
        Kind::AngleHarm => 2,
        Kind::Pdih => 3,
        Kind::IdihHarm => 2,
        Kind::LjPair => 2,
        Kind::LjPairCombined => 0,
    }
}

fn kind_arity(k: Kind) -> (r: usize)
    ensures
        r == arity(k),
{
    match k {
        Kind::BondHarm => 2,
        Kind::AngleHarm => 3,
        Kind::Pdih => 4,
        Kind::IdihHarm => 4,
        Kind::LjPair => 2,
        Kind::LjPairCombined => 2,
    }
}

fn kind_param_count(k: Kind) -> (r: usize)
    ensures
        r == param_count(k),
{
    match k {
        Kind::BondHarm => 2,
        Kind::AngleHarm => 2,
        Kind::Pdih => 3,
        Kind::IdihHarm => 2,
        Kind::LjPair => 2,
        Kind::LjPairCombined => 0,
    }
}

/// The kind that an interaction keyword names.
pub open spec fn keyword_kind(w: Seq<char>) -> Option<Kind> {
    if w == "bond_harm"@ {
        Some(Kind::BondHarm)
    } else if w == "angle_harm"@ {
        Some(Kind::AngleHarm)
    } else if w == "pdih"@ {
        Some(Kind::Pdih)
    } else if w == "idih_harm"@ {
        Some(Kind::IdihHarm)
    } else if w == "lj_pair"@ {
        Some(Kind::LjPair)
    } else {
        None
    }
}

pub fn kind_of_keyword(w: &str) -> (r: Option<Kind>)
    ensures
        r == keyword_kind(w@),
{
    if same_text(w, "bond_harm") {
        Some(Kind::BondHarm)
    } else if same_text(w, "angle_harm") {
        Some(Kind::AngleHarm)
    } else if same_text(w, "pdih") {
        Some(Kind::Pdih)
    } else if same_text(w, "idih_harm") {
        Some(Kind::IdihHarm)
    } else if same_text(w, "lj_pair") {
        Some(Kind::LjPair)
    } else {
        None
    }
}

/// The combination rule that a name selects.
pub open spec fn comb_rule_named(name: Seq<char>) -> Option<CombRule> {
    if name == "geom"@ {
        Some(CombRule::Geom)
    } else if name == "LB"@ {
        Some(CombRule::LB)
    } else {
        None
    }
}

pub fn comb_rule_from_name(name: &str) -> (r: Option<CombRule>)
    ensures
        r == comb_rule_named(name@),
{
    if same_text(name, "geom") {
        Some(CombRule::Geom)
    } else if same_text(name, "LB") {
        Some(CombRule::LB)
    } else {
        None
    }
}

/// The kind of a line whose keyword names `k`: a pair line without both of
/// its own parameters takes them from the combination rule.
pub open spec fn line_kind(fields: Seq<Seq<char>>, k: Kind) -> Kind {
    if k == Kind::LjPair && fields.len() < 5 {
        Kind::LjPairCombined
    } else {
        k
    }
}

/// The one-based local atom index in atom field `p` of a line.
pub open spec fn local_at(fields: Seq<Seq<char>>, p: int) -> nat {
    match index_value(fields[1 + p]) {
        Some(v) => v,
        None => 0,
    }
}

pub open spec fn locals_parse(fields: Seq<Seq<char>>, na: nat) -> bool {
    forall|p: int| 0 <= p < na ==> (#[trigger] index_value(fields[1 + p])) is Some
}

pub open spec fn locals_in_range(fields: Seq<Seq<char>>, na: nat, natoms: nat) -> bool {
    forall|p: int| 0 <= p < na ==> 1 <= #[trigger] local_at(fields, p) <= natoms
}

/// The parameters of a combined pair: `v` and `w` of local atom `i`, then of
/// local atom `j` (both one-based).
pub open spec fn combined_params(atoms: Seq<Atom>, i: nat, j: nat) -> Seq<Seq<char>> {
    seq![atoms[i - 1].v@, atoms[i - 1].w@, atoms[j - 1].v@, atoms[j - 1].w@]
}

/// Every parameter is a real numeral.
pub open spec fn all_real(params: Seq<Seq<char>>) -> bool {
    forall|q: int| 0 <= q < params.len() ==> is_real_numeral(#[trigger] params[q])
}

/// A scale factor, if given, is a real numeral.
pub open spec fn scale_ok(t: Option<String>) -> bool {
    match t {
        Some(s) => is_real_numeral(s@),
        None => true,
    }
}

/// What the fields of one interaction line resolve to, for a replica whose
/// first atom has global index `offset`. Errors are looked for in this order:
/// keyword, field count, atom numerals, atom ranges, parameter numerals.
pub open spec fn resolve_fields_spec(fields: Seq<Seq<char>>, atoms: Seq<Atom>, offset: nat) -> Result<
    InteractionView,
    BuildError,
> {
    if fields.len() == 0 {
        Err(BuildError::MissingField)
    } else {
        match keyword_kind(fields[0]) {
            None => Err(BuildError::UnknownInteraction),
            Some(k0) => {
                let k = line_kind(fields, k0);
                let na = arity(k);
                let np = param_count(k);
                if fields.len() < 1 + na + np {
                    Err(BuildError::MissingField)
                } else if !locals_parse(fields, na) {
                    Err(BuildError::BadIndex)
                } else if !locals_in_range(fields, na, atoms.len()) {
                    Err(BuildError::IndexOutOfRange)
                } else {
                    let params = if k == Kind::LjPairCombined {
                        combined_params(atoms, local_at(fields, 0), local_at(fields, 1))
                    } else {
                        fields.subrange(1 + na as int, 1 + na + np as int)
                    };
                    if !all_real(params) {
                        Err(BuildError::BadParameter)
                    } else {
                        Ok(
                            InteractionView {
                                kind: k,
                                atoms: Seq::new(
                                    na,
                                    |p: int| (offset + local_at(fields, p) - 1) as usize,
                                ),
                                params,
                            },
                        )
                    }
                }
            },
        }
    }
}

fn all_real_texts(params: &Vec<String>) -> (r: bool)
    ensures
        r == all_real(params@.map_values(|s: String| s@)),
{
    let ghost pv = params@.map_values(|s: String| s@);
    let mut q: usize = 0;
    while q < params.len()
        invariant
            pv == params@.map_values(|s: String| s@),
            q <= params@.len(),
            forall|j: int| 0 <= j < q ==> is_real_numeral(#[trigger] pv[j]),
        decreases params@.len() - q,
    {
        if !is_real(params[q].as_str()) {
            assert(pv[q as int] == params@[q as int]@);
            return false;
        }
        q = q + 1;
    }
    true
}

/// Every atom index of every interaction is below `n`.
pub open spec fn all_within(s: Seq<InteractionView>, n: nat) -> bool {
    forall|i: int, p: int|
        0 <= i < s.len() && 0 <= p < s[i].atoms.len() ==> #[trigger] s[i].atoms[p] < n
}

/// Resolves the fields of one interaction line of `mol`, for the replica
/// whose first atom has global index `offset`.
pub fn resolve_fields(mol: &Molecule, fields: &Vec<String>, offset: usize) -> (r: Result<
    Interaction,
    BuildError,
>)
    requires
        offset + mol.atoms@.len() <= usize::MAX,
    ensures
        match r {
            Ok(x) => resolve_fields_spec(
                fields@.map_values(|s: String| s@),
                mol.atoms@,
                offset as nat,
            ) == Ok::<InteractionView, BuildError>(x@) && all_within(seq![x@], (offset + mol.atoms@.len()) as nat),
            Err(e) => resolve_fields_spec(fields@.map_values(|s: String| s@), mol.atoms@, offset as nat)
                == Err::<InteractionView, BuildError>(e),
        },
{
    let ghost fv = fields@.map_values(|s: String| s@);
    assert forall|i: int| 0 <= i < fields@.len() implies #[trigger] fv[i] == fields@[i]@ by {}
    let natoms = mol.atoms.len();
    let nf = fields.len();
    if nf == 0 {
        return Err(BuildError::MissingField);
    }
    let k0 = match kind_of_keyword(fields[0].as_str()) {
        Some(k) => k,
        None => {
            return Err(BuildError::UnknownInteraction);
        },
    };
    let k = if k0 == Kind::LjPair && nf < 5 {
        Kind::LjPairCombined
    } else {
        k0
    };
    assert(k == line_kind(fv, k0));
    let na = kind_arity(k);
    let np = kind_param_count(k);
    if nf < 1 + na + np {
        return Err(BuildError::MissingField);
    }
    let mut locals: Vec<usize> = Vec::new();
    let mut p: usize = 0;
    while p < na
        invariant
            fv == fields@.map_values(|s: String| s@),
            nf == fields@.len(),
            keyword_kind(fv[0]) == Some(k0),
            k == line_kind(fv, k0),
            na == arity(k),
            np == param_count(k),
            forall|i: int| 0 <= i < fields@.len() ==> #[trigger] fv[i] == fields@[i]@,
            1 + na + np <= nf,
            p <= na,
            locals@.len() == p,
            forall|q: int| 0 <= q < p ==> #[trigger] index_value(fv[1 + q]) == Some(locals@[q] as nat),
        decreases na - p,
    {
        match parse_index(fields[1 + p].as_str()) {
            Some(v) => {
                locals.push(v);
            },
            None => {
                assert(index_value(fv[1 + p as int]) is None);
                return Err(BuildError::BadIndex);
            },
        }
        p = p + 1;
    }
    assert(locals_parse(fv, na as nat));
    assert forall|q: int| 0 <= q < na implies local_at(fv, q) == #[trigger] locals@[q] by {
        assert(index_value(fv[1 + q]) == Some(locals@[q] as nat));
    }
    p = 0;
    while p < na
        invariant
            p <= na,
            locals@.len() == na,
            natoms == mol.atoms@.len(),
            fv == fields@.map_values(|s: String| s@),
            fv.len() == nf,
            1 + na + np <= nf,
            keyword_kind(fv[0]) == Some(k0),
            k == line_kind(fv, k0),
            na == arity(k),
            np == param_count(k),
            locals_parse(fv, na as nat),
            forall|q: int| 0 <= q < na ==> local_at(fv, q) == #[trigger] locals@[q],
            forall|q: int| 0 <= q < p ==> 1 <= #[trigger] locals@[q] <= natoms,
        decreases na - p,
    {
        if locals[p] < 1 || locals[p] > natoms {
            assert(!locals_in_range(fv, na as nat, natoms as nat)) by {
                assert(local_at(fv, p as int) == locals@[p as int]);
            }
            return Err(BuildError::IndexOutOfRange);
        }
        p = p + 1;
    }
    assert(locals_in_range(fv, na as nat, natoms as nat));
    let mut global: Vec<usize> = Vec::new();
    p = 0;
    while p < na
        invariant
            p <= na,
            locals@.len() == na,
            offset + natoms <= usize::MAX,
            fv == fields@.map_values(|s: String| s@),
            fv.len() == nf,
            1 + na + np <= nf,
            keyword_kind(fv[0]) == Some(k0),
            k == line_kind(fv, k0),
            na == arity(k),
            np == param_count(k),
            natoms == mol.atoms@.len(),
            locals_parse(fv, na as nat),
            locals_in_range(fv, na as nat, natoms as nat),
            forall|q: int| 0 <= q < na ==> local_at(fv, q) == #[trigger] locals@[q],
            forall|q: int| 0 <= q < na ==> 1 <= #[trigger] locals@[q] <= natoms,
            global@ == Seq::new(p as nat, |q: int| (offset + locals@[q] - 1) as usize),
        decreases na - p,
    {
        global.push(offset + locals[p] - 1);
        assert(global@ =~= Seq::new((p + 1) as nat, |q: int| (offset + locals@[q] - 1) as usize));
        p = p + 1;
    }
    assert(global@ =~= Seq::new(na as nat, |q: int| (offset + local_at(fv, q) - 1) as usize));
    let mut params: Vec<String> = Vec::new();
    if k == Kind::LjPairCombined {
        let ai = locals[0] - 1;
        let aj = locals[1] - 1;
        params.push(mol.atoms[ai].v.clone());
        params.push(mol.atoms[ai].w.clone());
        params.push(mol.atoms[aj].v.clone());
        params.push(mol.atoms[aj].w.clone());
        assert(params@.map_values(|s: String| s@) =~= combined_params(
            mol.atoms@,
            local_at(fv, 0),
            local_at(fv, 1),
        ));
    } else {
        let mut q: usize = 0;
        while q < np
            invariant
                nf == fields@.len(),
                forall|i: int| 0 <= i < fields@.len() ==> #[trigger] fv[i] == fields@[i]@,
                locals@.len() == na,
                global@ =~= Seq::new(na as nat, |q: int| (offset + local_at(fv, q) - 1) as usize),
                fv == fields@.map_values(|s: String| s@),
                fv.len() == nf,
                1 + na + np <= nf,
                keyword_kind(fv[0]) == Some(k0),
                k == line_kind(fv, k0),
                na == arity(k),
                np == param_count(k),
                natoms == mol.atoms@.len(),
                locals_parse(fv, na as nat),
                locals_in_range(fv, na as nat, natoms as nat),
                forall|q: int| 0 <= q < na ==> local_at(fv, q) == #[trigger] locals@[q],

                1 + na + np <= nf,
                q <= np,
                params@.map_values(|s: String| s@) == fv.subrange(1 + na as int, 1 + na + q),
            decreases np - q,
        {
            let ghost before = params@;
            params.push(fields[1 + na + q].clone());
            assert(params@.map_values(|s: String| s@) =~= before.map_values(|s: String| s@).push(
                fv[1 + na + q],
            ));
            assert(params@.map_values(|s: String| s@) =~= fv.subrange(1 + na as int, 1 + na + q + 1));
            q = q + 1;
        }
    }
    assert(params@.map_values(|s: String| s@) == (if k == Kind::LjPairCombined {
        combined_params(mol.atoms@, local_at(fv, 0), local_at(fv, 1))
    } else {
        fv.subrange(1 + na as int, 1 + na + np as int)
    }));
    if !all_real_texts(&params) {
        return Err(BuildError::BadParameter);
    }
    let x = Interaction { kind: k, atoms: global, params };
    let ghost expected = InteractionView {
        kind: k,
        atoms: Seq::new(arity(k), |p: int| ((offset as nat) + local_at(fv, p) - 1) as usize),
        params: if k == Kind::LjPairCombined {
            combined_params(mol.atoms@, local_at(fv, 0), local_at(fv, 1))
        } else {
            fv.subrange(1 + arity(k) as int, 1 + arity(k) + param_count(k) as int)
        },
    };
    assert(x@.atoms =~= expected.atoms);
    assert(x@.params =~= expected.params);
    assert(resolve_fields_spec(fv, mol.atoms@, offset as nat) == Ok::<InteractionView, BuildError>(x@));
    assert(all_within(seq![x@], (offset + natoms) as nat)) by {
        assert forall|i: int, j: int|
            0 <= i < 1 && 0 <= j < seq![x@][i].atoms.len() implies #[trigger] seq![x@][i].atoms[j]
            < offset + natoms by {
            assert(seq![x@][i] == x@);
            assert(1 <= locals@[j] <= natoms);
        }
    }
    Ok(x)
}

/// What one interaction line of `mol` resolves to, for the replica whose
/// first atom has global index `offset`.
pub open spec fn resolve_line(mol: Molecule, line: Seq<char>, offset: nat) -> Result<
    InteractionView,
    BuildError,
> {
    resolve_fields_spec(words_of(line), mol.atoms@, offset)
}

/// Resolves one interaction line of `mol` for the replica whose first atom
/// has global index `offset`.
pub fn resolve_interaction(mol: &Molecule, line: &str, offset: usize) -> (r: Result<
    Interaction,
    BuildError,
>)
    requires
        offset + mol.atoms@.len() <= usize::MAX,
    ensures
        match r {
            Ok(x) => resolve_line(*mol, line@, offset as nat) == Ok::<InteractionView, BuildError>(
                x@,
            ) && all_within(seq![x@], (offset + mol.atoms@.len()) as nat),
            Err(e) => resolve_line(*mol, line@, offset as nat) == Err::<InteractionView, BuildError>(
                e,
            ),
        },
{
    let fields = split_fields(line);
    resolve_fields(mol, &fields, offset)
}

/// The interaction lists of a force field, one per group of kinds.
pub struct Lists {
    pub bonds: Seq<InteractionView>,
    pub angles: Seq<InteractionView>,
    pub torsions: Seq<InteractionView>,
    pub pairs: Seq<InteractionView>,
}

pub open spec fn empty_lists() -> Lists {
    Lists { bonds: Seq::empty(), angles: Seq::empty(), torsions: Seq::empty(), pairs: Seq::empty() }
}

/// Appends `x` to the list of its kind: bonds, angles, torsions (proper and
/// improper) or pairs.
pub open spec fn file_into(l: Lists, x: InteractionView) -> Lists {
    match x.kind {
        Kind::BondHarm => Lists { bonds: l.bonds.push(x), ..l },
        Kind::AngleHarm => Lists { angles: l.angles.push(x), ..l },
        Kind::Pdih | Kind::IdihHarm => Lists { torsions: l.torsions.push(x), ..l },
        Kind::LjPair | Kind::LjPairCombined => Lists { pairs: l.pairs.push(x), ..l },
    }
}

/// Files a sequence of resolved lines in order; the first error wins.
pub open spec fn collect(items: Seq<Result<InteractionView, BuildError>>) -> Result<Lists, BuildError>
    decreases items.len(),
{
    if items.len() == 0 {
        Ok(empty_lists())
    } else {
        match collect(items.drop_last()) {
            Err(e) => Err(e),
            Ok(l) => match items.last() {
                Err(e) => Err(e),
                Ok(x) => Ok(file_into(l, x)),
            },
        }
    }
}

/// The first `n` lines of `mol`, resolved for the replica at `offset`.
pub open spec fn line_items(mol: Molecule, offset: nat, n: nat) -> Seq<Result<InteractionView, BuildError>>
    decreases n,
{
    if n == 0 {
        Seq::empty()
    } else {
        line_items(mol, offset, (n - 1) as nat).push(
            resolve_line(mol, mol.lines()[n - 1], offset),
        )
    }
}

/// All lines of the first `r` replicas of `mol`, whose first replica starts
/// at `base`; replica `q` starts at `base + q * (atoms of mol)`.
pub open spec fn replica_items(mol: Molecule, base: nat, r: nat) -> Seq<Result<InteractionView, BuildError>>
    decreases r,
{
    if r == 0 {
        Seq::empty()
    } else {
        replica_items(mol, base, (r - 1) as nat) + line_items(
            mol,
            base + ((r - 1) as nat) * mol.atoms@.len(),
            mol.lines().len(),
        )
    }
}

/// All lines of all replicas of the first `m` templates, in order.
pub open spec fn molecule_items(mols: Seq<Molecule>, m: nat) -> Seq<Result<InteractionView, BuildError>>
    decreases m,
{
    if m == 0 {
        Seq::empty()
    } else {
        molecule_items(mols, (m - 1) as nat) + replica_items(
            mols[m - 1],
            base_offset(mols, (m - 1) as nat),
            mols[m - 1].nmols as nat,
        )
    }
}

/// What a topology resolves to: its combination rule and its interaction
/// lists, or the first error met. The rule is checked first, then the scale
/// factors, then the atom count, then the lines of every replica of every
/// template in order.
pub open spec fn build_spec(top: Topology) -> Result<(CombRule, Lists), BuildError> {
    match comb_rule_named(top.defaults.comb_rule@) {
        None => Err(BuildError::UnknownCombRule),
        Some(rule) => if !scale_ok(top.defaults.ljscale) || !scale_ok(top.defaults.qqscale) {
            Err(BuildError::BadParameter)
        } else if system_atoms(top.molecules@) > usize::MAX {
            Err(BuildError::TooManyAtoms)
        } else {
            match collect(molecule_items(top.molecules@, top.molecules@.len())) {
                Err(e) => Err(e),
                Ok(l) => Ok((rule, l)),
            }
        },
    }
}

/// Number of resolved lines of the first `m` templates: each template's
/// lines, once per replica.
pub open spec fn item_count(mols: Seq<Molecule>, m: nat) -> nat
    decreases m,
{
    if m == 0 {
        0
    } else {
        item_count(mols, (m - 1) as nat) + (mols[m - 1].nmols as nat) * mols[m - 1].lines().len()
    }
}

proof fn lemma_line_items(mol: Molecule, offset: nat, n: nat)
    ensures
        line_items(mol, offset, n).len() == n,
        forall|i: int|
            0 <= i < n ==> #[trigger] line_items(mol, offset, n)[i] == resolve_line(
                mol,
                mol.lines()[i],
                offset,
            ),
    decreases n,
{
    if n > 0 {
        lemma_line_items(mol, offset, (n - 1) as nat);
    }
}

proof fn lemma_replica_items(mol: Molecule, base: nat, r: nat)
    ensures
        replica_items(mol, base, r).len() == r * mol.lines().len(),
        forall|q: int, l: int|
            0 <= q < r && 0 <= l < mol.lines().len() ==> #[trigger] replica_items(mol, base, r)[q
                * mol.lines().len() + l] == resolve_line(
                mol,
                mol.lines()[l],
                (base + q * mol.atoms@.len()) as nat,
            ),
    decreases r,
{
    let nl = mol.lines().len();
    if r == 0 {
        assert(r * nl == 0) by (nonlinear_arith)
            requires
                r == 0,
        ;
    } else {
        let p = (r - 1) as nat;
        lemma_replica_items(mol, base, p);
        lemma_line_items(mol, base + p * mol.atoms@.len(), nl);
        assert(r * nl == p * nl + nl) by (nonlinear_arith)
            requires
                r == p + 1,
        ;
        let prev = replica_items(mol, base, p);
        let last = line_items(mol, base + p * mol.atoms@.len(), nl);
        assert(replica_items(mol, base, r) == prev + last);
        assert forall|q: int, l: int| 0 <= q < r && 0 <= l < nl implies #[trigger] replica_items(
            mol,
            base,
            r,
        )[q * nl + l] == resolve_line(mol, mol.lines()[l], (base + q * mol.atoms@.len()) as nat) by {
            if q < p {
                assert(q * nl + l < p * nl) by (nonlinear_arith)
                    requires
                        q < p,
                        l < nl,
                ;
                assert(replica_items(mol, base, r)[q * nl + l] == prev[q * nl + l]);
            } else {
                assert(q * nl == p * nl);
                assert(replica_items(mol, base, r)[q * nl + l] == last[l]);
            }
        }
    }
}

proof fn lemma_molecule_items(mols: Seq<Molecule>, m: nat)
    requires
        m <= mols.len(),
    ensures
        molecule_items(mols, m).len() == item_count(mols, m),
        forall|k: int, q: int, l: int|
            0 <= k < m && 0 <= q < mols[k].nmols && 0 <= l < mols[k].lines().len()
                ==> #[trigger] molecule_items(mols, m)[item_count(mols, k as nat) + q
                * mols[k].lines().len() + l] == resolve_line(
                mols[k],
                mols[k].lines()[l],
                (base_offset(mols, k as nat) + q * mols[k].atoms@.len()) as nat,
            ),
    decreases m,
{
    if m > 0 {
        let p = (m - 1) as nat;
        lemma_molecule_items(mols, p);
        let mol = mols[p as int];
        let nl = mol.lines().len();
        lemma_replica_items(mol, base_offset(mols, p), mol.nmols as nat);
        let prev = molecule_items(mols, p);
        let last = replica_items(mol, base_offset(mols, p), mol.nmols as nat);
        assert(molecule_items(mols, m) == prev + last);
        assert forall|k: int, q: int, l: int|
            0 <= k < m && 0 <= q < mols[k].nmols && 0 <= l < mols[k].lines().len()
                implies #[trigger] molecule_items(mols, m)[item_count(mols, k as nat) + q
            * mols[k].lines().len() + l] == resolve_line(
            mols[k],
            mols[k].lines()[l],
            (base_offset(mols, k as nat) + q * mols[k].atoms@.len()) as nat,
        ) by {
            let kl = mols[k].lines().len();
            if k < p {
                lemma_item_count_monotone(mols, (k + 1) as nat, p);
                assert(q * kl + l < (mols[k].nmols as nat) * kl) by (nonlinear_arith)
                    requires
                        q < mols[k].nmols,
                        l < kl,
                ;
                assert(molecule_items(mols, m)[item_count(mols, k as nat) + q * kl + l]
                    == prev[item_count(mols, k as nat) + q * kl + l]);
            } else {
                assert(k == p);
                assert(q * kl + l < (mol.nmols as nat) * kl) by (nonlinear_arith)
                    requires
                        q < mol.nmols,
                        l < kl,
                ;
                assert(molecule_items(mols, m)[item_count(mols, k as nat) + q * kl + l]
                    == last[q * kl + l]);
            }
        }
    }
}

proof fn lemma_item_count_monotone(mols: Seq<Molecule>, a: nat, b: nat)
    requires
        a <= b,
    ensures
        item_count(mols, a) <= item_count(mols, b),
    decreases b,
{
    if a < b {
        lemma_item_count_monotone(mols, a, (b - 1) as nat);
    }
}

proof fn lemma_collect_ok(items: Seq<Result<InteractionView, BuildError>>)
    requires
        collect(items) is Ok,
    ensures
        forall|i: int| 0 <= i < items.len() ==> #[trigger] items[i] is Ok,
    decreases items.len(),
{
    if items.len() > 0 {
        lemma_collect_ok(items.drop_last());
        assert forall|i: int| 0 <= i < items.len() implies #[trigger] items[i] is Ok by {
            if i < items.len() - 1 {
                assert(items[i] == items.drop_last()[i]);
            }
        }
    }
}

/// Replication and offsets: line `l` of template `m`, in replica `r`, is
/// resolved at position `item_count(m) + r * (lines of m) + l` of the
/// topology's lines (templates, then replicas, then lines, in order), with
/// the replica's first atom `base_offset(m) + r * (atoms of m)`. Where the
/// topology resolves, that line gives an interaction whose `q`-th atom is
/// that first atom plus the line's `q`-th local index, less one.
pub proof fn lemma_replica_offsets(top: Topology, m: nat, r: nat, l: nat)
    requires
        build_spec(top) is Ok,
        m < top.molecules@.len(),
        r < top.molecules@[m as int].nmols,
        l < top.molecules@[m as int].lines().len(),
    ensures
        ({
            let mols = top.molecules@;
            let mol = mols[m as int];
            let first = base_offset(mols, m) + r * mol.atoms@.len();
            let item = molecule_items(mols, mols.len())[(item_count(mols, m) + r
                * mol.lines().len() + l) as int];
            &&& item == resolve_line(mol, mol.lines()[l as int], first)
            &&& item matches Ok(x) && forall|q: int|
                0 <= q < x.atoms.len() ==> #[trigger] x.atoms[q] == (first + local_at(
                    words_of(mol.lines()[l as int]),
                    q,
                ) - 1) as usize
        }),
{
    let mols = top.molecules@;
    lemma_molecule_items(mols, mols.len());
    lemma_collect_ok(molecule_items(mols, mols.len()));
    let mol = mols[m as int];
    let nl = mol.lines().len();
    lemma_item_count_monotone(mols, (m + 1) as nat, mols.len());
    assert(r * nl + l < (mol.nmols as nat) * nl) by (nonlinear_arith)
        requires
            r < mol.nmols,
            l < nl,
    ;
    let idx = (item_count(mols, m) + r * nl + l) as int;
    assert(molecule_items(mols, mols.len())[idx] is Ok);
}

pub open spec fn lists_within(l: Lists, n: nat) -> bool {
    &&& all_within(l.bonds, n)
    &&& all_within(l.angles, n)
    &&& all_within(l.torsions, n)
    &&& all_within(l.pairs, n)
}

/// The interaction registry of a system: one list per group of kinds, the
/// combination rule, and the optional scale factors of pair terms (as text).
pub struct Forces {
    pub bonds: Vec<Interaction>,
    pub angles: Vec<Interaction>,
    pub torsions: Vec<Interaction>,
    pub pairs: Vec<Interaction>,
    pub comb_rule: CombRule,
    pub ljscale: Option<String>,
    pub qqscale: Option<String>,
}

pub open spec fn views(s: Seq<Interaction>) -> Seq<InteractionView> {
    s.map_values(|x: Interaction| x@)
}

fn scale_text_ok(t: &Option<String>) -> (r: bool)
    ensures
        r == scale_ok(*t),
{
    match t {
        Some(s) => is_real(s.as_str()),
        None => true,
    }
}

fn copy_text(t: &Option<String>) -> (r: Option<String>)
    ensures
        r == *t,
{
    match t {
        Some(s) => Some(s.clone()),
        None => None,
    }
}

impl Forces {
    pub open spec fn lists(&self) -> Lists {
        Lists {
            bonds: views(self.bonds@),
            angles: views(self.angles@),
            torsions: views(self.torsions@),
            pairs: views(self.pairs@),
        }
    }

    fn file(&mut self, x: Interaction)
        ensures
            final(self).lists() == file_into(old(self).lists(), x@),
            final(self).comb_rule == old(self).comb_rule,
            final(self).ljscale == old(self).ljscale,
            final(self).qqscale == old(self).qqscale,
    {
        let ghost xv = x@;
        match x.kind {
            Kind::BondHarm => {
                self.bonds.push(x);
                assert(views(self.bonds@) =~= views(old(self).bonds@).push(xv));
            },
            Kind::AngleHarm => {
                self.angles.push(x);
                assert(views(self.angles@) =~= views(old(self).angles@).push(xv));
            },
            Kind::Pdih | Kind::IdihHarm => {
                self.torsions.push(x);
                assert(views(self.torsions@) =~= views(old(self).torsions@).push(xv));
            },
            Kind::LjPair | Kind::LjPairCombined => {
                self.pairs.push(x);
                assert(views(self.pairs@) =~= views(old(self).pairs@).push(xv));
            },
        }
    }

    /// Whether a topology resolves into a force field; on failure, the first
    /// error met, in the order `build_spec` gives.
    pub fn check(top: &Topology) -> (r: Result<(), BuildError>)
        ensures
            r is Ok <==> build_spec(*top) is Ok,
            r matches Err(e) ==> build_spec(*top) == Err::<(CombRule, Lists), BuildError>(e),
    {
        match Self::resolve(top) {
            Ok(_) => Ok(()),
            Err(e) => Err(e),
        }
    }

    /// Resolves a topology that `check` accepts: selects the combination
    /// rule, then replicates every template and resolves each of its
    /// interaction lines with the replica's atom offset. Every atom index of
    /// the result lies below the system's atom count.
    pub fn new(top: &Topology) -> (ff: Forces)
        requires
            build_spec(*top) is Ok,
        ensures
            build_spec(*top) == Ok::<(CombRule, Lists), BuildError>((ff.comb_rule, ff.lists())),
            ff.ljscale == top.defaults.ljscale,
            ff.qqscale == top.defaults.qqscale,
            lists_within(ff.lists(), system_atoms(top.molecules@)),
    {
        match Self::resolve(top) {
            Ok(ff) => ff,
            // Not reached: `resolve` fails only where `build_spec` does.
            Err(_) => Forces {
                bonds: Vec::new(),
                angles: Vec::new(),
                torsions: Vec::new(),
                pairs: Vec::new(),
                comb_rule: CombRule::Geom,
                ljscale: None,
                qqscale: None,
            },
        }
    }

    fn resolve(top: &Topology) -> (r: Result<Forces, BuildError>)
        ensures
            match r {
                Ok(ff) => {
                    &&& build_spec(*top) == Ok::<(CombRule, Lists), BuildError>(
                        (ff.comb_rule, ff.lists()),
                    )
                    &&& ff.ljscale == top.defaults.ljscale
                    &&& ff.qqscale == top.defaults.qqscale
                    &&& lists_within(ff.lists(), system_atoms(top.molecules@))
                },
                Err(e) => build_spec(*top) == Err::<(CombRule, Lists), BuildError>(e),
            },
    {
        let rule = match comb_rule_from_name(top.defaults.comb_rule.as_str()) {
            Some(c) => c,
            None => {
                return Err(BuildError::UnknownCombRule);
            },
        };
        if !scale_text_ok(&top.defaults.ljscale) || !scale_text_ok(&top.defaults.qqscale) {
            return Err(BuildError::BadParameter);
        }
        let total = match top.count_atoms() {
            Some(n) => n,
            None => {
                return Err(BuildError::TooManyAtoms);
            },
        };
        let mut ff = Forces {
            bonds: Vec::new(),
            angles: Vec::new(),
            torsions: Vec::new(),
            pairs: Vec::new(),
            comb_rule: rule,
            ljscale: copy_text(&top.defaults.ljscale),
            qqscale: copy_text(&top.defaults.qqscale),
        };
        assert(views(ff.bonds@) =~= Seq::empty());
        assert(views(ff.angles@) =~= Seq::empty());
        assert(views(ff.torsions@) =~= Seq::empty());
        assert(views(ff.pairs@) =~= Seq::empty());
        assert(ff.lists() == empty_lists());
        let ghost mols = top.molecules@;
        let ghost mut done: Seq<Result<InteractionView, BuildError>> = Seq::empty();
        let mut failed: Option<BuildError> = None;
        let mut off: usize = 0;
        let mut m: usize = 0;
        while m < top.molecules.len()
            invariant
                mols == top.molecules@,
                m <= mols.len(),
                total == system_atoms(mols),
                off == base_offset(mols, m as nat),
                done == molecule_items(mols, m as nat),
                collect(done) == (match failed {
                    Some(e) => Err(e),
                    None => Ok(ff.lists()),
                }),
                lists_within(ff.lists(), total as nat),
                ff.comb_rule == rule,
                ff.ljscale == top.defaults.ljscale,
                ff.qqscale == top.defaults.qqscale,
            decreases mols.len() - m,
        {
            let mol = &top.molecules[m];
            let natoms = mol.atoms.len();
            let nlines = mol.bonded_interactions.len();
            let ghost base = off as nat;
            proof {
                lemma_base_offset_monotone(mols, (m + 1) as nat, mols.len());
            }
            let mut r: usize = 0;
            while r < mol.nmols
                invariant
                    mols == top.molecules@,
                    m < mols.len(),
                    *mol == mols[m as int],
                    natoms == mol.atoms@.len(),
                    nlines == mol.lines().len(),
                    total == system_atoms(mols),
                    base == base_offset(mols, m as nat),
                    base_offset(mols, (m + 1) as nat) <= total,
                    r <= mol.nmols,
                    off == base + r * natoms,
                    done == molecule_items(mols, m as nat) + replica_items(*mol, base, r as nat),
                    collect(done) == (match failed {
                        Some(e) => Err(e),
                        None => Ok(ff.lists()),
                    }),
                    lists_within(ff.lists(), total as nat),
                    ff.comb_rule == rule,
                    ff.ljscale == top.defaults.ljscale,
                    ff.qqscale == top.defaults.qqscale,
                decreases mol.nmols - r,
            {
                proof {
                    assert((r + 1) * natoms <= mol.nmols * natoms) by (nonlinear_arith)
                        requires
                            r < mol.nmols,
                    ;
                    assert(off + natoms == base + (r + 1) * natoms) by (nonlinear_arith)
                        requires
                            off == base + r * natoms,
                    ;
                }
                let ghost before = done;
                let mut l: usize = 0;
                while l < nlines
                    invariant
                        mols == top.molecules@,
                        m < mols.len(),
                        *mol == mols[m as int],
                        natoms == mol.atoms@.len(),
                        nlines == mol.lines().len(),
                        mol.lines() == mol.bonded_interactions@.map_values(|s: String| s@),
                        off + natoms <= total,
                        l <= nlines,
                        done == before + line_items(*mol, off as nat, l as nat),
                        collect(done) == (match failed {
                            Some(e) => Err(e),
                            None => Ok(ff.lists()),
                        }),
                        lists_within(ff.lists(), total as nat),
                        ff.comb_rule == rule,
                        ff.ljscale == top.defaults.ljscale,
                        ff.qqscale == top.defaults.qqscale,
                    decreases nlines - l,
                {
                    let ghost item = resolve_line(*mol, mol.lines()[l as int], off as nat);
                    if failed.is_none() {
                        let line = mol.bonded_interactions[l].as_str();
                        assert(line@ == mol.lines()[l as int]);
                        match resolve_interaction(mol, line, off) {
                            Ok(x) => {
                                ff.file(x);
                                assert(lists_within(ff.lists(), total as nat)) by {
                                    let xv = seq![x@];
                                    assert(xv[0] == x@);
                                }
                            },
                            Err(e) => {
                                failed = Some(e);
                            },
                        }
                    }
                    proof {
                        let ghost old_done = done;
                        done = done.push(item);
                        assert(done.drop_last() == old_done);
                        assert(done =~= before + line_items(*mol, off as nat, (l + 1) as nat));
                    }
                    l = l + 1;
                }
                proof {
                    assert(done =~= molecule_items(mols, m as nat) + replica_items(
                        *mol,
                        base,
                        (r + 1) as nat,
                    ));
                }
                off = off + natoms;
                r = r + 1;
            }
            proof {
                assert(done =~= molecule_items(mols, (m + 1) as nat));
            }
            m = m + 1;
        }
        assert(done == molecule_items(mols, mols.len()));
        match failed {
            Some(e) => Err(e),
            None => Ok(ff),
        }
    }
}

} // verus!
