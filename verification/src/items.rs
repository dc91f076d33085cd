//! The typed problem representation built by the parser: literals, clauses,
//! formulas, extension sets and instances, together with their mathematical
//! views.

use vstd::prelude::*;

verus! {

/// The polarity of a literal.
#[derive(Debug, Copy, Clone, PartialEq, Eq, Structural)]
pub enum Sign {
    Pos,
    Neg,
}

/// A signed reference to a variable: the variable index and a polarity.
///
/// A literal's variable index is always positive; the constructors below
/// maintain this.
#[derive(Debug, Copy, Clone, PartialEq, Eq, Structural)]
pub struct Lit {
    pub var: u64,
    pub sign: Sign,
}

impl Lit {
    /// Builds a literal from a signed 64-bit value: the magnitude is the
    /// variable index and the sign selects the polarity. Zero encodes no
    /// literal and is excluded.
    pub fn from_i64(val: i64) -> (r: Lit)
        requires
            val != 0,
        ensures
            val > 0 ==> r == (Lit { var: val as u64, sign: Sign::Pos }),
            val < 0 ==> r == (Lit { var: (-(val as int)) as u64, sign: Sign::Neg }),
    {
        if val > 0 {
            Lit { var: val as u64, sign: Sign::Pos }
        } else {
            let mag: i128 = -(val as i128);
            Lit { var: mag as u64, sign: Sign::Neg }
        }
    }

    pub fn var(self) -> (r: u64)
        ensures
            r == self.var,
    {
        self.var
    }

    pub fn sign(self) -> (r: Sign)
        ensures
            r == self.sign,
    {
        self.sign
    }
}

/// A clause: the disjunction of a sequence of literals, kept in source
/// order, duplicates permitted.
#[derive(Debug, PartialEq, Eq)]
pub struct Clause {
    pub lits: Vec<Lit>,
}

impl View for Clause {
    type V = Seq<Lit>;

    open spec fn view(&self) -> Seq<Lit> {
        self.lits@
    }
}

impl Clause {
    pub fn from_vec(lits: Vec<Lit>) -> (r: Clause)
        ensures
            r@ == lits@,
    {
        Clause { lits }
    }

    pub fn len(&self) -> (r: usize)
        ensures
            r == self@.len(),
    {
        self.lits.len()
    }
}

/// The set of optional SAT-format capabilities a problem line enables:
/// the equivalence operator and the exclusive-or operator.
#[derive(Debug, Copy, Clone, PartialEq, Eq, Structural)]
pub struct Extensions {
    pub eq: bool,
    pub xor: bool,
}

impl Extensions {
    /// The empty extension set, enabled by the plain `sat` keyword.
    pub fn none() -> (r: Extensions)
        ensures
            r == (Extensions { eq: false, xor: false }),
    {
        Extensions { eq: false, xor: false }
    }

    pub fn new(eq: bool, xor: bool) -> (r: Extensions)
        ensures
            r == (Extensions { eq, xor }),
    {
        Extensions { eq, xor }
    }
}

/// A formula tree. Each node owns its children exclusively; sub-formula
/// lists keep their source order.
#[derive(Debug, PartialEq, Eq)]
pub enum Formula {
    /// A positive or negative literal.
    Lit(Lit),
    /// A parenthesized sub-formula.
    Paren(Box<Formula>),
    /// The negation of a parenthesized sub-formula.
    Neg(Box<Formula>),
    /// A disjunction, written `+(...)`.
    Or(Vec<Formula>),
    /// A conjunction, written `*(...)`.
    And(Vec<Formula>),
    /// An equivalence, written `=(...)`.
    Eq(Vec<Formula>),
    /// An exclusive-or, written `xor(...)`.
    Xor(Vec<Formula>),
}

/// The mathematical shape of a formula tree, used in specifications.
pub enum SpecFormula {
    Lit(Lit),
    Paren(Box<SpecFormula>),
    Neg(Box<SpecFormula>),
    Or(Seq<SpecFormula>),
    And(Seq<SpecFormula>),
    Eq(Seq<SpecFormula>),
    Xor(Seq<SpecFormula>),
}

/// The view of a formula: the same tree with sequences for child lists.
pub open spec fn fview(f: Formula) -> SpecFormula
    decreases f,
{
    match f {
        Formula::Lit(l) => SpecFormula::Lit(l),
        Formula::Paren(b) => SpecFormula::Paren(Box::new(fview(*b))),
        Formula::Neg(b) => SpecFormula::Neg(Box::new(fview(*b))),
        Formula::Or(fs) => SpecFormula::Or(fviews(fs@)),
        Formula::And(fs) => SpecFormula::And(fviews(fs@)),
        Formula::Eq(fs) => SpecFormula::Eq(fviews(fs@)),
        Formula::Xor(fs) => SpecFormula::Xor(fviews(fs@)),
    }
}

/// The element-wise view of a sequence of formulas.
pub open spec fn fviews(fs: Seq<Formula>) -> Seq<SpecFormula>
    decreases fs,
{
    if fs.len() == 0 {
        Seq::empty()
    } else {
        seq![fview(fs[0])] + fviews(fs.drop_first())
    }
}

impl View for Formula {
    type V = SpecFormula;

    open spec fn view(&self) -> SpecFormula {
        fview(*self)
    }
}

/// Appending one formula to a list appends its view.
pub proof fn lemma_fviews_push(fs: Seq<Formula>, f: Formula)
    ensures
        fviews(fs.push(f)) == fviews(fs).push(fview(f)),
    decreases fs,
{
    if fs.len() == 0 {
        assert(fs.push(f)[0] == f);
        assert(fs.push(f).drop_first() =~= Seq::<Formula>::empty());
        assert(fviews(Seq::<Formula>::empty()) == Seq::<SpecFormula>::empty());
        assert(fviews(fs.push(f)) =~= fviews(fs).push(fview(f)));
    } else {
        assert(fs.push(f)[0] == fs[0]);
        assert(fs.push(f).drop_first() =~= fs.drop_first().push(f));
        lemma_fviews_push(fs.drop_first(), f);
        assert(fviews(fs.push(f)) =~= fviews(fs).push(fview(f)));
    }
}

impl Formula {
    pub fn lit(l: Lit) -> (r: Formula)
        ensures
            r@ == SpecFormula::Lit(l),
    {
        Formula::Lit(l)
    }

    pub fn paren(inner: Formula) -> (r: Formula)
        ensures
            r@ == SpecFormula::Paren(Box::new(inner@)),
    {
        Formula::Paren(Box::new(inner))
    }

    pub fn neg(inner: Formula) -> (r: Formula)
        ensures
            r@ == SpecFormula::Neg(Box::new(inner@)),
    {
        Formula::Neg(Box::new(inner))
    }

    pub fn or(params: Vec<Formula>) -> (r: Formula)
        ensures
            r@ == SpecFormula::Or(fviews(params@)),
    {
        Formula::Or(params)
    }

    pub fn and(params: Vec<Formula>) -> (r: Formula)
        ensures
            r@ == SpecFormula::And(fviews(params@)),
    {
        Formula::And(params)
    }

    pub fn eq(params: Vec<Formula>) -> (r: Formula)
        ensures
            r@ == SpecFormula::Eq(fviews(params@)),
    {
        Formula::Eq(params)
    }

    pub fn xor(params: Vec<Formula>) -> (r: Formula)
        ensures
            r@ == SpecFormula::Xor(fviews(params@)),
    {
        Formula::Xor(params)
    }
}

/// A parsed problem instance.
#[derive(Debug, PartialEq, Eq)]
pub enum Instance {
    /// A conjunctive-normal-form problem: the declared variable count and
    /// the clauses in source order.
    Cnf { num_vars: u64, clauses: Vec<Clause> },
    /// A generalized SAT problem: the declared variable count, the enabled
    /// extensions and the formula.
    Sat { num_vars: u64, extensions: Extensions, formula: Formula },
}

/// The mathematical shape of an instance.
pub enum SpecInstance {
    Cnf { num_vars: u64, clauses: Seq<Seq<Lit>> },
    Sat { num_vars: u64, extensions: Extensions, formula: SpecFormula },
}

/// The element-wise view of a clause list.
pub open spec fn cviews(cs: Seq<Clause>) -> Seq<Seq<Lit>> {
    cs.map_values(|c: Clause| c@)
}

impl View for Instance {
    type V = SpecInstance;

    open spec fn view(&self) -> SpecInstance {
        match *self {
            Instance::Cnf { num_vars, clauses } => SpecInstance::Cnf {
                num_vars,
                clauses: cviews(clauses@),
            },
            Instance::Sat { num_vars, extensions, formula } => SpecInstance::Sat {
                num_vars,
                extensions,
                formula: fview(formula),
            },
        }
    }
}

impl Instance {
    pub fn cnf(num_vars: u64, clauses: Vec<Clause>) -> (r: Instance)
        ensures
            r@ == (SpecInstance::Cnf { num_vars, clauses: cviews(clauses@) }),
    {
        Instance::Cnf { num_vars, clauses }
    }

    pub fn sat(num_vars: u64, extensions: Extensions, formula: Formula) -> (r: Instance)
        ensures
            r@ == (SpecInstance::Sat { num_vars, extensions, formula: formula@ }),
    {
        Instance::Sat { num_vars, extensions, formula }
    }
}

} // verus!
