//! Pipelines: the ordered steps of a transformation, the coordinate domain
//! that each step reads and writes, and their inversion.
use vstd::prelude::*;

use crate::definition::{
    chars_of, definition_of, parse_definition, same_from, DefinitionSpec, OpSpec, Operation,
};
use crate::direction::Direction;

verus! {

/// The kind of coordinates a step reads or writes.
#[derive(Clone, Copy, Debug, PartialEq, Eq, Structural)]
pub enum Domain {
    /// Any kind: the step passes coordinates through whatever they are.
    Any,
    /// Longitude and latitude on an ellipsoid.
    Geodetic,
    /// Easting and northing of a map projection.
    Projected,
    /// Earth-centred cartesian coordinates.
    Geocentric,
}

/// Whether coordinates of `written` may be handed to a step that reads `read`.
pub open spec fn fits(written: Domain, read: Domain) -> bool {
    written == Domain::Any || read == Domain::Any || written == read
}

/// One step of a pipeline: what its method reads and writes when run
/// forward, and the direction it is run in.
#[derive(Clone, Copy, Debug, PartialEq, Eq, Structural)]
pub struct Step {
    pub source: Domain,
    pub target: Domain,
    pub direction: Direction,
}

impl Step {
    /// What the step reads, as it is run.
    pub open spec fn input(self) -> Domain {
        if self.direction == Direction::Forward {
            self.source
        } else {
            self.target
        }
    }

    /// What the step writes, as it is run.
    pub open spec fn output(self) -> Domain {
        if self.direction == Direction::Forward {
            self.target
        } else {
            self.source
        }
    }

    /// The same step, run the other way.
    pub open spec fn flipped(self) -> Step {
        Step { direction: self.direction.flipped(), ..self }
    }
}

/// Every step hands its successor coordinates of a kind it reads.
pub open spec fn well_formed(steps: Seq<Step>) -> bool {
    forall|i: int| 0 <= i < steps.len() - 1 ==> #[trigger] fits(steps[i].output(), steps[i + 1].input())
}

/// The inverse of a sequence of steps: the steps in reverse order, each run
/// the other way.
pub open spec fn inverted(steps: Seq<Step>) -> Seq<Step> {
    Seq::new(steps.len(), |i: int| steps[steps.len() - 1 - i].flipped())
}

/// Whether `name` is one of the methods that map longitude and latitude to
/// easting and northing.
pub open spec fn is_projection_name(name: Seq<char>) -> bool {
    name == "tmerc"@ || name == "etmerc"@ || name == "utm"@ || name == "lcc"@ || name
        == "sterea"@ || name == "stere"@ || name == "merc"@ || name == "geos"@ || name
        == "aea"@ || name == "laea"@ || name == "eqc"@
}

/// Whether `name` is one of the methods that pass longitude and latitude through.
pub open spec fn is_geodetic_name(name: Seq<char>) -> bool {
    name == "longlat"@ || name == "latlong"@ || name == "lonlat"@ || name == "latlon"@
}

/// Whether `name` is one of the methods from longitude and latitude to
/// geocentric coordinates.
pub open spec fn is_geocentric_name(name: Seq<char>) -> bool {
    name == "cart"@ || name == "geocent"@
}

/// The step that an operation of a definition stands for. Methods not named
/// here are taken to read and write coordinates of any kind.
pub open spec fn step_of(op: OpSpec) -> Step {
    let (source, target) = match op.method {
        Some(name) => if is_projection_name(name) {
            (Domain::Geodetic, Domain::Projected)
        } else if is_geodetic_name(name) {
            (Domain::Geodetic, Domain::Geodetic)
        } else if is_geocentric_name(name) {
            (Domain::Geodetic, Domain::Geocentric)
        } else if name == "helmert"@ {
            (Domain::Geocentric, Domain::Geocentric)
        } else {
            (Domain::Any, Domain::Any)
        },
        None => (Domain::Any, Domain::Any),
    };
    Step {
        source,
        target,
        direction: if op.inverse {
            Direction::Inverse
        } else {
            Direction::Forward
        },
    }
}

/// Why a definition cannot be built into a pipeline.
#[derive(Clone, Copy, Debug, PartialEq, Eq, Structural)]
pub enum DefinitionError {
    /// The definition has no words.
    Empty,
    /// The step at this index names no method.
    MissingMethod(usize),
    /// The step at this index writes coordinates that the next one cannot read.
    DomainMismatch(usize),
}

/// The operations that a definition runs: its steps, or the global
/// operation alone where it has none.
pub open spec fn operations_of(d: DefinitionSpec) -> Seq<OpSpec> {
    if d.steps.len() == 0 {
        seq![d.global]
    } else {
        d.steps
    }
}

/// The steps that a definition runs, in order: an inverted pipeline runs
/// its steps inverted and in reverse.
pub open spec fn planned_steps(d: DefinitionSpec) -> Seq<Step> {
    let s = operations_of(d).map_values(|o: OpSpec| step_of(o));
    if d.steps.len() > 0 && d.global.inverse {
        inverted(s)
    } else {
        s
    }
}

/// Every step of a pipeline names its method.
pub open spec fn methods_named(d: DefinitionSpec) -> bool {
    d.steps.len() > 0 ==> forall|i: int| 0 <= i < d.steps.len() ==> (#[trigger] d.steps[i]).method is Some
}

/// A checked sequence of steps.
pub struct Pipeline {
    steps: Vec<Step>,
}

impl View for Pipeline {
    type V = Seq<Step>;

    closed spec fn view(&self) -> Seq<Step> {
        self.steps@
    }
}

impl Step {
    /// What the step reads, as it is run.
    pub fn read_domain(&self) -> (r: Domain)
        ensures
            r == self.input(),
    {
        match self.direction {
            Direction::Forward => self.source,
            Direction::Inverse => self.target,
        }
    }

    /// What the step writes, as it is run.
    pub fn write_domain(&self) -> (r: Domain)
        ensures
            r == self.output(),
    {
        match self.direction {
            Direction::Forward => self.target,
            Direction::Inverse => self.source,
        }
    }

    /// The same step, run the other way.
    pub fn flip(&self) -> (r: Step)
        ensures
            r == self.flipped(),
    {
        Step { source: self.source, target: self.target, direction: self.direction.flip() }
    }
}

/// Whether coordinates of `written` may be handed to a step that reads `read`.
pub fn fit(written: Domain, read: Domain) -> (r: bool)
    ensures
        r == fits(written, read),
{
    match (written, read) {
        (Domain::Any, _) => true,
        (_, Domain::Any) => true,
        (Domain::Geodetic, Domain::Geodetic) => true,
        (Domain::Projected, Domain::Projected) => true,
        (Domain::Geocentric, Domain::Geocentric) => true,
        _ => false,
    }
}

/// Whether `a` spells `b`.
fn spells(a: &Vec<char>, b: &str) -> (r: bool)
    ensures
        r == (a@ == b@),
{
    let bc = chars_of(b);
    if a.len() != bc.len() {
        return false;
    }
    let r = same_from(a, 0, &bc);
    proof {
        assert(a@.subrange(0, bc@.len() as int) =~= a@);
    }
    r
}

/// The step that an operation stands for.
pub fn step_for(op: &Operation) -> (r: Step)
    ensures
        r == step_of(op@),
{
    let direction = Direction::from_inverse(op.inverse);
    let (source, target) = match &op.method {
        Some(name) => {
            if spells(name, "tmerc") || spells(name, "etmerc") || spells(name, "utm") || spells(
                name,
                "lcc",
            ) || spells(name, "sterea") || spells(name, "stere") || spells(name, "merc")
                || spells(name, "geos") || spells(name, "aea") || spells(name, "laea") || spells(
                name,
                "eqc",
            ) {
                (Domain::Geodetic, Domain::Projected)
            } else if spells(name, "longlat") || spells(name, "latlong") || spells(name, "lonlat")
                || spells(name, "latlon") {
                (Domain::Geodetic, Domain::Geodetic)
            } else if spells(name, "cart") || spells(name, "geocent") {
                (Domain::Geodetic, Domain::Geocentric)
            } else if spells(name, "helmert") {
                (Domain::Geocentric, Domain::Geocentric)
            } else {
                (Domain::Any, Domain::Any)
            }
        },
        None => (Domain::Any, Domain::Any),
    };
    Step { source, target, direction }
}

/// The inverse of `steps`: reversed, each step run the other way.
pub fn invert_steps(steps: &Vec<Step>) -> (r: Vec<Step>)
    ensures
        r@ == inverted(steps@),
{
    let n = steps.len();
    let mut r: Vec<Step> = Vec::new();
    let mut k: usize = 0;
    while k < n
        invariant
            n == steps@.len(),
            k <= n,
            r@.len() == k,
            forall|j: int| 0 <= j < k ==> #[trigger] r@[j] == steps@[n - 1 - j].flipped(),
        decreases n - k,
    {
        r.push(steps[n - 1 - k].flip());
        k = k + 1;
    }
    assert(r@ =~= inverted(steps@));
    r
}

/// The first index at which a step hands its successor coordinates that it
/// cannot read, if there is one.
pub fn first_mismatch(steps: &Vec<Step>) -> (r: Option<usize>)
    ensures
        match r {
            Some(i) => i + 1 < steps@.len() && !fits(steps@[i as int].output(), steps@[i + 1].input())
                && forall|j: int| 0 <= j < i ==> #[trigger] fits(steps@[j].output(), steps@[j + 1].input()),
            None => well_formed(steps@),
        },
{
    let n = steps.len();
    if n == 0 {
        return None;
    }
    let mut i: usize = 0;
    while i < n - 1
        invariant
            n == steps@.len(),
            n > 0,
            i <= n - 1,
            forall|j: int| 0 <= j < i ==> #[trigger] fits(steps@[j].output(), steps@[j + 1].input()),
        decreases n - 1 - i,
    {
        if !fit(steps[i].write_domain(), steps[i + 1].read_domain()) {
            return Some(i);
        }
        i = i + 1;
    }
    None
}

impl Pipeline {
    /// A pipeline has at least one step, and each hands its successor
    /// coordinates that it can read.
    pub open spec fn valid(&self) -> bool {
        self@.len() > 0 && well_formed(self@)
    }

    /// Builds the pipeline that a definition string describes. It fails on a
    /// definition with no words, on a step that names no method, and where a
    /// step writes coordinates that its successor cannot read.
    pub fn from_definition(text: &str) -> (r: Result<Pipeline, DefinitionError>)
        ensures
            ({
                let d = definition_of(text@);
                let ops = operations_of(d);
                let steps = planned_steps(d);
                match r {
                    Ok(p) => d.word_count > 0 && methods_named(d) && well_formed(steps) && p@
                        == steps && p.valid(),
                    Err(DefinitionError::Empty) => d.word_count == 0,
                    Err(DefinitionError::MissingMethod(i)) => d.word_count > 0 && d.steps.len() > 0
                        && i < d.steps.len() && d.steps[i as int].method is None && forall|j: int|
                        0 <= j < i ==> (#[trigger] d.steps[j]).method is Some,
                    Err(DefinitionError::DomainMismatch(i)) => d.word_count > 0 && methods_named(d)
                        && i + 1 < steps.len() && !fits(steps[i as int].output(), steps[i + 1].input())
                        && forall|j: int| 0 <= j < i ==> #[trigger] fits(steps[j].output(), steps[j + 1].input()),
                }
            }),
    {
        let d = parse_definition(text);
        if d.word_count == 0 {
            return Err(DefinitionError::Empty);
        }
        let ghost dv = d@;
        let mut steps: Vec<Step> = Vec::new();
        if d.steps.len() == 0 {
            steps.push(step_for(&d.global));
            proof {
                assert(steps@ =~= operations_of(dv).map_values(|o: OpSpec| step_of(o)));
            }
        } else {
            let mut i: usize = 0;
            while i < d.steps.len()
                invariant
                    dv == d@,
                    dv == definition_of(text@),
                    dv.word_count > 0,
                    dv.steps.len() > 0,
                    i <= d.steps@.len(),
                    steps@.len() == i,
                    forall|j: int| 0 <= j < i ==> #[trigger] steps@[j] == step_of(dv.steps[j]),
                    forall|j: int| 0 <= j < i ==> (#[trigger] dv.steps[j]).method is Some,
                decreases d.steps.len() - i,
            {
                let op = &d.steps[i];
                assert(dv.steps[i as int] == op@);
                match &op.method {
                    Some(_) => {},
                    None => {
                        assert(dv.steps[i as int].method is None);
                        return Err(DefinitionError::MissingMethod(i));
                    },
                }
                steps.push(step_for(op));
                i = i + 1;
            }
            proof {
                assert(steps@ =~= operations_of(dv).map_values(|o: OpSpec| step_of(o)));
            }
            if d.global.inverse {
                steps = invert_steps(&steps);
            }
        }
        assert(steps@ == planned_steps(dv));
        match first_mismatch(&steps) {
            Some(i) => Err(DefinitionError::DomainMismatch(i)),
            None => Ok(Pipeline { steps }),
        }
    }

    /// The number of steps.
    pub fn len(&self) -> (r: usize)
        ensures
            r == self@.len(),
    {
        self.steps.len()
    }

    /// The step at index `i`.
    pub fn step(&self, i: usize) -> (r: Step)
        requires
            i < self@.len(),
        ensures
            r == self@[i as int],
    {
        self.steps[i]
    }

    /// What the pipeline reads: what its first step reads.
    pub fn input_domain(&self) -> (r: Domain)
        requires
            self.valid(),
        ensures
            r == self@[0].input(),
    {
        self.steps[0].read_domain()
    }

    /// What the pipeline writes: what its last step writes.
    pub fn output_domain(&self) -> (r: Domain)
        requires
            self.valid(),
        ensures
            r == self@[self@.len() - 1].output(),
    {
        self.steps[self.steps.len() - 1].write_domain()
    }

    /// The inverse pipeline: the steps in reverse order, each run the other
    /// way. It reads what this one writes and writes what this one reads.
    pub fn inverse(&self) -> (r: Pipeline)
        requires
            self.valid(),
        ensures
            r@ == inverted(self@),
            r.valid(),
            r@[0].input() == self@[self@.len() - 1].output(),
            r@[r@.len() - 1].output() == self@[0].input(),
    {
        let steps = invert_steps(&self.steps);
        proof {
            lemma_inverted_well_formed(self@);
        }
        Pipeline { steps }
    }
}

/// Two pipelines built from the same definition text run the same steps in
/// the same order: what a definition builds depends on its text alone.
pub proof fn lemma_same_definition_same_steps(a: Pipeline, b: Pipeline, text_a: Seq<char>, text_b: Seq<char>)
    requires
        text_a == text_b,
        a@ == planned_steps(definition_of(text_a)),
        b@ == planned_steps(definition_of(text_b)),
    ensures
        a@ == b@,
        a@.len() == b@.len(),
        forall|i: int| 0 <= i < a@.len() ==> #[trigger] a@[i] == b@[i],
{
}

/// Inverting a sequence of steps twice gives it back.
pub proof fn lemma_inverted_twice(steps: Seq<Step>)
    ensures
        inverted(inverted(steps)) == steps,
{
    assert(inverted(inverted(steps)) =~= steps);
}

/// The inverse of a well-formed sequence of steps is well-formed: where each
/// step of a pipeline can read what its predecessor writes, the same holds of
/// its inverse.
pub proof fn lemma_inverted_well_formed(steps: Seq<Step>)
    requires
        well_formed(steps),
    ensures
        well_formed(inverted(steps)),
{
    let inv = inverted(steps);
    let n = steps.len();
    assert forall|i: int| 0 <= i < inv.len() - 1 implies #[trigger] fits(
        inv[i].output(),
        inv[i + 1].input(),
    ) by {
        let j = n - 2 - i;
        assert(fits(steps[j].output(), steps[j + 1].input()));
        assert(inv[i] == steps[j + 1].flipped());
        assert(inv[i + 1] == steps[j].flipped());
    }
}

} // verus!
