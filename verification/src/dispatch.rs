use vstd::prelude::*;

use vstd::multiset::Multiset;

verus! {

broadcast use vstd::seq_lib::group_to_multiset_ensures, vstd::multiset::group_multiset_axioms;

/// Why one generation call failed. The kinds are kept apart so that a
/// caller can tell them from one another when reporting.
#[derive(Debug, PartialEq)]
pub enum BackendError {
    /// The request never completed: connection, send or body transfer.
    Transport(String),
    /// The service answered with this non-success status code.
    Status(u16),
    /// The response body was not well-formed JSON.
    MalformedResponse,
    /// The response was well-formed but lacked the expected text field.
    MissingField,
}

/// One unit of work: one author and the prompt to send for them.
#[derive(Debug, PartialEq)]
pub struct WorkUnit {
    pub author: String,
    pub prompt: String,
}

/// The settled result of one author's unit: the generated text, or the
/// failure its backend call ended in. One outcome never affects another.
#[derive(Debug, PartialEq)]
pub struct GenerationOutcome {
    pub author: String,
    pub result: Result<String, BackendError>,
}

/// The authors of a sequence of units.
pub open spec fn unit_authors(us: Seq<WorkUnit>) -> Seq<Seq<char>> {
    us.map_values(|u: WorkUnit| u.author@)
}

/// The authors of a sequence of outcomes.
pub open spec fn outcome_authors(os: Seq<GenerationOutcome>) -> Seq<Seq<char>> {
    os.map_values(|o: GenerationOutcome| o.author@)
}

/// The views of the in-flight authors.
pub open spec fn running_authors(rs: Seq<String>) -> Seq<Seq<char>> {
    rs.map_values(|s: String| s@)
}

/// An empty author sequence makes an empty multiset.
proof fn lemma_authors_empty_multiset(s: Seq<Seq<char>>)
    requires
        s.len() == 0,
    ensures
        s.to_multiset() == Multiset::<Seq<char>>::empty(),
{
    assert(s.to_multiset().len() == 0);
    assert forall|x: Seq<char>| s.to_multiset().count(x) == 0 by {
        assert(s.to_multiset().count(x) <= s.to_multiset().len());
    }
    assert(s.to_multiset() =~= Multiset::<Seq<char>>::empty());
}

/// Finds an in-flight author by name.
fn find_running(running: &Vec<String>, author: &str) -> (r: Option<usize>)
    ensures
        match r {
            Some(j) => j < running@.len() && running@[j as int]@ == author@,
            None => forall|k: int| 0 <= k < running@.len() ==> (#[trigger] running@[k])@ != author@,
        },
{
    let mut j: usize = 0;
    let rlen = running.len();
    while j < rlen
        invariant
            j <= rlen,
            rlen == running@.len(),
            forall|k: int| 0 <= k < j ==> (#[trigger] running@[k])@ != author@,
        decreases rlen - j,
    {
        if crate::record::str_eq(running[j].as_str(), author) {
            return Some(j);
        }
        j = j + 1;
    }
    None
}

/// The bounded-concurrency dispatch state. Work is submitted once, at
/// construction; units move from pending to running (never more than
/// `limit` at once) and settle into exactly one outcome each. The caller
/// performs the backend calls between `launch` and `settle`; which order
/// the calls finish in does not matter to the accounting.
pub struct Dispatcher {
    /// The ceiling on in-flight units.
    pub limit: usize,
    /// Units not yet launched, in submission order.
    pub pending: Vec<WorkUnit>,
    /// Authors of the units launched and not yet settled.
    pub running: Vec<String>,
    /// Settled outcomes, in settling order.
    pub outcomes: Vec<GenerationOutcome>,
    /// The authors of all submitted units.
    pub initial: Ghost<Seq<Seq<char>>>,
}

impl Dispatcher {
    /// The dispatch invariant: the ceiling holds, and the submitted
    /// authors are exactly the pending, running and settled ones
    /// together — no unit is lost and none is duplicated.
    pub open spec fn wf(self) -> bool {
        &&& self.limit >= 1
        &&& self.running@.len() <= self.limit
        &&& self.initial@.to_multiset() == unit_authors(self.pending@).to_multiset().add(
            running_authors(self.running@).to_multiset(),
        ).add(outcome_authors(self.outcomes@).to_multiset())
    }

    /// Accepts the whole batch of units up front, none yet launched.
    pub fn new(units: Vec<WorkUnit>, limit: usize) -> (d: Dispatcher)
        requires
            limit >= 1,
        ensures
            d.wf(),
            d.limit == limit,
            d.pending@ == units@,
            d.running@.len() == 0,
            d.outcomes@.len() == 0,
            d.initial@ == unit_authors(units@),
    {
        let d = Dispatcher {
            limit,
            pending: units,
            running: Vec::new(),
            outcomes: Vec::new(),
            initial: Ghost(unit_authors(units@)),
        };
        proof {
            lemma_authors_empty_multiset(running_authors(d.running@));
            lemma_authors_empty_multiset(outcome_authors(d.outcomes@));
            assert(d.initial@.to_multiset() =~= unit_authors(d.pending@).to_multiset().add(
                running_authors(d.running@).to_multiset(),
            ).add(outcome_authors(d.outcomes@).to_multiset()));
        }
        d
    }

    /// True when a further unit may start now: work is waiting and the
    /// ceiling leaves room.
    pub fn can_launch(&self) -> (r: bool)
        ensures
            r == (self.pending@.len() > 0 && self.running@.len() < self.limit),
    {
        self.pending.len() > 0 && self.running.len() < self.limit
    }

    /// Admits the next pending unit: hands it out for its backend call
    /// and counts its author as in flight. Never oversteps the ceiling.
    pub fn launch(&mut self) -> (u: WorkUnit)
        requires
            old(self).wf(),
            old(self).pending@.len() > 0,
            old(self).running@.len() < old(self).limit,
        ensures
            final(self).wf(),
            u == old(self).pending@[0],
            final(self).pending@ == old(self).pending@.drop_first(),
            final(self).running@ == old(self).running@.push(u.author),
            final(self).outcomes@ == old(self).outcomes@,
            final(self).limit == old(self).limit,
            final(self).initial@ == old(self).initial@,
    {
        let ghost opa = unit_authors(old(self).pending@);
        let ghost ora = running_authors(old(self).running@);
        let u = self.pending.remove(0);
        let author = u.author.clone();
        self.running.push(author);
        proof {
            assert(self.pending@ =~= old(self).pending@.drop_first());
            assert(self.running@ =~= old(self).running@.push(u.author));
            let npa = unit_authors(self.pending@);
            let nra = running_authors(self.running@);
            assert(npa =~= opa.remove(0));
            assert(nra =~= ora.push(u.author@));
            assert(opa.remove(0).to_multiset() == opa.to_multiset().remove(opa[0]));
            assert(ora.push(u.author@).to_multiset() == ora.to_multiset().insert(u.author@));
            assert(opa[0] == u.author@);
            assert(opa.contains(opa[0]));
            assert(opa.to_multiset().count(u.author@) > 0);
            assert(npa.to_multiset().add(nra.to_multiset()) =~= opa.to_multiset().add(
                ora.to_multiset(),
            ));
            assert(npa.to_multiset().add(nra.to_multiset()).add(
                outcome_authors(self.outcomes@).to_multiset(),
            ) =~= opa.to_multiset().add(ora.to_multiset()).add(
                outcome_authors(self.outcomes@).to_multiset(),
            ));
        }
        u
    }

    /// Records the settled result of one in-flight unit. Exactly that
    /// unit stops being in flight and exactly its outcome is appended;
    /// nothing else changes, so one unit's failure touches no sibling.
    pub fn settle(&mut self, outcome: GenerationOutcome)
        requires
            old(self).wf(),
            running_authors(old(self).running@).contains(outcome.author@),
        ensures
            final(self).wf(),
            final(self).outcomes@ == old(self).outcomes@.push(outcome),
            final(self).pending@ == old(self).pending@,
            final(self).running@.len() == old(self).running@.len() - 1,
            running_authors(final(self).running@).to_multiset() == running_authors(
                old(self).running@,
            ).to_multiset().remove(outcome.author@),
            final(self).limit == old(self).limit,
            final(self).initial@ == old(self).initial@,
    {
        let ghost ora = running_authors(old(self).running@);
        match find_running(&self.running, outcome.author.as_str()) {
            Some(j) => {
                let ghost orun = self.running@;
                self.running.remove(j);
                self.outcomes.push(outcome);
                proof {
                    assert(ora.len() == orun.len());
                    assert(self.running@ == orun.remove(j as int));
                    orun.remove_ensures(j as int);
                    ora.remove_ensures(j as int);
                    let nra = running_authors(self.running@);
                    assert forall|k: int| 0 <= k < nra.len() implies nra[k] == ora.remove(
                        j as int,
                    )[k] by {
                        if k < j as int {
                            assert(orun.remove(j as int)[k] == orun[k]);
                            assert(ora.remove(j as int)[k] == ora[k]);
                        } else {
                            assert(orun.remove(j as int)[k] == orun[k + 1]);
                            assert(ora.remove(j as int)[k] == ora[k + 1]);
                        }
                    }
                    assert(nra =~= ora.remove(j as int));
                    assert(ora.remove(j as int).to_multiset() == ora.to_multiset().remove(
                        ora[j as int],
                    ));
                    assert(ora[j as int] == outcome.author@);
                    let noa = outcome_authors(self.outcomes@);
                    assert(noa =~= outcome_authors(old(self).outcomes@).push(outcome.author@));
                    assert(noa.to_multiset() == outcome_authors(
                        old(self).outcomes@,
                    ).to_multiset().insert(outcome.author@));
                    assert(ora.to_multiset().count(outcome.author@) > 0);
                    assert(unit_authors(self.pending@).to_multiset().add(nra.to_multiset()).add(
                        noa.to_multiset(),
                    ) =~= unit_authors(old(self).pending@).to_multiset().add(
                        ora.to_multiset(),
                    ).add(outcome_authors(old(self).outcomes@).to_multiset()));
                }
            },
            None => {
                proof {
                    let witness = choose|k: int|
                        0 <= k < ora.len() && ora[k] == outcome.author@;
                    assert(self.running@[witness]@ != outcome.author@);
                    assert(false);
                }
            },
        }
    }

    /// True when every submitted unit has settled.
    pub fn is_done(&self) -> (r: bool)
        ensures
            r == (self.pending@.len() == 0 && self.running@.len() == 0),
    {
        self.pending.len() == 0 && self.running.len() == 0
    }

    /// How many units are in flight now.
    pub fn in_flight(&self) -> (r: usize)
        ensures
            r == self.running@.len(),
    {
        self.running.len()
    }

    /// The ceiling this dispatcher was built with.
    pub fn limit(&self) -> (r: usize)
        ensures
            r == self.limit,
    {
        self.limit
    }

    /// Hands the full outcome set over, once every unit has settled:
    /// exactly one outcome per submitted unit.
    pub fn into_outcomes(self) -> (outs: Vec<GenerationOutcome>)
        requires
            self.wf(),
            self.pending@.len() == 0,
            self.running@.len() == 0,
        ensures
            outs@ == self.outcomes@,
            outcome_authors(outs@).to_multiset() == self.initial@.to_multiset(),
            outs@.len() == self.initial@.len(),
    {
        proof {
            lemma_dispatch_complete(self);
        }
        self.outcomes
    }
}

/// Completeness of dispatch: once every unit has settled, the outcome
/// authors are exactly the submitted authors, multiplicity included —
/// one outcome per unit, none lost, none duplicated, whatever order the
/// backend calls finished in.
pub proof fn lemma_dispatch_complete(d: Dispatcher)
    requires
        d.wf(),
        d.pending@.len() == 0,
        d.running@.len() == 0,
    ensures
        outcome_authors(d.outcomes@).to_multiset() == d.initial@.to_multiset(),
        d.outcomes@.len() == d.initial@.len(),
{
    lemma_authors_empty_multiset(unit_authors(d.pending@));
    lemma_authors_empty_multiset(running_authors(d.running@));
    assert(d.initial@.to_multiset() =~= outcome_authors(d.outcomes@).to_multiset());
    assert(d.initial@.to_multiset().len() == d.initial@.len());
    assert(outcome_authors(d.outcomes@).to_multiset().len() == outcome_authors(d.outcomes@).len());
}

/// How many of the settled outcomes are failures.
pub open spec fn failure_count(os: Seq<GenerationOutcome>) -> int
    decreases os.len(),
{
    if os.len() == 0 {
        0
    } else {
        failure_count(os.drop_last()) + if os.last().result is Err {
            1int
        } else {
            0int
        }
    }
}

/// Fault isolation: settling one unit appends exactly its own outcome.
/// No sibling entry changes, and the failure count rises exactly when
/// that one unit failed — so one failure among many units stays confined
/// to its own outcome.
pub proof fn lemma_settle_isolation(os: Seq<GenerationOutcome>, o: GenerationOutcome)
    ensures
        failure_count(os.push(o)) == failure_count(os) + if o.result is Err {
            1int
        } else {
            0int
        },
        forall|k: int| 0 <= k < os.len() ==> os.push(o)[k] == os[k],
{
    assert(os.push(o).drop_last() =~= os);
    assert(os.push(o).last() == o);
}

/// The concurrency ceiling: a well-formed dispatcher never has more
/// units in flight than its limit.
pub proof fn lemma_dispatch_ceiling(d: Dispatcher)
    requires
        d.wf(),
    ensures
        d.running@.len() <= d.limit,
{
}

} // verus!
