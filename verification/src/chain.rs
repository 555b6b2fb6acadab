//! The CNAME chain walker.
//!
//! Starting from the query domain, the walker follows aliases one lookup
//! at a time. The lookups themselves happen outside the library: the
//! caller asks for the current name, performs the CNAME query, and hands
//! the answer back. The walker strips the trailing root-label dot from
//! each alias, records the hop, and — the cycle guard — stops instead of
//! continuing whenever the alias names anything already visited, so a
//! misconfigured zone can never make the walk revisit a name. A walk
//! that never followed a hop finishes as "no alias", which is an answer,
//! not an error.

use vstd::prelude::*;

use vstd::string::StringExecFns;

use crate::text::strip_trailing;
use crate::text::strip_trailing_char;

verus! {

/// One aliasing hop, from a name to the target it is an alias of.
pub struct AliasHop {
    pub from: String,
    pub to: String,
}

/// What the walker asks of its caller after seeing an alias.
#[derive(Clone, Copy, Debug, PartialEq, Eq, Structural)]
pub enum WalkAction {
    /// Query the walker's current name for its CNAME and report back.
    Continue,
    /// The alias was already visited: stop with the chain as recorded.
    Stop,
}

/// The finished walk: either the domain had no alias at all, or the
/// recorded chain of hops.
pub enum ChainResult {
    NoAlias,
    Aliases(Vec<AliasHop>),
}

/// The state of one alias walk: every name visited so far, in order,
/// and the hops between them.
pub struct CnameWalk {
    pub visited: Vec<String>,
    pub hops: Vec<AliasHop>,
}

/// Does any of the names read the same as `s`?
fn contains_name(v: &Vec<String>, s: &String) -> (r: bool)
    ensures
        r == exists|j: int| 0 <= j < v@.len() && #[trigger] v@[j]@ == s@,
{
    let mut i: usize = 0;
    while i < v.len()
        invariant
            i <= v.len(),
            forall|j: int| 0 <= j < i ==> #[trigger] v@[j]@ != s@,
        decreases v.len() - i,
    {
        if *s == v[i] {
            return true;
        }
        i = i + 1;
    }
    false
}

impl CnameWalk {
    /// The walk's invariant: the visited names are the start followed by
    /// each hop's target, every hop connects consecutive visited names,
    /// and no name is visited twice.
    pub open spec fn wf(&self) -> bool {
        &&& self.visited@.len() == self.hops@.len() + 1
        &&& forall|i: int|
            0 <= i < self.hops@.len() ==> #[trigger] self.hops@[i].from@ == self.visited@[i]@
        &&& forall|i: int|
            0 <= i < self.hops@.len() ==> #[trigger] self.hops@[i].to@ == self.visited@[i + 1]@
        &&& forall|i: int, j: int|
            0 <= i < j < self.visited@.len() ==> self.visited@[i]@ != self.visited@[j]@
    }

    /// The name the next CNAME query should ask about.
    pub open spec fn spec_current(&self) -> Seq<char> {
        self.visited@.last()@
    }

    /// Begin a walk at the query domain.
    pub fn new(start: String) -> (r: Self)
        ensures
            r.wf(),
            r.hops@.len() == 0,
            r.visited@.len() == 1,
            r.visited@[0]@ == start@,
            r.spec_current() == start@,
    {
        let mut visited: Vec<String> = Vec::new();
        visited.push(start);
        CnameWalk { visited, hops: Vec::new() }
    }

    /// The name to query next.
    pub fn current(&self) -> (r: &String)
        requires
            self.wf(),
        ensures
            r@ == self.spec_current(),
    {
        &self.visited[self.visited.len() - 1]
    }

    /// Take one alias answer. The trailing root-label dot is stripped
    /// from the target; if the stripped name was already visited the
    /// walk stops unchanged (the cycle guard), otherwise the hop is
    /// recorded and the walk continues from the target.
    pub fn on_alias(&mut self, target: &str) -> (r: WalkAction)
        requires
            old(self).wf(),
        ensures
            final(self).wf(),
            ({
                let t = strip_trailing(target@, '.');
                if exists|j: int|
                    0 <= j < old(self).visited@.len() && #[trigger] old(self).visited@[j]@ == t {
                    r == WalkAction::Stop && *final(self) == *old(self)
                } else {
                    &&& r == WalkAction::Continue
                    &&& final(self).hops@.len() == old(self).hops@.len() + 1
                    &&& final(self).visited@.len() == old(self).visited@.len() + 1
                    &&& forall|i: int|
                        0 <= i < old(self).hops@.len() ==> final(self).hops@[i] == old(
                            self,
                        ).hops@[i]
                    &&& forall|i: int|
                        0 <= i < old(self).visited@.len() ==> final(self).visited@[i] == old(
                            self,
                        ).visited@[i]
                    &&& final(self).hops@.last().from@ == old(self).spec_current()
                    &&& final(self).hops@.last().to@ == t
                    &&& final(self).spec_current() == t
                }
            }),
    {
        let stripped = strip_trailing_char(target, '.');
        if contains_name(&self.visited, &stripped) {
            return WalkAction::Stop;
        }
        let ghost t = stripped@;
        let from = self.visited[self.visited.len() - 1].clone();
        let to = stripped.clone();
        self.hops.push(AliasHop { from, to });
        self.visited.push(stripped);
        proof {
            let ov = old(self).visited@;
            let oh = old(self).hops@;
            assert forall|i: int|
                0 <= i < self.hops@.len() implies #[trigger] self.hops@[i].from@
                == self.visited@[i]@ by {
                if i < oh.len() {
                    assert(self.hops@[i] == oh[i]);
                    assert(self.visited@[i] == ov[i]);
                } else {
                    assert(self.hops@[i].from@ == ov[ov.len() - 1]@);
                    assert(self.visited@[i] == ov[i]);
                }
            }
            assert forall|i: int|
                0 <= i < self.hops@.len() implies #[trigger] self.hops@[i].to@ == self.visited@[i
                + 1]@ by {
                if i < oh.len() {
                    assert(self.hops@[i] == oh[i]);
                    assert(self.visited@[i + 1] == ov[i + 1]);
                    assert(oh[i].to@ == ov[i + 1]@);
                    assert(self.hops@[i].to@ == self.visited@[i + 1]@);
                } else {
                    assert(i + 1 == ov.len());
                    assert(self.hops@[i].to@ == t);
                    assert(self.visited@[i + 1]@ == t);
                    assert(self.hops@[i].to@ == self.visited@[i + 1]@);
                }
            }
            assert forall|i: int, j: int|
                0 <= i < j < self.visited@.len() implies self.visited@[i]@ != self.visited@[j]@ by {
                if j < ov.len() {
                    assert(self.visited@[i] == ov[i]);
                    assert(self.visited@[j] == ov[j]);
                } else {
                    assert(self.visited@[i] == ov[i]);
                    assert(self.visited@[j]@ == t);
                    assert(ov[i]@ != t);
                }
            }
        }
        WalkAction::Continue
    }

    /// Close the walk. An empty chain means the domain simply has no
    /// alias — reported as an answer in its own right, never an error.
    pub fn finish(self) -> (r: ChainResult)
        ensures
            self.hops@.len() == 0 ==> r is NoAlias,
            self.hops@.len() > 0 ==> (r matches ChainResult::Aliases(h) && h@ == self.hops@),
    {
        if self.hops.len() == 0 {
            ChainResult::NoAlias
        } else {
            ChainResult::Aliases(self.hops)
        }
    }
}

/// The display line of one hop.
pub open spec fn spec_hop_line(h: AliasHop) -> Seq<char> {
    h.from@ + " -> "@ + h.to@
}

/// Render one hop as "from -> to".
pub fn render_hop(h: &AliasHop) -> (r: String)
    ensures
        r@ == spec_hop_line(*h),
{
    let mut r = h.from.clone();
    r.append(" -> ");
    r.append(h.to.as_str());
    r
}

/// The cycle guard, as a law of every reachable walk state: no hop's
/// target equals the start or any earlier hop's target.
pub proof fn lemma_walk_never_revisits(w: &CnameWalk)
    requires
        w.wf(),
    ensures
        forall|i: int, j: int|
            0 <= i < w.hops@.len() && 0 <= j <= i ==> #[trigger] w.hops@[i].to@
                != #[trigger] w.visited@[j]@,
{
    assert forall|i: int, j: int|
        0 <= i < w.hops@.len() && 0 <= j <= i implies #[trigger] w.hops@[i].to@
        != #[trigger] w.visited@[j]@ by {
        assert(w.hops@[i].to@ == w.visited@[i + 1]@);
    }
}

} // verus!
