use vstd::prelude::*;

verus! {

/// A query signature: the component kinds whose values are read, the kinds
/// that must be present without being read (`With`) and the kinds that must
/// be absent (`Without`).
pub struct Query {
    pub required: Vec<u32>,
    pub with: Vec<u32>,
    pub without: Vec<u32>,
}

/// An entity whose set of component kinds is `kinds` passes the filters of `q`.
pub open spec fn accepts(q: Query, kinds: Set<u32>) -> bool {
    &&& forall|i: int| 0 <= i < q.required@.len() ==> kinds.contains(#[trigger] q.required@[i])
    &&& forall|i: int| 0 <= i < q.with@.len() ==> kinds.contains(#[trigger] q.with@[i])
    &&& forall|i: int| 0 <= i < q.without@.len() ==> !kinds.contains(#[trigger] q.without@[i])
}

impl Query {
    /// A query with no component and no filter: it matches every live entity.
    pub fn new() -> (r: Query)
        ensures
            r.required@ == Seq::<u32>::empty(),
            r.with@ == Seq::<u32>::empty(),
            r.without@ == Seq::<u32>::empty(),
    {
        Query { required: Vec::new(), with: Vec::new(), without: Vec::new() }
    }

    /// Adds a component kind whose value the query reads.
    pub fn read(self, kind: u32) -> (r: Query)
        ensures
            r.required@ == self.required@.push(kind),
            r.with@ == self.with@,
            r.without@ == self.without@,
    {
        let mut q = self;
        q.required.push(kind);
        q
    }

    /// Adds a `With` filter.
    pub fn with(self, kind: u32) -> (r: Query)
        ensures
            r.required@ == self.required@,
            r.with@ == self.with@.push(kind),
            r.without@ == self.without@,
    {
        let mut q = self;
        q.with.push(kind);
        q
    }

    /// Adds a `Without` filter.
    pub fn without(self, kind: u32) -> (r: Query)
        ensures
            r.required@ == self.required@,
            r.with@ == self.with@,
            r.without@ == self.without@.push(kind),
    {
        let mut q = self;
        q.without.push(kind);
        q
    }
}

/// Why a single-result query did not produce its entity.
#[derive(Clone, Copy, Debug, PartialEq, Eq, Structural)]
pub enum QuerySingleError {
    NoEntities,
    MultipleEntities,
}

} // verus!
