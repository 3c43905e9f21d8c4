use vstd::prelude::*;

verus! {

/// An opaque identifier, `batch:sequence`. Identifiers handed out by one
/// generator are never repeated.
#[derive(Clone, Copy, Debug, PartialEq, Eq, Hash, Structural)]
pub struct HexoId {
    pub batch_id: u64,
    pub sequence_id: u64,
}

/// Hands out identifiers of one batch with strictly increasing sequence
/// numbers, starting at 1.
#[derive(Debug)]
pub struct HexoIdGenerator {
    pub batch_id: u64,
    pub last: u64,
}

impl HexoIdGenerator {
    pub fn new(batch_id: u64) -> (r: HexoIdGenerator)
        ensures
            r.batch_id == batch_id,
            r.last == 0,
    {
        HexoIdGenerator { batch_id, last: 0 }
    }
}

/// The next identifier of `generator`: one past the last one it handed out.
pub fn next(generator: &mut HexoIdGenerator) -> (id: HexoId)
    requires
        old(generator).last < u64::MAX,
    ensures
        id == (HexoId { batch_id: old(generator).batch_id, sequence_id: (old(generator).last + 1) as u64 }),
        final(generator).batch_id == old(generator).batch_id,
        final(generator).last == id.sequence_id,
        id.sequence_id > old(generator).last,
{
    generator.last = generator.last + 1;
    HexoId { batch_id: generator.batch_id, sequence_id: generator.last }
}

} // verus!
