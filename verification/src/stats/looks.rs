//! Looks at a mapping that another process may rewrite at any moment.

use vstd::prelude::*;

verus! {

/// One read-only mapping of the shared stats segment.
///
/// The bytes are published by another process, so nothing is presumed of them:
/// two calls may show different contents. The image that one call shows is taken
/// to stay as it is while it is decoded; that a publisher rewrites it meanwhile
/// is what the second look at the header is for.
pub trait SegmentMapping {
    fn bytes(&self) -> (image: &[u8]);
}

/// Whether `image` is what the mapping may show.
pub open spec fn shows<M: SegmentMapping>(mapping: &M, image: Seq<u8>) -> bool {
    exists|shown: &[u8]| #[trigger]
        call_ensures(M::bytes, (mapping,), shown) && shown@ == image
}

/// A mapping together with every image that was seen of it, in order.
///
/// The only way to the mapping is [`Looks::next`], which records what it shows,
/// so whoever is given the looks alone can neither look unrecorded nor record a
/// look that was not taken.
pub struct Looks<'a, M> {
    mapping: &'a M,
    seen: Ghost<Seq<Seq<u8>>>,
}

impl<'a, M: SegmentMapping> Looks<'a, M> {
    /// The mapping that is looked at.
    pub closed spec fn over(&self) -> M {
        *self.mapping
    }

    /// The images that were seen, the first look first.
    pub closed spec fn seen(&self) -> Seq<Seq<u8>> {
        self.seen@
    }

    /// A mapping that was not looked at yet.
    pub fn new(mapping: &'a M) -> (looks: Self)
        ensures
            looks.over() == *mapping,
            looks.seen() == Seq::<Seq<u8>>::empty(),
    {
        Looks { mapping, seen: Ghost(Seq::empty()) }
    }

    /// Looks at the mapping once more.
    pub fn next(&mut self) -> (image: &'a [u8])
        ensures
            final(self).over() == old(self).over(),
            final(self).seen() == old(self).seen().push(image@),
            shows(&old(self).over(), image@),
    {
        let image = self.mapping.bytes();
        self.seen = Ghost(self.seen@.push(image@));
        image
    }
}

/// Whether the looks `after` are the looks `before` and then `taken`.
pub open spec fn looked<M: SegmentMapping>(
    before: Looks<M>,
    after: Looks<M>,
    taken: Seq<Seq<u8>>,
) -> bool {
    &&& after.over() == before.over()
    &&& after.seen() == before.seen() + taken
    &&& forall|i: int| 0 <= i < taken.len() ==> shows(&before.over(), #[trigger] taken[i])
}

/// Whether somebody may look at the mapping and see `taken`, one image a look.
pub open spec fn may_see<M: SegmentMapping>(mapping: &M, taken: Seq<Seq<u8>>) -> bool {
    &&& exists|looks: Looks<M>| #[trigger] looks.over() == *mapping && looks.seen() == taken
    &&& forall|i: int| 0 <= i < taken.len() ==> shows(mapping, #[trigger] taken[i])
}

/// One more look is added behind those that were taken.
pub proof fn lemma_looked<M: SegmentMapping>(
    before: Looks<M>,
    middle: Looks<M>,
    after: Looks<M>,
    taken: Seq<Seq<u8>>,
    image: Seq<u8>,
)
    requires
        looked(before, middle, taken),
        after.over() == middle.over(),
        after.seen() == middle.seen().push(image),
        shows(&middle.over(), image),
    ensures
        looked(before, after, taken.push(image)),
{
    assert(before.seen() + taken.push(image) =~= (before.seen() + taken).push(image));
}

} // verus!
