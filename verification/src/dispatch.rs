//! Callout bookkeeping: each outstanding outbound call gets a correlation
//! id, and its context is stored until the reply arrives; and the inbound
//! body-size gate.

use vstd::prelude::*;

verus! {

use crate::orchestrate::StreamCallContext;

/// The largest request body the gateway accepts, in bytes.
pub open spec fn spec_body_limit() -> int {
    1048576
}

/// Whether a request body of this size is accepted: one mebibyte passes,
/// one byte more does not.
pub fn body_within_limit(size: u64) -> (r: bool)
    ensures
        r == (size <= spec_body_limit()),
{
    size <= 1048576
}

/// The contexts of the outstanding outbound calls, keyed by correlation id.
pub struct CalloutMap {
    pub entries: Vec<(u32, StreamCallContext)>,
}

/// The keys present in a callout list.
pub open spec fn spec_has_key(entries: Seq<(u32, StreamCallContext)>, id: u32) -> bool {
    exists|i: int| 0 <= i < entries.len() && entries[i].0 == id
}

/// The first position of a key in a callout list.
pub open spec fn spec_key_at(entries: Seq<(u32, StreamCallContext)>, id: u32) -> int
    decreases entries.len(),
{
    if entries.len() == 0 {
        0
    } else if entries[0].0 == id {
        0
    } else {
        1 + spec_key_at(entries.drop_first(), id)
    }
}

impl CalloutMap {
    /// An empty map.
    pub fn new() -> (r: CalloutMap)
        ensures
            r.entries@.len() == 0,
    {
        CalloutMap { entries: Vec::new() }
    }

    /// How many calls are outstanding.
    pub fn len(&self) -> (r: usize)
        ensures
            r == self.entries@.len(),
    {
        self.entries.len()
    }

    /// Store the context of a newly issued call under its correlation id.
    pub fn insert(&mut self, id: u32, ctx: StreamCallContext)
        ensures
            final(self).entries@ == old(self).entries@.push((id, ctx)),
    {
        self.entries.push((id, ctx));
    }

    /// Take the context of a completed call out of the map; a reply whose
    /// id is unknown gets nothing.
    pub fn remove(&mut self, id: u32) -> (r: Option<StreamCallContext>)
        ensures
            !spec_has_key(old(self).entries@, id) ==> r is None && final(self).entries@ == old(
                self,
            ).entries@,
            spec_has_key(old(self).entries@, id) ==> ({
                let at = spec_key_at(old(self).entries@, id);
                &&& 0 <= at < old(self).entries@.len()
                &&& old(self).entries@[at].0 == id
                &&& r matches Some(ctx) && ctx == old(self).entries@[at].1
                &&& final(self).entries@ == old(self).entries@.remove(at)
            }),
    {
        let ghost entries0 = self.entries@;
        proof {
            assert(entries0 == old(self).entries@);
        }
        let mut i: usize = 0;
        proof {
            lemma_key_at_ge(entries0, id, 0);
        }
        while i < self.entries.len()
            invariant
                entries0 == old(self).entries@,
                i <= self.entries@.len(),
                self.entries@ == entries0,
                forall|k: int| 0 <= k < i ==> entries0[k].0 != id,
                spec_has_key(entries0, id) ==> i <= spec_key_at(entries0, id),
            decreases self.entries@.len() - i,
        {
            if self.entries[i].0 == id {
                proof {
                    assert(entries0[i as int].0 == id);
                    assert(spec_has_key(entries0, id));
                    lemma_key_at_first(entries0, id, i as int);
                    assert(spec_key_at(entries0, id) == i);
                }
                let entry = self.entries.remove(i);
                proof {
                    assert(self.entries@ == entries0.remove(i as int));
                    assert(entry == entries0[i as int]);
                }
                return Some(entry.1);
            }
            proof {
                if spec_has_key(entries0, id) {
                    lemma_key_at_first_bound(entries0, id, i as int);
                }
            }
            i = i + 1;
        }
        proof {
            assert(!spec_has_key(entries0, id));
        }
        None
    }
}

/// `spec_key_at` names the first position holding the key.
proof fn lemma_key_at_first(entries: Seq<(u32, StreamCallContext)>, id: u32, i: int)
    requires
        0 <= i < entries.len(),
        entries[i].0 == id,
        forall|k: int| 0 <= k < i ==> entries[k].0 != id,
    ensures
        spec_key_at(entries, id) == i,
    decreases entries.len(),
{
    if i > 0 {
        assert(entries.drop_first()[i - 1].0 == id);
        assert(forall|k: int|
            0 <= k < i - 1 ==> (#[trigger] entries.drop_first()[k]) == entries[k + 1]);
        lemma_key_at_first(entries.drop_first(), id, i - 1);
    }
}

/// A key that occurs at or after position `i`, with no occurrence before
/// or at `i`, occurs strictly after `i`.
proof fn lemma_key_at_first_bound(entries: Seq<(u32, StreamCallContext)>, id: u32, i: int)
    requires
        spec_has_key(entries, id),
        0 <= i < entries.len(),
        entries[i].0 != id,
        forall|k: int| 0 <= k < i ==> entries[k].0 != id,
    ensures
        spec_key_at(entries, id) >= i + 1,
    decreases entries.len(),
{
    let w = choose|w: int| 0 <= w < entries.len() && entries[w].0 == id;
    assert(w > i);
    assert(forall|k: int| 0 <= k <= i ==> entries[k].0 != id);
    lemma_key_at_ge(entries, id, i + 1);
}

/// With no occurrence before position `j`, the first occurrence is at or
/// after `j`.
proof fn lemma_key_at_ge(entries: Seq<(u32, StreamCallContext)>, id: u32, j: int)
    requires
        0 <= j <= entries.len(),
        forall|k: int| 0 <= k < j ==> entries[k].0 != id,
    ensures
        spec_key_at(entries, id) >= j,
    decreases entries.len(),
{
    if entries.len() == 0 || entries[0].0 == id {
        assert(j <= 0);
    } else {
        assert(forall|k: int|
            0 <= k < j - 1 ==> (#[trigger] entries.drop_first()[k]) == entries[k + 1]);
        if j > 0 {
            lemma_key_at_ge(entries.drop_first(), id, j - 1);
        } else {
            lemma_key_at_ge(entries.drop_first(), id, 0);
        }
        assert(spec_key_at(entries, id) == 1 + spec_key_at(entries.drop_first(), id));
    }
}

} // verus!
