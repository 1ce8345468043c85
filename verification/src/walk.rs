//! Handing out addresses one by one, until the receiver has enough.

use vstd::prelude::*;

use crate::types::Address;

verus! {

/// Addresses that are still to be handed out, the next one last.
pub struct AddressWalk {
    pending: Vec<Address>,
}

impl View for AddressWalk {
    type V = Seq<Address>;

    closed spec fn view(&self) -> Seq<Address> {
        self.pending@.reverse()
    }
}

/// The addresses that are left after the receiver's answer.
pub open spec fn after_reply(remaining: Seq<Address>, keep_going: bool) -> Seq<Address> {
    if keep_going {
        remaining
    } else {
        seq![]
    }
}

impl AddressWalk {
    /// A walk over `addresses`, in their order.
    pub fn new(addresses: &[Address]) -> (walk: AddressWalk)
        ensures
            walk@ == addresses@,
    {
        let mut pending: Vec<Address> = Vec::new();
        let mut left: usize = addresses.len();
        while left > 0
            invariant
                left <= addresses.len(),
                pending@.len() == addresses.len() - left,
                forall|i: int|
                    0 <= i < pending@.len() ==> pending@[i] == addresses@[addresses.len() - 1 - i],
            decreases left,
        {
            left -= 1;
            pending.push(addresses[left]);
        }
        let walk = AddressWalk { pending };
        proof {
            assert(walk@ =~= addresses@);
        }
        walk
    }

    /// The next address, if one is left.
    pub fn next_address(&mut self) -> (address: Option<Address>)
        ensures
            address == (if old(self)@.len() > 0 {
                Some(old(self)@[0])
            } else {
                None
            }),
            final(self)@ == (if old(self)@.len() > 0 {
                old(self)@.skip(1)
            } else {
                old(self)@
            }),
    {
        let address = self.pending.pop();
        proof {
            if old(self)@.len() > 0 {
                assert(self@ =~= old(self)@.skip(1));
            }
        }
        address
    }

    /// Takes the receiver's answer to an address: whether it wants more.
    pub fn reply(&mut self, keep_going: bool)
        ensures
            final(self)@ == after_reply(old(self)@, keep_going),
    {
        if !keep_going {
            self.pending.clear();
            proof {
                assert(self@ =~= seq![]);
            }
        }
    }
}

/// The addresses that a receiver gets. It answers the address with the number `k` by
/// `replies(k)`.
pub open spec fn visited(
    remaining: Seq<Address>,
    replies: spec_fn(int) -> bool,
    k: int,
) -> Seq<Address>
    decreases remaining.len(),
{
    if remaining.len() == 0 {
        seq![]
    } else {
        seq![remaining[0]] + visited(after_reply(remaining.skip(1), replies(k)), replies, k + 1)
    }
}

/// A receiver gets the addresses in their order, up to and with the first one that it answers by
/// wanting no more, and all of them if there is none.
pub proof fn law_walk_stops_at_refusal(addresses: Seq<Address>, replies: spec_fn(int) -> bool)
    ensures
        ({
            let got = visited(addresses, replies, 0);
            &&& got.is_prefix_of(addresses)
            &&& forall|i: int| 0 <= i < got.len() - 1 ==> #[trigger] replies(i)
            &&& got == addresses || (got.len() > 0 && !replies(got.len() - 1))
        }),
{
    lemma_visited(addresses, replies, 0);
}

proof fn lemma_visited(remaining: Seq<Address>, replies: spec_fn(int) -> bool, k: int)
    ensures
        ({
            let got = visited(remaining, replies, k);
            &&& got.is_prefix_of(remaining)
            &&& forall|i: int| k <= i < k + got.len() - 1 ==> #[trigger] replies(i)
            &&& got == remaining || (got.len() > 0 && !replies(k + got.len() - 1))
        }),
    decreases remaining.len(),
{
    let got = visited(remaining, replies, k);
    if remaining.len() > 0 {
        let rest = remaining.skip(1);
        if replies(k) {
            lemma_visited(rest, replies, k + 1);
            let later = visited(rest, replies, k + 1);
            assert(got =~= remaining.take(got.len() as int)) by {
                assert(later =~= rest.take(later.len() as int));
            }
            if later == rest {
                assert(got =~= remaining);
            }
        } else {
            assert(visited(after_reply(rest, replies(k)), replies, k + 1) =~= seq![]);
            assert(got =~= seq![remaining[0]]);
            assert(got =~= remaining.take(1));
        }
    } else {
        assert(got =~= remaining);
        assert(got =~= remaining.take(0));
    }
}

} // verus!
