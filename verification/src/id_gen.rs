use vstd::prelude::*;

verus! {

/// The identifier after `id`. After the largest one the count starts over.
pub open spec fn succ(id: u64) -> u64 {
    if id == u64::MAX {
        0
    } else {
        (id + 1) as u64
    }
}

/// The identifier that comes `n` steps after `id`.
pub open spec fn advance(id: u64, n: nat) -> u64
    decreases n,
{
    if n == 0 {
        id
    } else {
        succ(advance(id, (n - 1) as nat))
    }
}

/// The `n` identifiers from `id` on.
pub open spec fn ids_from(id: u64, n: nat) -> Seq<u64> {
    Seq::new(n, |i: int| advance(id, i as nat))
}

/// A source of fresh identifiers: a counter that goes up by one with each
/// identifier it hands out.
#[derive(Debug)]
pub struct IdGenerator {
    id: u64,
}

impl IdGenerator {
    /// The identifier that will be handed out next.
    pub closed spec fn peek(&self) -> u64 {
        self.id
    }

    pub fn new() -> (r: Self)
        ensures
            r.peek() == 0,
    {
        IdGenerator { id: 0 }
    }

    /// Hands out the next identifier.
    pub fn next(&mut self) -> (r: u64)
        ensures
            r == old(self).peek(),
            final(self).peek() == succ(old(self).peek()),
    {
        let id = self.id;
        self.id = if self.id == u64::MAX {
            0
        } else {
            self.id + 1
        };
        id
    }

    /// Hands out the next `n` identifiers, in order.
    pub fn take(&mut self, n: usize) -> (r: Vec<u64>)
        ensures
            r@ == ids_from(old(self).peek(), n as nat),
            final(self).peek() == advance(old(self).peek(), n as nat),
    {
        let mut out: Vec<u64> = Vec::new();
        let mut i: usize = 0;
        while i < n
            invariant
                i <= n,
                out@ == ids_from(old(self).peek(), i as nat),
                self.peek() == advance(old(self).peek(), i as nat),
            decreases n - i,
        {
            let id = self.next();
            out.push(id);
            assert(out@ =~= ids_from(old(self).peek(), (i + 1) as nat));
            i = i + 1;
        }
        out
    }
}

} // verus!
