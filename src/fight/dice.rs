//! Where the engine's chance comes from: the system's random source, or a
//! fixed list of values given beforehand.

use vstd::prelude::*;

verus! {

/// Relies on rand::random::<u64>: a value drawn from the thread's random
/// source. Nothing is promised of it.
#[verifier::external_body]
fn random_u64() -> (r: u64) {
    rand::random::<u64>()
}

/// A source of raw random values. A scripted source hands out its values in
/// order, then draws from the random source.
pub struct Dice {
    script: Vec<u64>,
    next: usize,
    drawn: Ghost<Seq<u64>>,
}

impl Dice {
    /// Every value handed out so far, in order.
    pub closed spec fn drawn(&self) -> Seq<u64> {
        self.drawn@
    }

    /// The scripted values not handed out yet.
    pub closed spec fn script_left(&self) -> Seq<u64> {
        if self.next <= self.script@.len() {
            self.script@.subrange(self.next as int, self.script@.len() as int)
        } else {
            Seq::empty()
        }
    }

    /// A source that draws every value at random.
    pub fn random() -> (r: Dice)
        ensures
            r.drawn() == Seq::<u64>::empty(),
            r.script_left() == Seq::<u64>::empty(),
    {
        let r = Dice { script: Vec::new(), next: 0, drawn: Ghost(Seq::empty()) };
        assert(r.script_left() =~= Seq::<u64>::empty());
        r
    }

    /// A source that hands out `values` first, in order.
    pub fn scripted(values: Vec<u64>) -> (r: Dice)
        ensures
            r.drawn() == Seq::<u64>::empty(),
            r.script_left() == values@,
    {
        let r = Dice { script: values, next: 0, drawn: Ghost(Seq::empty()) };
        assert(r.script_left() =~= values@);
        r
    }

    /// Hands out the next value.
    pub fn draw(&mut self) -> (r: u64)
        ensures
            final(self).drawn() == old(self).drawn().push(r),
            old(self).script_left().len() > 0 ==> {
                &&& r == old(self).script_left()[0]
                &&& final(self).script_left() == old(self).script_left().drop_first()
            },
            old(self).script_left().len() == 0 ==> final(self).script_left().len() == 0,
    {
        let r = if self.next < self.script.len() {
            let v = self.script[self.next];
            self.next = self.next + 1;
            v
        } else {
            random_u64()
        };
        self.drawn = Ghost(self.drawn@.push(r));
        proof {
            if old(self).script_left().len() > 0 {
                assert(final(self).script_left() =~= old(self).script_left().drop_first());
            }
        }
        r
    }
}

} // verus!
