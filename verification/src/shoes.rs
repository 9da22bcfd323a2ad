//! Filtering shoes by size.

use vstd::prelude::*;

verus! {

/// A shoe: a size and a style name.
#[derive(Debug)]
pub struct Shoe {
    pub size: u32,
    pub style: String,
}

impl PartialEq for Shoe {
    fn eq(&self, other: &Self) -> (r: bool) {
        self.size == other.size && self.style == other.style
    }
}

impl vstd::std_specs::cmp::PartialEqSpecImpl for Shoe {
    open spec fn obeys_eq_spec() -> bool {
        true
    }

    open spec fn eq_spec(&self, other: &Self) -> bool {
        self.size == other.size && self.style@ == other.style@
    }
}

/// Keeps exactly the shoes of the wanted size, in order.
pub fn shows_in_size(shoes: Vec<Shoe>, shoe_size: u32) -> (r: Vec<Shoe>)
    ensures
        r@ == shoes@.filter(|s: Shoe| s.size == shoe_size),
{
    let ghost orig = shoes@;
    let mut shoes = shoes;
    let n0 = shoes.len();
    let mut r: Vec<Shoe> = Vec::new();
    let mut i: usize = 0;
    proof {
        assert(orig.len() == n0);
        reveal(Seq::filter);
        assert(orig.subrange(0, 0) =~= Seq::<Shoe>::empty());
        assert(r@ =~= orig.subrange(0, 0).filter(|s: Shoe| s.size == shoe_size));
        assert(shoes@ =~= orig.subrange(0, orig.len() as int));
    }
    while shoes.len() > 0
        invariant
            orig.len() <= usize::MAX,
            i <= orig.len(),
            shoes@ =~= orig.subrange(i as int, orig.len() as int),
            r@ == orig.subrange(0, i as int).filter(|s: Shoe| s.size == shoe_size),
        decreases shoes@.len(),
    {
        let s = shoes.remove(0);
        proof {
            reveal(Seq::filter);
            assert(s == orig[i as int]);
            assert(orig.subrange(0, i + 1).drop_last() =~= orig.subrange(0, i as int));
            assert(orig.subrange(0, i + 1).last() == orig[i as int]);
            assert(shoes@ =~= orig.subrange(i + 1, orig.len() as int));
        }
        if s.size == shoe_size {
            r.push(s);
        }
        i = i + 1;
    }
    proof {
        assert(i == orig.len());
        assert(orig.subrange(0, orig.len() as int) =~= orig);
    }
    r
}

} // verus!
