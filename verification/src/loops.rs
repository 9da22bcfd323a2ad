//! Loop demonstrations, each reduced to the value or sequence it produces;
//! showing them on the console is the embedding program's work.

use vstd::prelude::*;

verus! {

/// Counts up to ten and doubles the count on the way out.
pub fn loop_with_result() -> (r: i32)
    ensures
        r == 20,
{
    let mut counter: i32 = 0;
    loop
        invariant_except_break
            0 <= counter < 10,
        ensures
            counter == 10,
        decreases 10 - counter,
    {
        counter = counter + 1;
        if counter == 10 {
            break;
        }
    }
    counter * 2
}

/// Counts outer rounds while an inner countdown keeps breaking out early;
/// the third round stops everything.
pub fn loop_with_labels() -> (r: i32)
    ensures
        r == 2,
{
    let mut count: i32 = 0;
    loop
        invariant_except_break
            0 <= count <= 2,
        ensures
            count == 2,
        decreases 2 - count,
    {
        let mut remaining: i32 = 10;
        let mut stop = false;
        loop
            invariant_except_break
                9 <= remaining <= 10,
                remaining == 9 ==> count != 2,
                !stop,
            ensures
                stop == (count == 2),
                9 <= remaining <= 10,
            decreases remaining,
        {
            if remaining == 9 {
                break;
            }
            if count == 2 {
                stop = true;
                break;
            }
            remaining = remaining - 1;
        }
        if stop {
            break;
        }
        count = count + 1;
    }
    count
}

/// Counts down from three, collecting each call before liftoff.
pub fn loop_with_condition() -> (r: Vec<i32>)
    ensures
        r@ == seq![3i32, 2i32, 1i32],
{
    let mut number: i32 = 3;
    let mut r: Vec<i32> = Vec::new();
    while number != 0
        invariant
            0 <= number <= 3,
            r@ =~= seq![3i32, 2i32, 1i32].subrange(0, 3 - number),
        decreases number,
    {
        r.push(number);
        proof {
            assert(r@ =~= seq![3i32, 2i32, 1i32].subrange(0, 3 - number + 1));
        }
        number = number - 1;
    }
    proof {
        assert(r@ =~= seq![3i32, 2i32, 1i32]);
    }
    r
}

/// Walks a fixed array, collecting each element in order.
pub fn loop_collection_with_for() -> (r: Vec<i32>)
    ensures
        r@ == seq![10i32, 20i32, 30i32, 40i32, 50i32],
{
    let a: [i32; 5] = [10, 20, 30, 40, 50];
    let mut r: Vec<i32> = Vec::new();
    let mut i: usize = 0;
    while i < 5
        invariant
            i <= 5,
            a@ =~= seq![10i32, 20i32, 30i32, 40i32, 50i32],
            r@ =~= a@.subrange(0, i as int),
        decreases 5 - i,
    {
        r.push(a[i]);
        proof {
            assert(r@ =~= a@.subrange(0, i + 1));
        }
        i = i + 1;
    }
    proof {
        assert(r@ =~= a@);
    }
    r
}

/// Walks a reversed range, collecting each number before liftoff.
pub fn loop_range() -> (r: Vec<i32>)
    ensures
        r@ == seq![3i32, 2i32, 1i32],
{
    let mut number: i32 = 3;
    let mut r: Vec<i32> = Vec::new();
    while number >= 1
        invariant
            0 <= number <= 3,
            r@ =~= seq![3i32, 2i32, 1i32].subrange(0, 3 - number),
        decreases number,
    {
        r.push(number);
        proof {
            assert(r@ =~= seq![3i32, 2i32, 1i32].subrange(0, 3 - number + 1));
        }
        number = number - 1;
    }
    proof {
        assert(r@ =~= seq![3i32, 2i32, 1i32]);
    }
    r
}

} // verus!
