//! A small collection of verified exercises built around one core component:
//! a fixed-size worker pool that executes submitted jobs on a bounded set of
//! workers sharing a single FIFO job queue.

pub mod adding;
pub mod command;
pub mod departments;
pub mod fib;
pub mod loops;
pub mod median_mode;
pub mod pig_latin;
pub mod pool;
pub mod rectangle;
pub mod shoes;
pub mod smart;
pub mod printer;
pub mod task;
pub mod task_list;
pub mod text;

use vstd::prelude::*;

verus! {

/// Relies on `rand::random`: draws a value of the wanted type from the
/// thread-local generator; nothing can be promised of the outcome.
pub assume_specification<T>[ rand::random::<T> ]() -> (r: T)
    where
        rand::distr::StandardUniform: rand::distr::Distribution<T>,
;

/// Adds one to a machine integer.
pub fn add_one(x: i32) -> (r: i32)
    requires
        x < i32::MAX,
    ensures
        r == x + 1,
{
    x + 1
}

/// Adds a freshly drawn random offset, wrapping around on overflow; which
/// offset is drawn is outside anyone's say.
pub fn add_rand(x: i32) -> i32 {
    let offset = rand::random::<i32>();
    x.wrapping_add(offset)
}

} // verus!
