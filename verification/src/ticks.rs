//! The decisions of the two tick programs: one counts down five work slices
//! on a thread, sleeping out what is left of each one-second slice; the other
//! prints a counter on each tick of a shared interval until it passes five.

use vstd::prelude::*;

verus! {

/// The two ways of ticking that the program offers.
#[derive(Debug, PartialEq, Eq, Structural)]
pub enum TickDemo {
    Atomic,
    Thread,
}

/// The program picks its way of ticking by number: 1 or 2, else none.
pub fn choose_demo(choice: u32) -> (r: Option<TickDemo>)
    ensures
        choice == 1 ==> r == Some(TickDemo::Atomic),
        choice == 2 ==> r == Some(TickDemo::Thread),
        choice != 1 && choice != 2 ==> r is None,
{
    match choice {
        1 => Some(TickDemo::Atomic),
        2 => Some(TickDemo::Thread),
        _ => None,
    }
}

/// One slice of the thread loop: with no slice left it stops, else it runs a
/// slice and counts down.
pub fn thread_tick_step(counter: i32) -> (r: Option<i32>)
    ensures
        counter <= 0 ==> r is None,
        counter > 0 ==> r == Some((counter - 1) as i32),
{
    if counter <= 0 {
        None
    } else {
        Some(counter - 1)
    }
}

/// What is left of a slice of `period` nanoseconds after the work took
/// `runtime`; nothing where the work overran it.
pub fn slice_remaining(period: u128, runtime: u128) -> (r: Option<u128>)
    ensures
        runtime <= period ==> r == Some((period - runtime) as u128),
        runtime > period ==> r is None,
{
    if runtime <= period {
        Some(period - runtime)
    } else {
        None
    }
}

/// The outcome of one turn of the interval loop.
pub struct AtomicTick {
    /// The counter after the turn.
    pub counter: i32,
    /// The value to print, on a tick.
    pub print: Option<i32>,
    /// Whether the loop ends.
    pub stop: bool,
}

/// One turn of the interval loop: on a tick it prints the counter and counts
/// up; it stops once the counter passes five.
pub fn atomic_tick_step(counter: i32, ticked: bool) -> (r: AtomicTick)
    requires
        ticked ==> counter < i32::MAX,
    ensures
        ticked ==> r.counter == counter + 1 && r.print == Some(counter),
        !ticked ==> r.counter == counter && r.print is None,
        r.stop == (r.counter > 5),
{
    let (next, print) = if ticked {
        (counter + 1, Some(counter))
    } else {
        (counter, None)
    };
    AtomicTick { counter: next, print, stop: next > 5 }
}

} // verus!
