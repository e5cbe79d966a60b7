//! The decisions of the two child-process programs: one feeds `cat` a
//! counter once a second and echoes what comes back; the other feeds a line
//! filter numbered messages and reports the lines it lets through.

use vstd::prelude::*;
use crate::text::{append_decimal, decimal_int};

verus! {

/// What happened while the program waited on `cat`.
pub enum CatEvent {
    /// The one-second interval ticked.
    Tick,
    /// A read of `cat`'s output returned this many bytes.
    Output(usize),
    /// A read of `cat`'s output failed.
    ReadFailed,
    /// `cat` exited.
    ChildExited,
    /// Waiting for `cat` failed.
    WaitFailed,
}

/// What the program does next.
pub enum CatAction {
    /// Write this text to `cat`'s input.
    Write(String),
    /// Close `cat`'s input.
    Shutdown,
    /// Print the first this many bytes read back.
    PrintOutput(usize),
    /// Nothing; wait again.
    Idle,
    /// Report the read error and stop.
    StopReadFailed,
    /// Report the exit status and stop.
    StopChildExited,
    /// Report the wait error and stop.
    StopWaitFailed,
}

/// One turn of the `cat` loop: each tick counts up; the first nine ticks
/// write the count and a newline, later ticks close `cat`'s input.
pub fn cat_io_step(counter: i32, event: CatEvent) -> (r: (i32, CatAction))
    requires
        event is Tick ==> counter < i32::MAX,
    ensures
        event is Tick ==> r.0 == counter + 1,
        !(event is Tick) ==> r.0 == counter,
        match event {
            CatEvent::Tick => if counter + 1 < 10 {
                r.1 matches CatAction::Write(m) && m@ == decimal_int(counter + 1) + seq!['\n']
            } else {
                r.1 is Shutdown
            },
            CatEvent::Output(n) => if n != 0 {
                r.1 == CatAction::PrintOutput(n)
            } else {
                r.1 is Idle
            },
            CatEvent::ReadFailed => r.1 is StopReadFailed,
            CatEvent::ChildExited => r.1 is StopChildExited,
            CatEvent::WaitFailed => r.1 is StopWaitFailed,
        },
{
    match event {
        CatEvent::Tick => {
            let next = counter + 1;
            if next < 10 {
                let mut msg = String::new();
                append_decimal(&mut msg, next as i64);
                proof { reveal_strlit("\n"); }
                msg.append("\n");
                (next, CatAction::Write(msg))
            } else {
                (next, CatAction::Shutdown)
            }
        },
        CatEvent::Output(n) => if n != 0 {
            (counter, CatAction::PrintOutput(n))
        } else {
            (counter, CatAction::Idle)
        },
        CatEvent::ReadFailed => (counter, CatAction::StopReadFailed),
        CatEvent::ChildExited => (counter, CatAction::StopChildExited),
        CatEvent::WaitFailed => (counter, CatAction::StopWaitFailed),
    }
}

/// The text of the filter's `i`-th message: even-numbered messages start with
/// `#`, which the filter lets through.
pub open spec fn filter_text(i: int) -> Seq<char> {
    (if i % 2 == 0 { seq!['#'] } else { Seq::<char>::empty() }) + seq!['m', 's', 'g', ':', ' ']
        + decimal_int(i) + seq!['\n']
}

/// The message written to the filter for the `i`-th tick.
pub fn filter_message(i: i32) -> (r: String)
    ensures
        r@ == filter_text(i as int),
{
    let mut msg = String::new();
    if i % 2 == 0 {
        proof { reveal_strlit("#"); }
        msg.append("#");
    }
    proof { reveal_strlit("msg: "); }
    msg.append("msg: ");
    append_decimal(&mut msg, i as i64);
    proof { reveal_strlit("\n"); }
    msg.append("\n");
    msg
}

/// The number of the first message written to the filter.
pub const FILTER_FIRST_MESSAGE: i32 = 1;

/// One turn of the writer: while `next` is below ten it writes message
/// `next` and moves on to the following number; then it is done.
pub fn filter_writer_step(next: i32) -> (r: Option<(i32, String)>)
    ensures
        next < 10 ==> (r matches Some((n, m)) && n == next + 1 && m@ == filter_text(next as int)),
        next >= 10 ==> r is None,
{
    if next < 10 {
        Some((next + 1, filter_message(next)))
    } else {
        None
    }
}

/// The messages the writer writes from `next` on, one per turn of
/// `filter_writer_step`, until it is done.
pub open spec fn writer_run(next: int) -> Seq<Seq<char>>
    decreases 10 - next,
{
    if next < 10 {
        seq![filter_text(next)] + writer_run(next + 1)
    } else {
        Seq::empty()
    }
}

proof fn lemma_writer_run(next: int)
    requires
        next <= 10,
    ensures
        writer_run(next) == Seq::new((10 - next) as nat, |j: int| filter_text(next + j)),
    decreases 10 - next,
{
    if next < 10 {
        lemma_writer_run(next + 1);
        assert(writer_run(next) =~= Seq::new((10 - next) as nat, |j: int| filter_text(next + j)));
    } else {
        assert(writer_run(next) =~= Seq::new(0, |j: int| filter_text(next + j)));
    }
}

/// Starting from the first message, the writer writes exactly the messages
/// numbered 1 to 9, in order.
pub proof fn law_filter_writer_sends_one_to_nine()
    ensures
        writer_run(FILTER_FIRST_MESSAGE as int) == Seq::new(9, |j: int| filter_text(j + 1)),
{
    lemma_writer_run(1);
    assert(writer_run(1) =~= Seq::new(9, |j: int| filter_text(j + 1)));
}

/// What a line reader gave.
pub enum LineEvent {
    Line(String),
    /// The stream ended.
    Closed,
    /// Reading failed.
    Failed,
}

/// What happened while the program waited on the filter.
pub enum FilterEvent {
    Stdout(LineEvent),
    Stderr(LineEvent),
    ChildExited,
    WaitFailed,
}

/// What the program does next.
pub enum FilterAction {
    /// Print this line.
    Print(String),
    /// Nothing; wait again.
    Idle,
    /// Log the read error and stop.
    StopReadFailed,
    /// Report the exit status and stop.
    StopChildExited,
    /// Log the wait error and stop.
    StopWaitFailed,
}

/// One turn of the filter loop: lines are printed with the name of their
/// stream in front; a failed read or the child's end stops the loop.
pub fn filter_step(event: FilterEvent) -> (r: FilterAction)
    ensures
        match event {
            FilterEvent::Stdout(LineEvent::Line(l)) => r matches FilterAction::Print(p)
                && p@ == seq!['S', 't', 'd', 'o', 'u', 't', ':', ' '] + l@,
            FilterEvent::Stderr(LineEvent::Line(l)) => r matches FilterAction::Print(p)
                && p@ == seq!['S', 't', 'd', 'e', 'r', 'r', ':', ' '] + l@,
            FilterEvent::Stdout(LineEvent::Closed) => r is Idle,
            FilterEvent::Stderr(LineEvent::Closed) => r is Idle,
            FilterEvent::Stdout(LineEvent::Failed) => r is StopReadFailed,
            FilterEvent::Stderr(LineEvent::Failed) => r is StopReadFailed,
            FilterEvent::ChildExited => r is StopChildExited,
            FilterEvent::WaitFailed => r is StopWaitFailed,
        },
{
    match event {
        FilterEvent::Stdout(LineEvent::Line(l)) => {
            proof { reveal_strlit("Stdout: "); }
            let mut p = String::from_str("Stdout: ");
            p.append(l.as_str());
            FilterAction::Print(p)
        },
        FilterEvent::Stderr(LineEvent::Line(l)) => {
            proof { reveal_strlit("Stderr: "); }
            let mut p = String::from_str("Stderr: ");
            p.append(l.as_str());
            FilterAction::Print(p)
        },
        FilterEvent::Stdout(LineEvent::Closed) => FilterAction::Idle,
        FilterEvent::Stderr(LineEvent::Closed) => FilterAction::Idle,
        FilterEvent::Stdout(LineEvent::Failed) => FilterAction::StopReadFailed,
        FilterEvent::Stderr(LineEvent::Failed) => FilterAction::StopReadFailed,
        FilterEvent::ChildExited => FilterAction::StopChildExited,
        FilterEvent::WaitFailed => FilterAction::StopWaitFailed,
    }
}

} // verus!
