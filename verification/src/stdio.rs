//! The decision of the line-copying program: each line read from standard
//! input goes to standard output with a newline.

use vstd::prelude::*;
use crate::process::LineEvent;

verus! {

/// What the copy loop does next.
pub enum CopyAction {
    /// Write this text and flush.
    Write(String),
    /// Nothing; read again.
    Idle,
    /// Report the read error and stop.
    Stop,
}

/// One turn of the copy loop.
pub fn copy_line_step(event: LineEvent) -> (r: CopyAction)
    ensures
        match event {
            LineEvent::Line(l) => r matches CopyAction::Write(w) && w@ == l@ + seq!['\n'],
            LineEvent::Closed => r is Idle,
            LineEvent::Failed => r is Stop,
        },
{
    match event {
        LineEvent::Line(l) => {
            let mut w = l;
            proof { reveal_strlit("\n"); }
            w.append("\n");
            CopyAction::Write(w)
        },
        LineEvent::Closed => CopyAction::Idle,
        LineEvent::Failed => CopyAction::Stop,
    }
}

/// What the copy loop writes for these lines, by `copy_line_step`: each line
/// followed by a newline.
pub open spec fn copied_text(lines: Seq<Seq<char>>) -> Seq<char>
    decreases lines.len(),
{
    if lines.len() == 0 {
        Seq::empty()
    } else {
        lines[0] + seq!['\n'] + copied_text(lines.subrange(1, lines.len() as int))
    }
}

/// The lines of `t`, where `cur` is the part of a line already read: a
/// newline ends a line and is dropped, and a last line without one still
/// counts. (For a text without carriage returns these are the lines that a
/// line reader gives.)
pub open spec fn lines_after(t: Seq<char>, cur: Seq<char>) -> Seq<Seq<char>>
    decreases t.len(),
{
    if t.len() == 0 {
        if cur.len() == 0 {
            Seq::empty()
        } else {
            seq![cur]
        }
    } else if t[0] == '\n' {
        seq![cur] + lines_after(t.subrange(1, t.len() as int), Seq::empty())
    } else {
        lines_after(t.subrange(1, t.len() as int), cur.push(t[0]))
    }
}

/// The lines of a text.
pub open spec fn text_lines(t: Seq<char>) -> Seq<Seq<char>> {
    lines_after(t, Seq::empty())
}

proof fn lemma_copied_lines_after(t: Seq<char>, cur: Seq<char>)
    requires
        (t.len() == 0 && cur.len() == 0) || (t.len() > 0 && t.last() == '\n'),
    ensures
        copied_text(lines_after(t, cur)) == cur + t,
    decreases t.len(),
{
    if t.len() == 0 {
        assert(cur + t =~= Seq::<char>::empty());
    } else {
        let rest = t.subrange(1, t.len() as int);
        if t[0] == '\n' {
            if rest.len() > 0 {
                assert(rest.last() == t.last());
            }
            lemma_copied_lines_after(rest, Seq::empty());
            let ls = lines_after(t, cur);
            assert(ls == seq![cur] + lines_after(rest, Seq::empty()));
            assert(ls[0] == cur);
            assert(ls.subrange(1, ls.len() as int) =~= lines_after(rest, Seq::empty()));
            assert(cur + seq!['\n'] + (Seq::<char>::empty() + rest) =~= cur + t);
        } else {
            assert(rest.len() > 0);
            assert(rest.last() == t.last());
            lemma_copied_lines_after(rest, cur.push(t[0]));
            assert(cur.push(t[0]) + rest =~= cur + t);
        }
    }
}

/// Copying a text line by line gives the text back, where it is empty or
/// ends with a newline.
pub proof fn law_copy_gives_back_text(t: Seq<char>)
    requires
        t.len() == 0 || t.last() == '\n',
    ensures
        copied_text(text_lines(t)) == t,
{
    lemma_copied_lines_after(t, Seq::empty());
    assert(Seq::<char>::empty() + t =~= t);
}

} // verus!
