//! Building text one character at a time.

use vstd::prelude::*;

verus! {

/// `String::push` of the standard library: the string afterwards is the
/// string before with `ch` added at its end.
pub assume_specification[ String::push ](s: &mut String, ch: char)
    ensures
        final(s)@ == old(s)@.push(ch),
;

/// `count` copies of `ch`.
pub open spec fn repeated(ch: char, count: nat) -> Seq<char> {
    Seq::new(count, |i: int| ch)
}

/// Appends `count` copies of `ch` to `out`.
pub fn push_repeated(out: &mut String, ch: char, count: u64)
    ensures
        final(out)@ == old(out)@ + repeated(ch, count as nat),
{
    let mut done: u64 = 0;
    while done < count
        invariant
            done <= count,
            out@ == old(out)@ + repeated(ch, done as nat),
        decreases count - done,
    {
        out.push(ch);
        done += 1;
        assert(out@ =~= old(out)@ + repeated(ch, done as nat));
    }
}

} // verus!
