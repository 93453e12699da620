//! The meaning of a line typed at the menu.

use vstd::prelude::*;
use vstd::string::*;

verus! {

/// What a line typed by the user asks of the menu.
#[derive(Debug, Clone, Copy, PartialEq, Eq, Structural)]
pub enum Command {
    /// Move the selection one option up.
    Up,
    /// Move the selection one option down.
    Down,
    /// Take the selected option.
    Submit,
    /// Nothing the menu knows.
    Unknown,
}

/// `c` is white space as Unicode defines it (`White_Space`): the characters
/// that trimming a string removes.
pub open spec fn is_blank(c: char) -> bool {
    let code = c as u32;
    ||| 0x09 <= code <= 0x0D
    ||| code == 0x20
    ||| code == 0x85
    ||| code == 0xA0
    ||| code == 0x1680
    ||| 0x2000 <= code <= 0x200A
    ||| code == 0x2028
    ||| code == 0x2029
    ||| code == 0x202F
    ||| code == 0x205F
    ||| code == 0x3000
}

/// `text` without the blank characters at its beginning.
pub open spec fn trim_start(text: Seq<char>) -> Seq<char>
    decreases text.len(),
{
    if text.len() > 0 && is_blank(text.first()) {
        trim_start(text.drop_first())
    } else {
        text
    }
}

/// `text` without the blank characters at its end.
pub open spec fn trim_end(text: Seq<char>) -> Seq<char>
    decreases text.len(),
{
    if text.len() > 0 && is_blank(text.last()) {
        trim_end(text.drop_last())
    } else {
        text
    }
}

/// `text` without the blank characters at its beginning and at its end.
pub open spec fn trimmed(text: Seq<char>) -> Seq<char> {
    trim_end(trim_start(text))
}

/// What `line` asks for: apart from blank characters around it, a `w` moves
/// up, an `s` moves down, in either case of the letter, nothing at all
/// submits, and anything else is not known.
pub open spec fn command_of(line: Seq<char>) -> Command {
    let word = trimmed(line);
    if word == seq!['w'] || word == seq!['W'] {
        Command::Up
    } else if word == seq!['s'] || word == seq!['S'] {
        Command::Down
    } else if word.len() == 0 {
        Command::Submit
    } else {
        Command::Unknown
    }
}

/// Whether `c` is a blank character.
fn blank(c: char) -> (is: bool)
    ensures
        is == is_blank(c),
{
    let code: u32 = c as u32;
    (0x09 <= code && code <= 0x0D) || code == 0x20 || code == 0x85 || code == 0xA0 || code
        == 0x1680 || (0x2000 <= code && code <= 0x200A) || code == 0x2028 || code == 0x2029
        || code == 0x202F || code == 0x205F || code == 0x3000
}

/// Where the first `count` characters of `text` are blank and the next one, if
/// there is one, is not, trimming the beginning drops exactly those `count`.
proof fn lemma_trim_start_skips(text: Seq<char>, count: int)
    requires
        0 <= count <= text.len(),
        forall|i: int| 0 <= i < count ==> is_blank(#[trigger] text[i]),
        count < text.len() ==> !is_blank(text[count]),
    ensures
        trim_start(text) == text.skip(count),
    decreases count,
{
    if count == 0 {
        assert(text.skip(0) =~= text);
    } else {
        let rest = text.drop_first();
        assert(is_blank(text[0]));
        assert forall|i: int| 0 <= i < count - 1 implies is_blank(#[trigger] rest[i]) by {
            assert(rest[i] == text[i + 1]);
        }
        lemma_trim_start_skips(rest, count - 1);
        assert(rest.skip(count - 1) =~= text.skip(count));
    }
}

/// Where the characters of `text` from place `count` on are blank and the one
/// before them, if there is one, is not, trimming the end keeps exactly the
/// first `count`.
proof fn lemma_trim_end_takes(text: Seq<char>, count: int)
    requires
        0 <= count <= text.len(),
        forall|i: int| count <= i < text.len() ==> is_blank(#[trigger] text[i]),
        count > 0 ==> !is_blank(text[count - 1]),
    ensures
        trim_end(text) == text.take(count),
    decreases text.len() - count,
{
    if count == text.len() {
        assert(text.take(count) =~= text);
    } else {
        let rest = text.drop_last();
        assert(is_blank(text[text.len() - 1]));
        lemma_trim_end_takes(rest, count);
        assert(rest.take(count) =~= text.take(count));
    }
}

/// What is left of `text` after trimming, told by the places of its first and
/// its last character that is not blank.
proof fn lemma_trimmed_between(text: Seq<char>, first: int, last: int)
    requires
        0 <= first <= last < text.len(),
        forall|i: int| 0 <= i < first ==> is_blank(#[trigger] text[i]),
        forall|i: int| last < i < text.len() ==> is_blank(#[trigger] text[i]),
        !is_blank(text[first]),
        !is_blank(text[last]),
    ensures
        trimmed(text) == text.subrange(first, last + 1),
{
    lemma_trim_start_skips(text, first);
    let tail = text.skip(first);
    assert forall|i: int| last + 1 - first <= i < tail.len() implies is_blank(
        #[trigger] tail[i],
    ) by {
        assert(tail[i] == text[i + first]);
    }
    assert(tail[last - first] == text[last]);
    lemma_trim_end_takes(tail, last + 1 - first);
    assert(tail.take(last + 1 - first) =~= text.subrange(first, last + 1));
}

/// Trimming a text of blank characters leaves nothing.
proof fn lemma_trimmed_blank(text: Seq<char>)
    requires
        forall|i: int| 0 <= i < text.len() ==> is_blank(#[trigger] text[i]),
    ensures
        trimmed(text) == Seq::<char>::empty(),
{
    lemma_trim_start_skips(text, text.len() as int);
    assert(text.skip(text.len() as int) =~= Seq::<char>::empty());
}

impl Command {
    /// Reads what `line` asks for.
    pub fn from_line(line: &str) -> (command: Command)
        ensures
            command == command_of(line@),
    {
        // The first character that is not blank, and whether another one
        // follows it: that decides whether the trimmed line is empty, one
        // character or more.
        let mut first: Option<char> = None;
        let mut more: bool = false;
        let ghost mut first_at: int = 0;
        let ghost mut last_at: int = 0;
        for c in chars: line.chars()
            invariant
                chars.seq() == line@,
                first is None ==> !more && forall|i: int|
                    0 <= i < chars.index() ==> is_blank(#[trigger] line@[i]),
                first is Some ==> {
                    &&& 0 <= first_at <= last_at < chars.index()
                    &&& line@[first_at] == first->0
                    &&& !is_blank(line@[first_at])
                    &&& !is_blank(line@[last_at])
                    &&& more == (first_at < last_at)
                    &&& forall|i: int| 0 <= i < first_at ==> is_blank(#[trigger] line@[i])
                    &&& forall|i: int|
                        last_at < i < chars.index() ==> is_blank(#[trigger] line@[i])
                },
        {
            if !blank(c) {
                if first.is_none() {
                    first = Some(c);
                    proof {
                        first_at = chars.index() as int;
                    }
                } else {
                    more = true;
                }
                proof {
                    last_at = chars.index() as int;
                }
            }
        }
        proof {
            if first is Some {
                lemma_trimmed_between(line@, first_at, last_at);
                assert(trimmed(line@).len() == last_at - first_at + 1);
                assert(trimmed(line@)[0] == first->0);
                if !more {
                    assert(trimmed(line@) =~= seq![first->0]);
                }
            } else {
                lemma_trimmed_blank(line@);
            }
        }
        match first {
            None => Command::Submit,
            Some(letter) => {
                if more {
                    Command::Unknown
                } else if letter == 'w' || letter == 'W' {
                    Command::Up
                } else if letter == 's' || letter == 'S' {
                    Command::Down
                } else {
                    Command::Unknown
                }
            },
        }
    }
}

} // verus!
