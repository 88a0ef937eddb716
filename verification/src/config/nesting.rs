//! How deeply values nest in a TOML text.

use vstd::prelude::*;

use crate::text::chars_of;

verus! {

/// What a place in a text belongs to. A quote is `"` or `'`.
#[derive(Debug, Clone, Copy, PartialEq, Eq, Structural)]
pub enum Mode {
    /// Neither a string nor a comment.
    Plain,
    /// A comment, which goes on to the end of its line.
    Comment,
    /// Behind a quote that opens a string.
    OneQuote(char),
    /// Behind two quotes: an empty string, or the opening of one that may span lines.
    TwoQuotes(char),
    /// In a string on one line.
    Line(char),
    /// Behind a backslash in such a string.
    LineEscape,
    /// In a string that may span lines, behind no quote, one or two.
    Block(char, u8),
    /// Behind a backslash in such a string.
    BlockEscape,
    /// Behind the quotes that close such a string, and none, one or two more, which still
    /// belong to it.
    BlockEnd(char, u8),
}

impl Mode {
    /// What the character `c` at this place belongs to.
    pub open spec fn settled(self, c: char) -> Mode {
        match self {
            Mode::OneQuote(q) => if c == q {
                self
            } else {
                Mode::Line(q)
            },
            Mode::TwoQuotes(q) => if c == q {
                self
            } else {
                Mode::Plain
            },
            Mode::BlockEnd(q, more) => if c == q && more < 2 {
                self
            } else {
                Mode::Plain
            },
            _ => self,
        }
    }

    /// What the place behind the character `c` belongs to.
    pub open spec fn after(self, c: char) -> Mode {
        match self.settled(c) {
            Mode::Plain => if c == '"' || c == '\'' {
                Mode::OneQuote(c)
            } else if c == '#' {
                Mode::Comment
            } else {
                Mode::Plain
            },
            Mode::Comment => if c == '\n' {
                Mode::Plain
            } else {
                Mode::Comment
            },
            Mode::OneQuote(q) => Mode::TwoQuotes(q),
            Mode::TwoQuotes(q) => Mode::Block(q, 0),
            Mode::Line(q) => if c == q || c == '\n' {
                Mode::Plain
            } else if c == '\\' && q == '"' {
                Mode::LineEscape
            } else {
                Mode::Line(q)
            },
            Mode::LineEscape => Mode::Line('"'),
            Mode::Block(q, n) => if c == q {
                if n < 2 {
                    Mode::Block(q, (n + 1) as u8)
                } else {
                    Mode::BlockEnd(q, 0)
                }
            } else if c == '\\' && q == '"' {
                Mode::BlockEscape
            } else {
                Mode::Block(q, 0)
            },
            Mode::BlockEscape => Mode::Block('"', 0),
            Mode::BlockEnd(q, more) => Mode::BlockEnd(q, (more + 1) as u8),
        }
    }

    /// What the character `c` at this place belongs to.
    fn settle(self, c: char) -> (mode: Mode)
        ensures
            mode == self.settled(c),
    {
        match self {
            Mode::OneQuote(q) => if c == q {
                self
            } else {
                Mode::Line(q)
            },
            Mode::TwoQuotes(q) => if c == q {
                self
            } else {
                Mode::Plain
            },
            Mode::BlockEnd(q, more) => if c == q && more < 2 {
                self
            } else {
                Mode::Plain
            },
            _ => self,
        }
    }

    /// What the place behind the character `c` belongs to.
    fn advance(self, c: char) -> (mode: Mode)
        ensures
            mode == self.after(c),
    {
        match self.settle(c) {
            Mode::Plain => if c == '"' || c == '\'' {
                Mode::OneQuote(c)
            } else if c == '#' {
                Mode::Comment
            } else {
                Mode::Plain
            },
            Mode::Comment => if c == '\n' {
                Mode::Plain
            } else {
                Mode::Comment
            },
            Mode::OneQuote(q) => Mode::TwoQuotes(q),
            Mode::TwoQuotes(q) => Mode::Block(q, 0),
            Mode::Line(q) => if c == q || c == '\n' {
                Mode::Plain
            } else if c == '\\' && q == '"' {
                Mode::LineEscape
            } else {
                Mode::Line(q)
            },
            Mode::LineEscape => Mode::Line('"'),
            Mode::Block(q, n) => if c == q {
                if n < 2 {
                    Mode::Block(q, n + 1)
                } else {
                    Mode::BlockEnd(q, 0)
                }
            } else if c == '\\' && q == '"' {
                Mode::BlockEscape
            } else {
                Mode::Block(q, 0)
            },
            Mode::BlockEscape => Mode::Block('"', 0),
            Mode::BlockEnd(q, more) => Mode::BlockEnd(q, more + 1),
        }
    }
}

/// What the end of a text belongs to.
pub open spec fn mode_at(text: Seq<char>) -> Mode
    decreases text.len(),
{
    if text.len() == 0 {
        Mode::Plain
    } else {
        mode_at(text.drop_last()).after(text.last())
    }
}

/// Whether the last character of a text is outside strings and comments.
pub open spec fn ends_plainly(text: Seq<char>) -> bool {
    mode_at(text.drop_last()).settled(text.last()) == Mode::Plain
}

/// How many brackets and braces, outside strings and comments, are open at the end of a text.
pub open spec fn open_at(text: Seq<char>) -> nat
    decreases text.len(),
{
    if text.len() == 0 {
        0
    } else {
        let before = open_at(text.drop_last());
        if !ends_plainly(text) {
            before
        } else if text.last() == '[' || text.last() == '{' {
            before + 1
        } else if (text.last() == ']' || text.last() == '}') && before > 0 {
            (before - 1) as nat
        } else {
            before
        }
    }
}

/// Whether a character, outside strings and comments, cannot stand in a key.
pub open spec fn ends_key(c: char) -> bool {
    c == '=' || c == ',' || c == '\n' || c == '[' || c == '{' || c == ']' || c == '}'
}

/// How many dots, outside strings and comments, the key at the end of a text holds.
pub open spec fn key_dots_at(text: Seq<char>) -> nat
    decreases text.len(),
{
    if text.len() == 0 {
        0
    } else {
        let before = key_dots_at(text.drop_last());
        if !ends_plainly(text) {
            if text.last() == '\n' {
                0
            } else {
                before
            }
        } else if ends_key(text.last()) {
            0
        } else if text.last() == '.' {
            before + 1
        } else {
            before
        }
    }
}

/// Whether no more than `most` brackets and braces are open anywhere in a text.
pub open spec fn opens_at_most(text: Seq<char>, most: int) -> bool {
    forall|i: int| 0 <= i <= text.len() ==> open_at(#[trigger] text.take(i)) <= most
}

/// Whether no key of a text holds more than `most` dots.
pub open spec fn dots_at_most(text: Seq<char>, most: int) -> bool {
    forall|i: int| 0 <= i <= text.len() ==> key_dots_at(#[trigger] text.take(i)) <= most
}

/// How many brackets and braces may be open at one point of a text.
pub const MAX_OPEN: usize = 128;

/// How many dots a key may hold.
pub const MAX_DOTS: usize = 15;

/// Whether values do not nest deeply in a text: few brackets and braces are open at one point,
/// and keys hold few dots. Strings and comments do not count.
pub open spec fn is_shallow(text: Seq<char>) -> bool {
    opens_at_most(text, MAX_OPEN as int) && dots_at_most(text, MAX_DOTS as int)
}

/// Whether values do not nest deeply in a text.
pub fn check_depth(text: &str) -> (shallow: bool)
    ensures
        shallow == is_shallow(text@),
{
    let chars = chars_of(text);
    let mut mode = Mode::Plain;
    let mut open: usize = 0;
    let mut dots: usize = 0;
    let mut i: usize = 0;
    assert(text@.take(0) =~= Seq::<char>::empty());
    while i < chars.len()
        invariant
            chars@ == text@,
            i <= text@.len(),
            mode == mode_at(text@.take(i as int)),
            open == open_at(text@.take(i as int)),
            dots == key_dots_at(text@.take(i as int)),
            forall|j: int| 0 <= j <= i ==> open_at(#[trigger] text@.take(j)) <= MAX_OPEN,
            forall|j: int| 0 <= j <= i ==> key_dots_at(#[trigger] text@.take(j)) <= MAX_DOTS,
        decreases text@.len() - i,
    {
        let c = chars[i];
        let ghost next = text@.take(i + 1);
        assert(next.drop_last() =~= text@.take(i as int));
        assert(next.last() == c);
        assert(open_at(text@.take(i as int)) <= MAX_OPEN);
        assert(key_dots_at(text@.take(i as int)) <= MAX_DOTS);
        if mode.settle(c) == Mode::Plain {
            if c == '[' || c == '{' {
                open += 1;
            } else if (c == ']' || c == '}') && open > 0 {
                open -= 1;
            }
            if c == '=' || c == ',' || c == '\n' || c == '[' || c == '{' || c == ']' || c == '}' {
                dots = 0;
            } else if c == '.' {
                dots += 1;
            }
        } else if c == '\n' {
            dots = 0;
        }
        mode = mode.advance(c);
        i += 1;
        if open > MAX_OPEN || dots > MAX_DOTS {
            assert(text@.take(i as int) == next);
            return false;
        }
    }
    true
}

/// What one more character does to a text.
proof fn one_more(text: Seq<char>, c: char)
    ensures
        text.push(c).drop_last() == text,
        text.push(c).last() == c,
        mode_at(text.push(c)) == mode_at(text).after(c),
        mode_at(text).settled(c) != Mode::Plain || (c != '[' && c != '{' && c != ']' && c != '}')
            ==> open_at(text.push(c)) == open_at(text),
{
    assert(text.push(c).drop_last() =~= text);
}

/// Outside strings and comments, a bracket or brace opens one level, a closing one closes one,
/// a dot adds to its key, and what cannot stand in a key ends it. Nothing else counts.
pub proof fn plain_characters_count(text: Seq<char>, c: char)
    requires
        mode_at(text) == Mode::Plain,
    ensures
        c == '[' || c == '{' ==> open_at(text.push(c)) == open_at(text) + 1,
        c == ']' || c == '}' ==> open_at(text.push(c)) == if open_at(text) == 0 {
            0
        } else {
            open_at(text) - 1
        },
        c != '[' && c != '{' && c != ']' && c != '}' ==> open_at(text.push(c)) == open_at(text),
        c == '.' ==> key_dots_at(text.push(c)) == key_dots_at(text) + 1,
        c == '=' || c == ',' || c == '\n' || c == '[' || c == '{' || c == ']' || c == '}'
            ==> key_dots_at(text.push(c)) == 0,
        c != '.' && c != '=' && c != ',' && c != '\n' && c != '[' && c != '{' && c != ']' && c
            != '}' ==> key_dots_at(text.push(c)) == key_dots_at(text),
        c != '"' && c != '\'' && c != '#' ==> mode_at(text.push(c)) == Mode::Plain,
        mode_at(Seq::empty()) == Mode::Plain,
        open_at(Seq::empty()) == 0,
        key_dots_at(Seq::empty()) == 0,
{
    one_more(text, c);
}

/// In a string on one line, nothing counts until it ends.
proof fn line_goes_on(text: Seq<char>, q: char, contents: Seq<char>)
    requires
        mode_at(text) == Mode::OneQuote(q),
        forall|i: int|
            0 <= i < contents.len() ==> contents[i] != q && contents[i] != '\n' && contents[i]
                != '\\',
    ensures
        mode_at(text + contents) == if contents.len() == 0 {
            Mode::OneQuote(q)
        } else {
            Mode::Line(q)
        },
        open_at(text + contents) == open_at(text),
        key_dots_at(text + contents) == key_dots_at(text),
    decreases contents.len(),
{
    if contents.len() == 0 {
        assert(text + contents =~= text);
    } else {
        let shorter = contents.drop_last();
        line_goes_on(text, q, shorter);
        assert((text + shorter).push(contents.last()) =~= text + contents);
        one_more(text + shorter, contents.last());
    }
}

/// A string on one line counts for nothing, whatever it holds.
pub proof fn strings_count_for_nothing(text: Seq<char>, q: char, contents: Seq<char>)
    requires
        mode_at(text) == Mode::Plain,
        q == '"' || q == '\'',
        contents.len() > 0,
        forall|i: int|
            0 <= i < contents.len() ==> contents[i] != q && contents[i] != '\n' && contents[i]
                != '\\',
    ensures
        mode_at((text.push(q) + contents).push(q)) == Mode::Plain,
        open_at((text.push(q) + contents).push(q)) == open_at(text),
        key_dots_at((text.push(q) + contents).push(q)) == key_dots_at(text),
        is_shallow((text.push(q) + contents).push(q)) <==> is_shallow(text),
{
    one_more(text, q);
    let begun = text.push(q);
    line_goes_on(begun, q, contents);
    one_more(begun + contents, q);
    let whole = (begun + contents).push(q);
    assert forall|i: int| 0 <= i <= whole.len() implies if i <= text.len() {
        #[trigger] whole.take(i) == text.take(i)
    } else {
        open_at(whole.take(i)) == open_at(text) && key_dots_at(whole.take(i)) == key_dots_at(text)
    } by {
        if i <= text.len() {
            assert(whole.take(i) =~= text.take(i));
        } else if i < whole.len() {
            let part = contents.take(i - begun.len());
            assert(whole.take(i) =~= begun + part);
            line_goes_on(begun, q, part);
        } else {
            assert(whole.take(i) =~= whole);
        }
    }
    assert(text.take(text.len() as int) =~= text);
    if is_shallow(text) {
        assert forall|i: int| 0 <= i <= whole.len() implies open_at(#[trigger] whole.take(i))
            <= MAX_OPEN && key_dots_at(whole.take(i)) <= MAX_DOTS by {
            assert(open_at(text.take(text.len() as int)) <= MAX_OPEN);
            assert(key_dots_at(text.take(text.len() as int)) <= MAX_DOTS);
            if i <= text.len() {
                assert(open_at(text.take(i)) <= MAX_OPEN);
                assert(key_dots_at(text.take(i)) <= MAX_DOTS);
            }
        }
    }
    if is_shallow(whole) {
        assert forall|i: int| 0 <= i <= text.len() implies open_at(#[trigger] text.take(i))
            <= MAX_OPEN && key_dots_at(text.take(i)) <= MAX_DOTS by {
            assert(whole.take(i) == text.take(i));
            assert(open_at(whole.take(i)) <= MAX_OPEN);
            assert(key_dots_at(whole.take(i)) <= MAX_DOTS);
        }
    }
}

/// A comment counts for nothing, whatever it holds, and ends with its line.
pub proof fn comments_count_for_nothing(text: Seq<char>, contents: Seq<char>)
    requires
        mode_at(text) == Mode::Plain,
        forall|i: int| 0 <= i < contents.len() ==> contents[i] != '\n',
    ensures
        mode_at(text.push('#') + contents) == Mode::Comment,
        mode_at((text.push('#') + contents).push('\n')) == Mode::Plain,
        open_at((text.push('#') + contents).push('\n')) == open_at(text),
        open_at(text.push('#') + contents) == open_at(text),
        key_dots_at(text.push('#') + contents) == key_dots_at(text),
    decreases contents.len(),
{
    let whole = text.push('#') + contents;
    one_more(text, '#');
    if contents.len() == 0 {
        assert(whole =~= text.push('#'));
    } else {
        let shorter = contents.drop_last();
        comments_count_for_nothing(text, shorter);
        assert((text.push('#') + shorter).push(contents.last()) =~= whole);
        one_more(text.push('#') + shorter, contents.last());
    }
    one_more(whole, '\n');
}

/// In a string that may span lines, nothing counts until it ends.
proof fn block_goes_on(text: Seq<char>, q: char, contents: Seq<char>)
    requires
        mode_at(text) == Mode::Block(q, 0),
        forall|i: int| 0 <= i < contents.len() ==> contents[i] != q && contents[i] != '\\',
    ensures
        mode_at(text + contents) == Mode::Block(q, 0),
        open_at(text + contents) == open_at(text),
    decreases contents.len(),
{
    if contents.len() == 0 {
        assert(text + contents =~= text);
    } else {
        let shorter = contents.drop_last();
        block_goes_on(text, q, shorter);
        assert((text + shorter).push(contents.last()) =~= text + contents);
        one_more(text + shorter, contents.last());
    }
}

/// A string in three quotes opens nothing, whatever it holds.
pub proof fn blocks_open_nothing(text: Seq<char>, q: char, contents: Seq<char>, next: char)
    requires
        mode_at(text) == Mode::Plain,
        q == '"' || q == '\'',
        forall|i: int| 0 <= i < contents.len() ==> contents[i] != q && contents[i] != '\\',
        next == ' ' || next == '\n',
    ensures
        mode_at((text.push(q).push(q).push(q) + contents).push(q).push(q).push(q).push(next))
            == Mode::Plain,
        open_at((text.push(q).push(q).push(q) + contents).push(q).push(q).push(q).push(next))
            == open_at(text),
{
    one_more(text, q);
    one_more(text.push(q), q);
    one_more(text.push(q).push(q), q);
    let begun = text.push(q).push(q).push(q);
    block_goes_on(begun, q, contents);
    let full = begun + contents;
    one_more(full, q);
    one_more(full.push(q), q);
    one_more(full.push(q).push(q), q);
    one_more(full.push(q).push(q).push(q), next);
}

/// A text without brackets, braces and dots is shallow.
pub proof fn flat_texts_are_shallow(text: Seq<char>)
    requires
        forall|i: int|
            0 <= i < text.len() ==> text[i] != '[' && text[i] != '{' && text[i] != '.',
    ensures
        is_shallow(text),
        open_at(text) == 0,
        key_dots_at(text) == 0,
    decreases text.len(),
{
    if text.len() > 0 {
        flat_texts_are_shallow(text.drop_last());
        let shorter = text.drop_last();
        assert forall|i: int| 0 <= i <= text.len() implies open_at(#[trigger] text.take(i)) == 0
            && key_dots_at(text.take(i)) == 0 by {
            if i < text.len() {
                assert(text.take(i) =~= shorter.take(i));
                flat_texts_are_shallow(text.take(i));
            } else {
                assert(text.take(i) =~= text);
            }
        }
    } else {
        assert(text.take(0) =~= text);
    }
}

/// Every beginning of a shallow text is shallow.
pub proof fn beginnings_are_shallow(text: Seq<char>, more: Seq<char>)
    requires
        is_shallow(text + more),
    ensures
        is_shallow(text),
{
    assert forall|i: int| 0 <= i <= text.len() implies open_at(#[trigger] text.take(i)) <= MAX_OPEN
        && key_dots_at(text.take(i)) <= MAX_DOTS by {
        assert((text + more).take(i) =~= text.take(i));
        assert(open_at((text + more).take(i)) <= MAX_OPEN);
        assert(key_dots_at((text + more).take(i)) <= MAX_DOTS);
    }
}

} // verus!
