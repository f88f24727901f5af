//! Player names and chat lines as character sequences.

use vstd::prelude::*;
use vstd::string::*;

verus! {

/// The characters that trimming removes: the NUL that pads a string field,
/// and Unicode white space.
pub open spec fn is_blank(c: char) -> bool {
    let v = c as u32;
    ||| v == 0
    ||| 0x09 <= v <= 0x0d
    ||| v == 0x20
    ||| v == 0x85
    ||| v == 0xa0
    ||| v == 0x1680
    ||| 0x2000 <= v <= 0x200a
    ||| v == 0x2028
    ||| v == 0x2029
    ||| v == 0x202f
    ||| v == 0x205f
    ||| v == 0x3000
}

/// `s` without its leading blanks.
pub open spec fn skip_blanks(s: Seq<char>) -> Seq<char>
    decreases s.len(),
{
    if s.len() > 0 && is_blank(s[0]) {
        skip_blanks(s.drop_first())
    } else {
        s
    }
}

/// `s` without its trailing blanks.
pub open spec fn drop_blanks(s: Seq<char>) -> Seq<char>
    decreases s.len(),
{
    if s.len() > 0 && is_blank(s.last()) {
        drop_blanks(s.drop_last())
    } else {
        s
    }
}

/// `s` without the blanks at either end.
pub open spec fn trimmed(s: Seq<char>) -> Seq<char> {
    drop_blanks(skip_blanks(s))
}

fn blank(c: char) -> (b: bool)
    ensures
        b == is_blank(c),
{
    let v: u32 = c as u32;
    v == 0 || (0x09 <= v && v <= 0x0d) || v == 0x20 || v == 0x85 || v == 0xa0 || v == 0x1680 || (
    0x2000 <= v && v <= 0x200a) || v == 0x2028 || v == 0x2029 || v == 0x202f || v == 0x205f || v
        == 0x3000
}

/// Removes the padding and white space around a name.
pub fn trim(text: &str) -> (r: String)
    ensures
        r@ == trimmed(text@),
{
    let n: usize = text.unicode_len();
    let mut from: usize = 0;
    assert(text@ =~= text@.subrange(0, n as int));
    while from < n && blank(text.get_char(from))
        invariant
            n == text@.len(),
            from <= n,
            skip_blanks(text@) == skip_blanks(text@.subrange(from as int, n as int)),
        decreases n - from,
    {
        assert(text@.subrange(from as int, n as int).drop_first() =~= text@.subrange(
            from + 1,
            n as int,
        ));
        from = from + 1;
    }
    let mut to: usize = n;
    while to > from && blank(text.get_char(to - 1))
        invariant
            n == text@.len(),
            from <= to <= n,
            drop_blanks(text@.subrange(from as int, n as int)) == drop_blanks(
                text@.subrange(from as int, to as int),
            ),
        decreases to - from,
    {
        assert(text@.subrange(from as int, to as int).drop_last() =~= text@.subrange(
            from as int,
            to - 1,
        ));
        to = to - 1;
    }
    text.substring_char(from, to).to_owned()
}

/// The line that announces a player who joined.
pub open spec fn joined_line(name: Seq<char>) -> Seq<char> {
    name + " joined the game."@
}

/// The line that announces a player who left.
pub open spec fn left_line(name: Seq<char>) -> Seq<char> {
    name + " left the game."@
}

/// The line for what a player said.
pub open spec fn said_line(name: Seq<char>, text: Seq<char>) -> Seq<char> {
    name + ": "@ + text
}

/// Composes the line that announces a player who joined.
pub fn joined(name: &String) -> (line: String)
    ensures
        line@ == joined_line(name@),
{
    let mut line = name.clone();
    line.append(" joined the game.");
    line
}

/// Composes the line that announces a player who left.
pub fn left(name: &String) -> (line: String)
    ensures
        line@ == left_line(name@),
{
    let mut line = name.clone();
    line.append(" left the game.");
    line
}

/// Composes the line for what a player said.
pub fn said(name: &String, text: &String) -> (line: String)
    ensures
        line@ == said_line(name@, text@),
{
    let mut line = name.clone();
    line.append(": ");
    line.append(text.as_str());
    line
}

} // verus!
