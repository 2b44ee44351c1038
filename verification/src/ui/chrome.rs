//! What the parts of the window frame decide.

use vstd::prelude::*;

use crate::text::string_of;

verus! {

/// A character in upper case, if it is a letter of ASCII.
pub open spec fn upper_char(c: char) -> char {
    if 'a' <= c && c <= 'z' {
        (c as u32 - 32) as char
    } else {
        c
    }
}

/// The letters of ASCII in upper case.
pub open spec fn upper_ascii(s: Seq<char>) -> Seq<char> {
    s.map_values(|c: char| upper_char(c))
}

fn to_upper(c: char) -> (r: char)
    ensures
        r == upper_char(c),
{
    if 'a' <= c && c <= 'z' {
        let b: u8 = c as u8;
        (b - 32) as char
    } else {
        c
    }
}

/// The title of a section.
pub fn section_title(title: &str) -> (out: String)
    ensures
        out@ == upper_ascii(title@),
{
    let mut chars: Vec<char> = Vec::new();
    for c in it: title.chars()
        invariant
            it.seq() == title@,
            chars@ =~= upper_ascii(title@).take(it.index() as int),
    {
        chars.push(to_upper(c));
    }
    let n: usize = chars.len();
    let out = string_of(&chars, 0, n);
    proof {
        assert(out@ =~= upper_ascii(title@));
    }
    out
}

/// The option that is chosen by a click: another than the selected one.
pub fn segment_clicked(clicked: Option<usize>, selected: usize) -> (r: Option<usize>)
    ensures
        r == (if clicked == Some(selected) {
            None
        } else {
            clicked
        }),
{
    match clicked {
        Some(i) => if i == selected {
            None
        } else {
            Some(i)
        },
        None => None,
    }
}

/// The channel of a divider between the text and the background: half of
/// each.
pub fn blended(text: u8, background: u8) -> (c: u8)
    ensures
        c == (text + background) / 2,
{
    ((text as u16 + background as u16) / 2) as u8
}

} // verus!
