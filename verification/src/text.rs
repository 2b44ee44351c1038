//! Text as sequences of characters: splitting, searching and rendering.

use vstd::prelude::*;

verus! {

/// `String::push` appends one character.
pub assume_specification[ String::push ](s: &mut String, c: char)
    ensures
        final(s)@ == old(s)@.push(c),
;

/// The characters of a string, in order.
pub fn chars_of(text: &str) -> (chars: Vec<char>)
    ensures
        chars@ == text@,
{
    let mut out: Vec<char> = Vec::new();
    for c in it: text.chars()
        invariant
            out@ == it.seq().take(it.index()),
            it.seq() == text@,
    {
        out.push(c);
    }
    proof {
        assert(text@.take(text@.len() as int) == text@);
    }
    out
}

/// The string made of `chars[from..to]`.
pub fn string_of(chars: &Vec<char>, from: usize, to: usize) -> (text: String)
    requires
        from <= to <= chars@.len(),
    ensures
        text@ == chars@.subrange(from as int, to as int),
{
    let mut out: String = String::new();
    let mut i: usize = from;
    while i < to
        invariant
            from <= i <= to <= chars@.len(),
            out@ == chars@.subrange(from as int, i as int),
        decreases to - i,
    {
        out.push(chars[i]);
        i += 1;
    }
    out
}

/// Whether two strings hold the same characters.
pub fn same(a: &str, b: &str) -> (r: bool)
    ensures
        r == (a@ == b@),
{
    a.to_owned() == b.to_owned()
}

/// What an optional string holds.
pub open spec fn opt_view(s: Option<String>) -> Option<Seq<char>> {
    match s {
        Some(s) => Some(s@),
        None => None,
    }
}

/// The contents of a list of strings.
pub open spec fn views(list: Seq<String>) -> Seq<Seq<char>> {
    list.map_values(|s: String| s@)
}

/// Whether a piece of text is ended by a line feed.
pub open spec fn is_closed(line: Seq<char>) -> bool {
    line.len() > 0 && line.last() == '\n'
}

/// The lines of a text, each with its line feed. A character extends the
/// line before it unless that line is closed; then it begins the next.
pub open spec fn split_inclusive(s: Seq<char>) -> Seq<Seq<char>>
    decreases s.len(),
{
    if s.len() == 0 {
        Seq::empty()
    } else {
        let before = split_inclusive(s.drop_last());
        if before.len() > 0 && !is_closed(before.last()) {
            before.drop_last().push(before.last().push(s.last()))
        } else {
            before.push(seq![s.last()])
        }
    }
}

/// All pieces put one after the other.
pub open spec fn concat(pieces: Seq<Seq<char>>) -> Seq<char>
    decreases pieces.len(),
{
    if pieces.len() == 0 {
        Seq::empty()
    } else {
        concat(pieces.drop_last()) + pieces.last()
    }
}

/// Concatenation goes over appended lists of pieces.
pub proof fn lemma_concat_add(a: Seq<Seq<char>>, b: Seq<Seq<char>>)
    ensures
        concat(a + b) == concat(a) + concat(b),
    decreases b.len(),
{
    if b.len() == 0 {
        assert(a + b == a);
        assert(concat(a) + concat(b) == concat(a));
    } else {
        lemma_concat_add(a, b.drop_last());
        assert((a + b).drop_last() == a + b.drop_last());
        assert((a + b).last() == b.last());
        assert(concat(a) + (concat(b.drop_last()) + b.last()) == concat(a) + concat(b.drop_last())
            + b.last());
    }
}

/// A line as `split_inclusive` yields it: not empty, and without a line feed
/// before its last character.
pub open spec fn is_line(line: Seq<char>) -> bool {
    &&& line.len() > 0
    &&& forall|i: int| 0 <= i < line.len() - 1 ==> line[i] != '\n'
}

/// Lines as they follow each other in a text: only the last may be open.
pub open spec fn are_lines(lines: Seq<Seq<char>>) -> bool {
    &&& forall|i: int| 0 <= i < lines.len() ==> is_line(#[trigger] lines[i])
    &&& forall|i: int| 0 <= i < lines.len() - 1 ==> is_closed(#[trigger] lines[i])
}

/// Splitting loses nothing, and yields proper lines.
pub proof fn lemma_split_inclusive(s: Seq<char>)
    ensures
        concat(split_inclusive(s)) == s,
        are_lines(split_inclusive(s)),
        split_inclusive(s).len() == 0 <==> s.len() == 0,
    decreases s.len(),
{
    if s.len() > 0 {
        let init = s.drop_last();
        lemma_split_inclusive(init);
        let before = split_inclusive(init);
        let all = split_inclusive(s);
        if before.len() > 0 && !is_closed(before.last()) {
            assert(all.drop_last() == before.drop_last());
            assert(concat(all) == concat(before.drop_last()) + before.last().push(s.last()));
            assert(s == init.push(s.last()));
            assert(concat(before).push(s.last()) == concat(all));
        } else {
            assert(all.drop_last() == before);
            assert(concat(all) == init + seq![s.last()]);
            assert(s == concat(all));
        }
    }
}

/// Proper lines are the split of their concatenation.
pub proof fn lemma_split_concat(lines: Seq<Seq<char>>)
    requires
        are_lines(lines),
    ensures
        split_inclusive(concat(lines)) == lines,
    decreases lines.len(),
{
    if lines.len() > 0 {
        let init = lines.drop_last();
        assert(are_lines(init)) by {
            assert forall|i: int| 0 <= i < init.len() implies is_line(#[trigger] init[i]) by {
                assert(init[i] == lines[i]);
            }
            assert forall|i: int| 0 <= i < init.len() - 1 implies is_closed(#[trigger] init[i]) by {
                assert(init[i] == lines[i]);
            }
        }
        lemma_split_concat(init);
        assert(init.len() > 0 ==> is_closed(init.last())) by {
            if init.len() > 0 {
                assert(init.last() == lines[lines.len() - 2]);
            }
        }
        lemma_split_open_line(concat(init), lines.last(), lines.last().len() as int);
        assert(lines.last().take(lines.last().len() as int) == lines.last());
        assert(init.push(lines.last()) == lines);
    }
}

/// The first `n` characters of a line, put behind closed lines, are a line of
/// their own.
pub proof fn lemma_split_open_line(head: Seq<char>, line: Seq<char>, n: int)
    requires
        is_line(line),
        0 < n <= line.len(),
        split_inclusive(head).len() > 0 ==> is_closed(split_inclusive(head).last()),
    ensures
        split_inclusive(head + line.take(n)) == split_inclusive(head).push(line.take(n)),
    decreases n,
{
    let s = head + line.take(n);
    assert(s.last() == line[n - 1]);
    assert(s.drop_last() == head + line.take(n - 1));
    if n == 1 {
        assert(s.drop_last() == head);
        assert(seq![line[0]] == line.take(1));
    } else {
        lemma_split_open_line(head, line, n - 1);
        let before = split_inclusive(s.drop_last());
        assert(before.last() == line.take(n - 1));
        assert(line[n - 2] != '\n');
        assert(before.drop_last() == split_inclusive(head));
        assert(line.take(n - 1).push(line[n - 1]) == line.take(n));
    }
}

/// A line without its line ending, which is `\n` or `\r\n`.
pub open spec fn strip_ending(line: Seq<char>) -> Seq<char> {
    if is_closed(line) {
        let body = line.drop_last();
        if body.len() > 0 && body.last() == '\r' {
            body.drop_last()
        } else {
            body
        }
    } else {
        line
    }
}

/// The lines of a text without their line endings.
pub open spec fn lines(s: Seq<char>) -> Seq<Seq<char>> {
    split_inclusive(s).map_values(|l: Seq<char>| strip_ending(l))
}

/// Splits a text into its lines, each with its line feed.
pub fn split_lines(text: &str) -> (out: Vec<String>)
    ensures
        views(out@) == split_inclusive(text@),
{
    let mut out: Vec<String> = Vec::new();
    let mut current: String = String::new();
    let mut open: bool = false;
    for c in it: text.chars()
        invariant
            it.seq() == text@,
            open ==> !is_closed(current@) && split_inclusive(text@.take(it.index())) == views(
                out@,
            ).push(current@),
            !open ==> {
                &&& current@ == Seq::<char>::empty()
                &&& split_inclusive(text@.take(it.index())) == views(out@)
                &&& views(out@).len() > 0 ==> is_closed(views(out@).last())
            },
    {
        let ghost seen = text@.take(it.index());
        let ghost next = text@.take(it.index() + 1);
        let ghost before = split_inclusive(seen);
        proof {
            assert(next.drop_last() == seen);
            assert(next.last() == c);
            if open {
                assert(before.last() == current@);
                assert(before.drop_last() == views(out@));
            }
            assert(current@.push(c) == (if open { before.last().push(c) } else { seq![c] }));
            assert(split_inclusive(next) == views(out@).push(current@.push(c)));
        }
        current.push(c);
        if c == '\n' {
            let ghost line = current@;
            let ghost earlier = out@;
            out.push(current);
            proof {
                assert(views(out@) == views(earlier).push(line));
            }
            current = String::new();
            open = false;
        } else {
            open = true;
        }
    }
    proof {
        assert(text@.take(text@.len() as int) == text@);
    }
    if open {
        let ghost line = current@;
        let ghost earlier = out@;
        out.push(current);
        proof {
            assert(views(out@) == views(earlier).push(line));
        }
    }
    out
}

/// A line without its line ending.
pub fn without_ending(line: &str) -> (body: String)
    ensures
        body@ == strip_ending(line@),
{
    let chars = chars_of(line);
    let mut n: usize = chars.len();
    if n > 0 && chars[n - 1] == '\n' {
        n -= 1;
        if n > 0 && chars[n - 1] == '\r' {
            n -= 1;
        }
    }
    let body = string_of(&chars, 0, n);
    proof {
        assert(body@ == strip_ending(line@));
    }
    body
}

/// The lines of a text without their line endings.
pub fn lines_of(text: &str) -> (out: Vec<String>)
    ensures
        views(out@) == lines(text@),
{
    let closed = split_lines(text);
    let mut out: Vec<String> = Vec::new();
    let mut i: usize = 0;
    while i < closed.len()
        invariant
            i <= closed@.len(),
            out@.len() == i,
            views(closed@) == split_inclusive(text@),
            forall|k: int| 0 <= k < i ==> (#[trigger] out@[k])@ == strip_ending(closed@[k]@),
        decreases closed.len() - i,
    {
        out.push(without_ending(closed[i].as_str()));
        i += 1;
    }
    proof {
        assert(views(out@) =~= lines(text@)) by {
            assert forall|k: int| 0 <= k < out@.len() implies #[trigger] views(out@)[k] == lines(
                text@,
            )[k] by {
                assert(views(closed@)[k] == closed@[k]@);
                assert(out@[k]@ == strip_ending(closed@[k]@));
            }
        }
    }
    out
}

/// How many bytes UTF-8 uses for a character.
pub open spec fn char_bytes(c: char) -> nat {
    if (c as u32) < 0x80 {
        1
    } else if (c as u32) < 0x800 {
        2
    } else if (c as u32) < 0x10000 {
        3
    } else {
        4
    }
}

/// How many bytes UTF-8 uses for a text.
pub open spec fn text_bytes(s: Seq<char>) -> nat
    decreases s.len(),
{
    if s.len() == 0 {
        0
    } else {
        text_bytes(s.drop_last()) + char_bytes(s.last())
    }
}

/// `text_bytes` is the length of the UTF-8 encoding.
pub proof fn lemma_text_bytes(s: Seq<char>)
    ensures
        text_bytes(s) == vstd::utf8::encode_utf8(s).len(),
    decreases s.len(),
{
    if s.len() > 0 {
        lemma_text_bytes_front(s);
        lemma_text_bytes(s.drop_first());
        vstd::utf8::char_is_scalar(s[0]);
        assert(vstd::utf8::encode_scalar(s[0] as u32).len() == char_bytes(s[0]));
    }
}

/// The first character's bytes come on top of those of the rest.
proof fn lemma_text_bytes_front(s: Seq<char>)
    requires
        s.len() > 0,
    ensures
        text_bytes(s) == char_bytes(s[0]) + text_bytes(s.drop_first()),
    decreases s.len(),
{
    if s.len() > 1 {
        lemma_text_bytes_front(s.drop_last());
        assert(s.drop_last().drop_first() == s.drop_first().drop_last());
        assert(s.drop_first().last() == s.last());
    } else {
        assert(s.drop_first() == Seq::<char>::empty());
        assert(s.drop_last() == Seq::<char>::empty());
        assert(text_bytes(s.drop_last()) == 0);
        assert(text_bytes(s.drop_first()) == 0);
    }
}

/// Bytes of joined texts sum up.
pub proof fn lemma_text_bytes_concat(a: Seq<char>, b: Seq<char>)
    ensures
        text_bytes(a + b) == text_bytes(a) + text_bytes(b),
    decreases b.len(),
{
    if b.len() == 0 {
        assert(a + b == a);
    } else {
        lemma_text_bytes_concat(a, b.drop_last());
        assert((a + b).drop_last() == a + b.drop_last());
    }
}

/// How many bytes UTF-8 uses for a character.
pub fn bytes_of_char(c: char) -> (n: usize)
    ensures
        n == char_bytes(c),
{
    let v: u32 = c as u32;
    if v < 0x80 {
        1
    } else if v < 0x800 {
        2
    } else if v < 0x10000 {
        3
    } else {
        4
    }
}

/// How many bytes a string holds.
pub fn bytes_of(text: &str) -> (n: usize)
    ensures
        n == text_bytes(text@),
{
    proof {
        lemma_text_bytes(text@);
    }
    text.as_bytes().len()
}

/// The characters that Unicode calls white space.
pub open spec fn is_space(c: char) -> bool {
    ||| 0x09 <= c as u32 <= 0x0D
    ||| c as u32 == 0x20
    ||| c as u32 == 0x85
    ||| c as u32 == 0xA0
    ||| c as u32 == 0x1680
    ||| 0x2000 <= c as u32 <= 0x200A
    ||| c as u32 == 0x2028
    ||| c as u32 == 0x2029
    ||| c as u32 == 0x202F
    ||| c as u32 == 0x205F
    ||| c as u32 == 0x3000
}

pub open spec fn trim_start(s: Seq<char>) -> Seq<char>
    decreases s.len(),
{
    if s.len() > 0 && is_space(s[0]) {
        trim_start(s.drop_first())
    } else {
        s
    }
}

pub open spec fn trim_end(s: Seq<char>) -> Seq<char>
    decreases s.len(),
{
    if s.len() > 0 && is_space(s.last()) {
        trim_end(s.drop_last())
    } else {
        s
    }
}

/// A text without the white space around it.
pub open spec fn trim(s: Seq<char>) -> Seq<char> {
    trim_end(trim_start(s))
}

/// Whether a text holds white space only.
pub open spec fn is_blank(s: Seq<char>) -> bool {
    trim(s).len() == 0
}

/// Whether a character is white space.
pub fn whitespace(c: char) -> (r: bool)
    ensures
        r == is_space(c),
{
    let v: u32 = c as u32;
    (0x09 <= v && v <= 0x0D) || v == 0x20 || v == 0x85 || v == 0xA0 || v == 0x1680 || (0x2000 <= v
        && v <= 0x200A) || v == 0x2028 || v == 0x2029 || v == 0x202F || v == 0x205F || v == 0x3000
}

/// A text without the white space around it.
pub fn trimmed(text: &str) -> (out: String)
    ensures
        out@ == trim(text@),
{
    let chars = chars_of(text);
    let mut from: usize = 0;
    proof {
        assert(text@.skip(0) == text@);
    }
    while from < chars.len() && whitespace(chars[from])
        invariant
            chars@ == text@,
            from <= chars@.len(),
            trim_start(text@) == trim_start(text@.skip(from as int)),
        decreases chars.len() - from,
    {
        proof {
            assert(text@.skip(from as int).drop_first() == text@.skip(from + 1));
        }
        from += 1;
    }
    let ghost rest = text@.skip(from as int);
    let mut to: usize = chars.len();
    proof {
        assert(text@.subrange(from as int, to as int) == rest);
        assert(trim_start(text@) == rest);
    }
    while to > from && whitespace(chars[to - 1])
        invariant
            chars@ == text@,
            from <= to <= chars@.len(),
            trim_end(rest) == trim_end(text@.subrange(from as int, to as int)),
        decreases to,
    {
        proof {
            assert(text@.subrange(from as int, to as int).drop_last() == text@.subrange(
                from as int,
                to - 1,
            ));
        }
        to -= 1;
    }
    proof {
        let left = text@.subrange(from as int, to as int);
        assert(left.len() > 0 ==> left.last() == text@[to - 1]);
    }
    string_of(&chars, from, to)
}

/// Whether a text holds white space only.
pub fn blank(text: &str) -> (r: bool)
    ensures
        r == is_blank(text@),
{
    trimmed(text).as_str().is_empty()
}

/// The digit `d` as a character.
pub open spec fn digit(d: nat) -> char {
    (48 + d) as char
}

/// A number in decimal.
pub open spec fn digits(n: nat) -> Seq<char>
    decreases n,
{
    if n < 10 {
        seq![digit(n)]
    } else {
        digits(n / 10).push(digit(n % 10))
    }
}

/// The digit `d` as a character.
fn digit_char(d: u64) -> (c: char)
    requires
        d < 10,
    ensures
        c == digit(d as nat),
{
    (48u8 + d as u8) as char
}

/// A number in decimal.
pub fn decimal(n: u64) -> (out: String)
    ensures
        out@ == digits(n as nat),
    decreases n,
{
    if n < 10 {
        let mut out: String = String::new();
        out.push(digit_char(n));
        proof {
            assert(out@ == digits(n as nat));
        }
        out
    } else {
        let mut out: String = decimal(n / 10);
        out.push(digit_char(n % 10));
        out
    }
}

/// `n` times the character `c`.
pub open spec fn repeated(c: char, n: nat) -> Seq<char> {
    Seq::new(n, |i: int| c)
}

/// A text made at least `width` characters long by `fill` in front of it.
pub open spec fn padded(s: Seq<char>, fill: char, width: nat) -> Seq<char> {
    if s.len() < width {
        repeated(fill, (width - s.len()) as nat) + s
    } else {
        s
    }
}

/// A text made at least `width` characters long by `fill` in front of it.
pub fn pad_start(text: &str, fill: char, width: usize) -> (out: String)
    ensures
        out@ == padded(text@, fill, width as nat),
{
    let n: usize = text.unicode_len();
    let mut out: String = String::new();
    let mut i: usize = n;
    while i < width
        invariant
            n == text@.len(),
            n <= i,
            i <= width || i == n,
            out@ == repeated(fill, (i - n) as nat),
        decreases width - i,
    {
        out.push(fill);
        i += 1;
        proof {
            assert(out@ == repeated(fill, (i - n) as nat));
        }
    }
    out.append(text);
    proof {
        if n >= width {
            assert(out@ == text@);
        }
    }
    out
}

/// `n / d`, rounded to the nearest integer, and to the even one of two.
pub open spec fn half_even(n: nat, d: nat) -> nat
    recommends
        d > 0,
{
    let q = n / d;
    let r = n % d;
    if 2 * r < d || (2 * r == d && q % 2 == 0) {
        q
    } else {
        q + 1
    }
}

/// The distance of neighbouring double-precision numbers near `n`, for `n`
/// above their range of exact integers.
pub open spec fn double_step(n: nat) -> nat
    decreases n,
{
    if n < 0x20_0000_0000_0000 {
        1
    } else {
        2 * double_step(n / 2)
    }
}

/// The double-precision number nearest to `n`.
pub open spec fn to_double(n: nat) -> nat {
    half_even(n, double_step(n)) * double_step(n)
}

/// A size for people: bytes, whole kilobytes, or megabytes with one decimal
/// (rounded in double precision).
pub open spec fn size_text(n: nat) -> Seq<char> {
    if n >= 0x10_0000 {
        let tenths = half_even(10 * to_double(n), 0x10_0000);
        digits(tenths / 10) + seq!['.', digit(tenths % 10)] + " MB"@
    } else if n >= 1024 {
        digits(n / 1024) + " KB"@
    } else {
        digits(n) + " B"@
    }
}

fn round_half_even(n: u128, d: u128) -> (r: u128)
    requires
        0 < d <= 0x1_0000_0000_0000_0000,
        n < 0x100_0000_0000_0000_0000_0000,
    ensures
        r == half_even(n as nat, d as nat),
        r <= n / d + 1,
{
    let q: u128 = n / d;
    let rest: u128 = n % d;
    proof {
        assert(q <= n) by (nonlinear_arith)
            requires
                q == n / d,
                d > 0,
        ;
    }
    if 2 * rest < d || (2 * rest == d && q % 2 == 0) {
        q
    } else {
        q + 1
    }
}

fn double_step_of(n: u64) -> (s: u128)
    ensures
        s == double_step(n as nat),
        1 <= s <= 2048,
        s > 1 ==> s * 0x10_0000_0000_0000 <= n,
    decreases n,
{
    proof {
        reveal_with_fuel(double_step, 13);
    }
    if n < 0x20_0000_0000_0000 {
        1
    } else {
        let s: u128 = double_step_of(n / 2);
        proof {
            assert(double_step(n as nat) == 2 * double_step((n / 2) as nat));
        }
        2 * s
    }
}

/// A size for people: bytes, whole kilobytes, or megabytes with one decimal.
pub fn format_size(bytes: u64) -> (out: String)
    ensures
        out@ == size_text(bytes as nat),
{
    if bytes >= 0x10_0000 {
        let step: u128 = double_step_of(bytes);
        let nearest: u128 = round_half_even(bytes as u128, step);
        proof {
            let n = bytes as int;
            let q = nearest as int;
            let s = step as int;
            assert(q * s <= n + s) by (nonlinear_arith)
                requires
                    q <= n / s + 1,
                    s > 0,
                    n >= 0,
            ;
            assert(0 <= q * s) by (nonlinear_arith)
                requires
                    q >= 0,
                    s > 0,
            ;
        }
        let double: u128 = nearest * step;
        let tenths: u128 = round_half_even(10 * double, 0x10_0000);
        proof {
            assert(tenths <= 10 * double / 0x10_0000 + 1);
            assert(double == to_double(bytes as nat));
        }
        let mut out: String = decimal((tenths / 10) as u64);
        out.push('.');
        out.push(digit_char((tenths % 10) as u64));
        out.append(" MB");
        proof {
            let t = tenths as nat;
            assert(out@ == digits(t / 10) + seq!['.', digit(t % 10)] + " MB"@);
        }
        out
    } else if bytes >= 1024 {
        let mut out: String = decimal(bytes / 1024);
        out.append(" KB");
        out
    } else {
        let mut out: String = decimal(bytes);
        out.append(" B");
        out
    }
}

/// Texts one after the other, with a separator between them.
pub open spec fn separated(parts: Seq<Seq<char>>, sep: Seq<char>) -> Seq<char>
    decreases parts.len(),
{
    if parts.len() == 0 {
        Seq::empty()
    } else if parts.len() == 1 {
        parts[0]
    } else {
        separated(parts.drop_last(), sep) + sep + parts.last()
    }
}

/// Texts one after the other, with a separator between them.
pub fn join_with(parts: &[String], sep: &str) -> (out: String)
    ensures
        out@ == separated(views(parts@), sep@),
{
    let mut out: String = String::new();
    let ghost all = views(parts@);
    let mut i: usize = 0;
    while i < parts.len()
        invariant
            i <= parts@.len(),
            all == views(parts@),
            out@ == separated(all.take(i as int), sep@),
        decreases parts.len() - i,
    {
        proof {
            assert(all.take(i + 1).drop_last() == all.take(i as int));
            assert(all[i as int] == parts@[i as int]@);
        }
        if i > 0 {
            out.append(sep);
        }
        out.append(parts[i].as_str());
        proof {
            if i == 0 {
                assert(out@ =~= all[0]);
            }
        }
        i += 1;
    }
    proof {
        assert(all.take(all.len() as int) == all);
    }
    out
}

/// The first `n` characters of a text, or the whole text if it is shorter.
pub open spec fn first_chars(s: Seq<char>, n: nat) -> Seq<char> {
    if s.len() <= n {
        s
    } else {
        s.take(n as int)
    }
}

/// The first `n` characters of a text, or the whole text if it is shorter.
pub fn take_chars(text: &str, n: usize) -> (out: String)
    ensures
        out@ == first_chars(text@, n as nat),
{
    let chars = chars_of(text);
    let to: usize = if chars.len() <= n {
        chars.len()
    } else {
        n
    };
    let out = string_of(&chars, 0, to);
    proof {
        assert(text@.subrange(0, to as int) == first_chars(text@, n as nat));
    }
    out
}

/// An ASCII capital made small; any other character as it is.
pub open spec fn lower_char(c: char) -> char {
    if 'A' <= c <= 'Z' {
        ((c as u32 + 32) as u32) as char
    } else {
        c
    }
}

/// A text with its ASCII capitals made small.
pub open spec fn lower_ascii(s: Seq<char>) -> Seq<char> {
    s.map_values(|c: char| lower_char(c))
}

fn lower_char_of(c: char) -> (r: char)
    ensures
        r == lower_char(c),
{
    if 'A' <= c && c <= 'Z' {
        let v: u32 = c as u32;
        ((v + 32) as u8) as char
    } else {
        c
    }
}

/// A text with its ASCII capitals made small.
pub fn to_lower_ascii(text: &str) -> (out: String)
    ensures
        out@ == lower_ascii(text@),
{
    let mut out: String = String::new();
    for c in it: text.chars()
        invariant
            it.seq() == text@,
            out@ == lower_ascii(text@.take(it.index())),
    {
        out.push(lower_char_of(c));
        proof {
            assert(out@ =~= lower_ascii(text@.take(it.index() + 1)));
        }
    }
    proof {
        assert(text@.take(text@.len() as int) == text@);
    }
    out
}

} // verus!
