//! Where the lines of a file lie, by their bytes.

use vstd::prelude::*;
use vstd::utf8::encode_utf8;

use crate::text::{
    concat, is_closed, is_line, lemma_split_inclusive, lines, split_inclusive, strip_ending,
};

verus! {

/// The lines that are ended among some bytes, and where the line behind them
/// begins.
pub struct Bounds {
    pub done: Seq<(int, int)>,
    pub start: int,
}

/// A line ends before its line feed, and before a carriage return in front of
/// that.
pub open spec fn ended_lines(bytes: Seq<u8>) -> Bounds
    decreases bytes.len(),
{
    if bytes.len() == 0 {
        Bounds { done: Seq::empty(), start: 0 }
    } else {
        let b = ended_lines(bytes.drop_last());
        let i = bytes.len() - 1;
        if bytes[i] == 0x0A {
            let end = if i > b.start && bytes[i - 1] == 0x0D {
                i - 1
            } else {
                i
            };
            Bounds { done: b.done.push((b.start, end)), start: i + 1 }
        } else {
            b
        }
    }
}

/// Where each line begins and ends. What is behind the last line feed is a
/// line too.
pub open spec fn line_bounds(bytes: Seq<u8>) -> Seq<(int, int)> {
    let b = ended_lines(bytes);
    if b.start < bytes.len() {
        b.done.push((b.start, bytes.len() as int))
    } else {
        b.done
    }
}

/// Bounds in 32 bits each.
pub open spec fn narrowed(bounds: Seq<(int, int)>) -> Seq<(u32, u32)> {
    bounds.map_values(|b: (int, int)| (b.0 as u32, b.1 as u32))
}

/// Where each line of a text begins and ends, by its bytes. Offsets are cut
/// off to 32 bits.
pub fn compute_line_bounds(text: &str) -> (out: Vec<(u32, u32)>)
    ensures
        out@ == narrowed(line_bounds(encode_utf8(text@))),
{
    let bytes = text.as_bytes();
    let mut out: Vec<(u32, u32)> = Vec::new();
    let mut start: usize = 0;
    let mut i: usize = 0;
    proof {
        assert(narrowed(Seq::<(int, int)>::empty()) =~= Seq::empty());
    }
    while i < bytes.len()
        invariant
            i <= bytes@.len(),
            start <= i,
            bytes@ == encode_utf8(text@),
            start == ended_lines(bytes@.take(i as int)).start,
            out@ == narrowed(ended_lines(bytes@.take(i as int)).done),
        decreases bytes.len() - i,
    {
        let ghost done = ended_lines(bytes@.take(i as int)).done;
        proof {
            assert(bytes@.take(i + 1).drop_last() == bytes@.take(i as int));
        }
        if bytes[i] == 0x0A {
            let end: usize = if i > start && bytes[i - 1] == 0x0D {
                i - 1
            } else {
                i
            };
            out.push((start as u32, end as u32));
            proof {
                assert(narrowed(done.push((start as int, end as int))) =~= narrowed(done).push(
                    (start as u32, end as u32),
                ));
            }
            start = i + 1;
        }
        i += 1;
    }
    proof {
        assert(bytes@.take(bytes@.len() as int) == bytes@);
    }
    let ghost done = ended_lines(bytes@).done;
    if start < bytes.len() {
        out.push((start as u32, bytes.len() as u32));
        proof {
            assert(narrowed(done.push((start as int, bytes@.len() as int))) =~= narrowed(done).push(
                (start as u32, bytes@.len() as u32),
            ));
        }
    }
    out
}

/// Encoding goes over joined texts.
proof fn lemma_encode_add(a: Seq<char>, b: Seq<char>)
    ensures
        encode_utf8(a + b) == encode_utf8(a) + encode_utf8(b),
    decreases a.len(),
{
    if a.len() == 0 {
        assert(a + b == b);
        assert(encode_utf8(a) + encode_utf8(b) == encode_utf8(b));
    } else {
        lemma_encode_add(a.drop_first(), b);
        assert((a + b).drop_first() == a.drop_first() + b);
        assert((a + b)[0] == a[0]);
    }
}

/// The bytes of a character are the character itself, or are all above ASCII.
proof fn lemma_encode_char(c: char)
    ensures
        ({
            let e = vstd::utf8::encode_scalar(c as u32);
            &&& e.len() > 0
            &&& (c as u32) < 0x80 ==> e.len() == 1 && e[0] as u32 == c as u32
            &&& (c as u32) >= 0x80 ==> forall|i: int| 0 <= i < e.len() ==> e[i] >= 0x80
        }),
{
    let v = c as u32;
    vstd::utf8::char_is_scalar(c);
    if v < 0x80 {
        assert(vstd::utf8::leading_byte_width_1(v) == v) by (bit_vector)
            requires
                v < 0x80,
        ;
    } else {
        assert(vstd::utf8::leading_byte_width_2(v) >= 0x80) by (bit_vector);
        assert(vstd::utf8::leading_byte_width_3(v) >= 0x80) by (bit_vector);
        assert(vstd::utf8::leading_byte_width_4(v) >= 0x80) by (bit_vector);
        assert(vstd::utf8::last_continuation_byte(v) >= 0x80) by (bit_vector);
        assert(vstd::utf8::second_last_continuation_byte(v) >= 0x80) by (bit_vector);
        assert(vstd::utf8::third_last_continuation_byte(v) >= 0x80) by (bit_vector);
    }
}

proof fn lemma_line_ends(c: char)
    ensures
        c as u32 == 0x0A <==> c == '\n',
        c as u32 == 0x0D <==> c == '\r',
{
}

/// Of a text, which ASCII bytes there are, and which is the last.
proof fn lemma_encode_ascii(s: Seq<char>)
    ensures
        encode_utf8(s).len() == 0 <==> s.len() == 0,
        (forall|i: int| 0 <= i < s.len() ==> s[i] != '\n') ==> forall|i: int|
            0 <= i < encode_utf8(s).len() ==> encode_utf8(s)[i] != 0x0A,
        s.len() > 0 ==> (encode_utf8(s).last() == 0x0D <==> s.last() == '\r'),
    decreases s.len(),
{
    if s.len() > 0 {
        let init = s.drop_last();
        lemma_encode_ascii(init);
        lemma_encode_char(s.last());
        let one = seq![s.last()];
        assert(s =~= init + one);
        lemma_encode_add(init, one);
        let e = vstd::utf8::encode_scalar(s.last() as u32);
        assert(one.drop_first() =~= Seq::empty());
        assert(encode_utf8(one.drop_first()) =~= Seq::empty());
        assert(encode_utf8(one) =~= e);
        assert(encode_utf8(s) == encode_utf8(init) + e);
        assert(encode_utf8(s).last() == e[e.len() - 1]);
        lemma_line_ends(s.last());
        if forall|i: int| 0 <= i < s.len() ==> s[i] != '\n' {
            assert forall|i: int| 0 <= i < init.len() implies init[i] != '\n' by {
                assert(init[i] == s[i]);
            }
            assert(s[s.len() - 1] != '\n');
            assert forall|i: int| 0 <= i < encode_utf8(s).len() implies encode_utf8(s)[i] != 0x0A by {
                if i >= encode_utf8(init).len() {
                    assert(encode_utf8(s)[i] == e[i - encode_utf8(init).len()]);
                }
            }
        }
    }
}

/// Bytes without a line feed end no line.
proof fn lemma_ended_lines_add(a: Seq<u8>, b: Seq<u8>)
    requires
        forall|i: int| 0 <= i < b.len() ==> b[i] != 0x0A,
    ensures
        ended_lines(a + b) == ended_lines(a),
    decreases b.len(),
{
    if b.len() == 0 {
        assert(a + b == a);
    } else {
        assert forall|i: int| 0 <= i < b.drop_last().len() implies b.drop_last()[i] != 0x0A by {
            assert(b.drop_last()[i] == b[i]);
        }
        lemma_ended_lines_add(a, b.drop_last());
        assert((a + b).drop_last() == a + b.drop_last());
        assert((a + b).last() == b[b.len() - 1]);
    }
}

/// What `line_bounds` says of some lines of a text.
spec fn fits(bounds: Seq<(int, int)>, bytes: Seq<u8>, parts: Seq<Seq<char>>) -> bool {
    &&& bounds.len() == parts.len()
    &&& forall|i: int|
        0 <= i < parts.len() ==> {
            &&& 0 <= (#[trigger] bounds[i]).0 <= bounds[i].1 <= bytes.len()
            &&& bytes.subrange(bounds[i].0, bounds[i].1) == encode_utf8(strip_ending(parts[i]))
        }
}

/// More bytes behind the lines do not change what they are.
proof fn lemma_fits_add(bounds: Seq<(int, int)>, a: Seq<u8>, b: Seq<u8>, parts: Seq<Seq<char>>)
    requires
        fits(bounds, a, parts),
    ensures
        fits(bounds, a + b, parts),
{
    assert forall|i: int| 0 <= i < parts.len() implies {
        &&& 0 <= (#[trigger] bounds[i]).0 <= bounds[i].1 <= (a + b).len()
        &&& (a + b).subrange(bounds[i].0, bounds[i].1) == encode_utf8(strip_ending(parts[i]))
    } by {
        assert((a + b).subrange(bounds[i].0, bounds[i].1) =~= a.subrange(bounds[i].0, bounds[i].1));
    }
}

proof fn lemma_ended_lines(parts: Seq<Seq<char>>)
    requires
        forall|i: int| 0 <= i < parts.len() ==> is_line(#[trigger] parts[i]) && is_closed(parts[i]),
    ensures
        ({
            let bytes = encode_utf8(concat(parts));
            &&& ended_lines(bytes).start == bytes.len()
            &&& fits(ended_lines(bytes).done, bytes, parts)
        }),
    decreases parts.len(),
{
    if parts.len() > 0 {
        let init = parts.drop_last();
        assert forall|i: int| 0 <= i < init.len() implies is_line(#[trigger] init[i]) && is_closed(
            init[i],
        ) by {
            assert(init[i] == parts[i]);
        }
        lemma_ended_lines(init);
        let line = parts.last();
        assert(is_line(parts[parts.len() - 1]) && is_closed(parts[parts.len() - 1]));
        let body = line.drop_last();
        let feed = seq!['\n'];
        assert(line =~= body + feed);
        let head = encode_utf8(concat(init));
        let b = encode_utf8(body);
        lemma_encode_add(concat(init), line);
        lemma_encode_add(body, feed);
        lemma_encode_char('\n');
        assert(feed.drop_first() =~= Seq::empty());
        assert(encode_utf8(feed.drop_first()) =~= Seq::empty());
        assert(encode_utf8(feed) =~= seq![0x0Au8]);
        let bytes = encode_utf8(concat(parts));
        assert(bytes =~= (head + b).push(0x0A));
        assert forall|i: int| 0 <= i < body.len() implies body[i] != '\n' by {
            assert(body[i] == line[i]);
        }
        lemma_encode_ascii(body);
        lemma_ended_lines_add(head, b);
        assert(bytes.drop_last() =~= head + b);
        let from = head.len() as int;
        let i = bytes.len() - 1;
        let end = if i > from && bytes[i - 1] == 0x0D {
            i - 1
        } else {
            i
        };
        assert(ended_lines(bytes).done == ended_lines(head).done.push((from, end)));
        assert(b.len() > 0 ==> bytes[i - 1] == b.last());
        assert(bytes.subrange(from, end) == encode_utf8(strip_ending(line))) by {
            if end == i - 1 {
                let rest = body.drop_last();
                let cr = seq!['\r'];
                assert(body =~= rest + cr);
                lemma_encode_add(rest, cr);
                lemma_encode_char('\r');
                assert(cr.drop_first() =~= Seq::empty());
                assert(encode_utf8(cr.drop_first()) =~= Seq::empty());
                assert(encode_utf8(cr) =~= seq![0x0Du8]);
                assert(bytes.subrange(from, end) =~= encode_utf8(rest));
            } else {
                assert(bytes.subrange(from, end) =~= b);
            }
        }
        assert(bytes =~= head + (b.push(0x0A)));
        lemma_fits_add(ended_lines(head).done, head, b.push(0x0A), init);
        let done = ended_lines(bytes).done;
        assert forall|k: int| 0 <= k < parts.len() implies {
            &&& 0 <= (#[trigger] done[k]).0 <= done[k].1 <= bytes.len()
            &&& bytes.subrange(done[k].0, done[k].1) == encode_utf8(strip_ending(parts[k]))
        } by {
            if k < init.len() {
                assert(done[k] == ended_lines(head).done[k]);
                assert(init[k] == parts[k]);
            }
        }
    } else {
        assert(encode_utf8(concat(parts)) =~= Seq::empty());
    }
}

/// The bounds of a text cut out its lines, in order: the bytes between the
/// bounds of a line are that line without its line ending.
pub proof fn law_bounds_cut_out_lines(text: Seq<char>)
    ensures
        ({
            let bytes = encode_utf8(text);
            let bounds = line_bounds(bytes);
            &&& bounds.len() == lines(text).len()
            &&& forall|i: int|
                0 <= i < bounds.len() ==> {
                    &&& 0 <= (#[trigger] bounds[i]).0 <= bounds[i].1 <= bytes.len()
                    &&& bytes.subrange(bounds[i].0, bounds[i].1) == encode_utf8(lines(text)[i])
                }
        }),
{
    let bytes = encode_utf8(text);
    let parts = split_inclusive(text);
    lemma_split_inclusive(text);
    let bounds = line_bounds(bytes);
    if parts.len() == 0 {
        assert(text =~= Seq::empty());
        assert(bytes =~= Seq::empty());
    } else if is_closed(parts.last()) {
        assert forall|i: int| 0 <= i < parts.len() implies is_line(#[trigger] parts[i])
            && is_closed(parts[i]) by {}
        lemma_ended_lines(parts);
        assert(fits(bounds, bytes, parts));
    } else {
        let init = parts.drop_last();
        let tail = parts.last();
        assert forall|i: int| 0 <= i < init.len() implies is_line(#[trigger] init[i]) && is_closed(
            init[i],
        ) by {
            assert(init[i] == parts[i]);
        }
        lemma_ended_lines(init);
        let head = encode_utf8(concat(init));
        let b = encode_utf8(tail);
        lemma_encode_add(concat(init), tail);
        assert(is_line(parts[parts.len() - 1]));
        assert forall|i: int| 0 <= i < tail.len() implies tail[i] != '\n' by {}
        lemma_encode_ascii(tail);
        lemma_ended_lines_add(head, b);
        assert(bounds == ended_lines(head).done.push((head.len() as int, bytes.len() as int)));
        lemma_fits_add(ended_lines(head).done, head, b, init);
        assert(bytes.subrange(head.len() as int, bytes.len() as int) =~= b);
        assert forall|k: int| 0 <= k < parts.len() implies {
            &&& 0 <= (#[trigger] bounds[k]).0 <= bounds[k].1 <= bytes.len()
            &&& bytes.subrange(bounds[k].0, bounds[k].1) == encode_utf8(strip_ending(parts[k]))
        } by {
            if k < init.len() {
                assert(bounds[k] == ended_lines(head).done[k]);
                assert(init[k] == parts[k]);
            }
        }
    }
    assert forall|i: int| 0 <= i < bounds.len() implies {
        &&& 0 <= (#[trigger] bounds[i]).0 <= bounds[i].1 <= bytes.len()
        &&& bytes.subrange(bounds[i].0, bounds[i].1) == encode_utf8(lines(text)[i])
    } by {
        assert(lines(text)[i] == strip_ending(parts[i]));
    }
}

} // verus!
