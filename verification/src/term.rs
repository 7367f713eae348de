//! The screen layout: the response domain over the upper two thirds of the
//! terminal and the prompt domain below it, and the text operations they use.

use vstd::prelude::*;
use vstd::utf8::*;
use vstd::string::StringSliceAdditionalSpecFns;
use crate::text::{push_char, pop_char, lemma_encode_utf8_concat, lemma_char_boundary_shift};

verus! {

/// Byte length of the UTF-8 encoding of a text, as `str::len` reports it
/// (a `usize`; no string that fits in memory is longer than that).
pub open spec fn byte_len(s: Seq<char>) -> usize {
    encode_utf8(s).len() as usize
}

/// Height of the response domain for a terminal height: two thirds, rounded down.
pub open spec fn response_height(height: u16) -> u16 {
    ((2 * height) / 3) as u16
}

/// Top-left corner of the response domain.
pub open spec fn response_origin(size: (u16, u16)) -> (u16, u16) {
    (0, 0)
}

/// Effective size of the response domain.
pub open spec fn response_extent(size: (u16, u16)) -> (u16, u16) {
    (size.0, response_height(size.1))
}

/// Top-left corner of the prompt domain: two thirds of the way down.
pub open spec fn prompt_origin(size: (u16, u16)) -> (u16, u16) {
    (0, response_height(size.1))
}

/// Effective size of the prompt domain: from its first row to the bottom.
pub open spec fn prompt_extent(size: (u16, u16)) -> (u16, u16) {
    (size.0, (size.1 - response_height(size.1)) as u16)
}

/// Number of whole lines of `width` bytes in a buffer, as a `u16`.
pub open spec fn buf_lines(buf: Seq<char>, width: u16) -> u16 {
    (byte_len(buf) / width as usize) as u16
}

/// The response domain: the upper part of the screen, where the model's
/// answer is written.
#[derive(Debug)]
pub struct ResponseDomain {
    pub zero: (u16, u16),
    pub size_e: (u16, u16),
    pub buf: String,
    pub holder: String,
    pub indices: Vec<u16>,
    pub newline_index: u16,
    pub is_done: bool,
}

/// The prompt domain: the lower third of the screen, where the user types.
#[derive(Debug)]
pub struct PromptDomain {
    pub zero: (u16, u16),
    pub size_e: (u16, u16),
    pub buf: String,
    pub holder: String,
    pub newline_index: u16,
    pub indices: Vec<u16>,
    pub is_submit: bool,
}

/// The whole screen: its size and its two domains.
#[derive(Debug)]
pub struct Canvas {
    pub size: (u16, u16),
    pub response_domain: ResponseDomain,
    pub prompt_domain: PromptDomain,
    pub window_newline_index: u16,
}

fn clone_indices(v: &Vec<u16>) -> (res: Vec<u16>)
    ensures
        res@ == v@,
{
    let res = v.clone();
    assert(res@ =~= v@);
    res
}

impl Clone for ResponseDomain {
    fn clone(&self) -> (res: Self)
        ensures
            res.zero == self.zero,
            res.size_e == self.size_e,
            res.buf@ == self.buf@,
            res.holder@ == self.holder@,
            res.indices@ == self.indices@,
            res.newline_index == self.newline_index,
            res.is_done == self.is_done,
    {
        ResponseDomain {
            zero: self.zero,
            size_e: self.size_e,
            buf: self.buf.clone(),
            holder: self.holder.clone(),
            indices: clone_indices(&self.indices),
            newline_index: self.newline_index,
            is_done: self.is_done,
        }
    }
}

impl Clone for PromptDomain {
    fn clone(&self) -> (res: Self)
        ensures
            res.zero == self.zero,
            res.size_e == self.size_e,
            res.buf@ == self.buf@,
            res.holder@ == self.holder@,
            res.indices@ == self.indices@,
            res.newline_index == self.newline_index,
            res.is_submit == self.is_submit,
    {
        PromptDomain {
            zero: self.zero,
            size_e: self.size_e,
            buf: self.buf.clone(),
            holder: self.holder.clone(),
            newline_index: self.newline_index,
            indices: clone_indices(&self.indices),
            is_submit: self.is_submit,
        }
    }
}

impl Clone for Canvas {
    fn clone(&self) -> (res: Self)
        ensures
            res.size == self.size,
            res.window_newline_index == self.window_newline_index,
            res.response_domain.zero == self.response_domain.zero,
            res.response_domain.size_e == self.response_domain.size_e,
            res.response_domain.buf@ == self.response_domain.buf@,
            res.response_domain.holder@ == self.response_domain.holder@,
            res.response_domain.indices@ == self.response_domain.indices@,
            res.response_domain.newline_index == self.response_domain.newline_index,
            res.response_domain.is_done == self.response_domain.is_done,
            res.prompt_domain.zero == self.prompt_domain.zero,
            res.prompt_domain.size_e == self.prompt_domain.size_e,
            res.prompt_domain.buf@ == self.prompt_domain.buf@,
            res.prompt_domain.holder@ == self.prompt_domain.holder@,
            res.prompt_domain.indices@ == self.prompt_domain.indices@,
            res.prompt_domain.newline_index == self.prompt_domain.newline_index,
            res.prompt_domain.is_submit == self.prompt_domain.is_submit,
    {
        Canvas {
            size: self.size,
            response_domain: self.response_domain.clone(),
            prompt_domain: self.prompt_domain.clone(),
            window_newline_index: self.window_newline_index,
        }
    }
}

fn two_thirds(height: u16) -> (h: u16)
    ensures
        h == response_height(height),
        h as int == (2 * height) / 3,
        h <= height,
{
    let doubled: u32 = 2 * (height as u32);
    (doubled / 3) as u16
}

impl ResponseDomain {
    /// An empty response domain laid out for a terminal of the given size.
    pub fn build(size: (u16, u16)) -> (res: Self)
        ensures
            res.zero == response_origin(size),
            res.size_e == response_extent(size),
            res.buf@ == Seq::<char>::empty(),
            res.holder@ == Seq::<char>::empty(),
            res.indices@ == Seq::<u16>::empty(),
            res.newline_index == 0,
            !res.is_done,
    {
        let zero = (0, 0);
        let size_e = (size.0, two_thirds(size.1));
        let buf = String::new();
        let newline_index: u16 = 0;
        let indices: Vec<u16> = Vec::new();
        let holder: String = String::new();
        let is_done = false;
        ResponseDomain { zero, size_e, buf, holder, indices, newline_index, is_done }
    }

    /// Lays the domain out again for a new terminal size; the contents stay.
    pub fn update(&mut self, size: (u16, u16))
        ensures
            final(self).zero == response_origin(size),
            final(self).size_e == response_extent(size),
            final(self).buf == old(self).buf,
            final(self).holder == old(self).holder,
            final(self).indices == old(self).indices,
            final(self).newline_index == old(self).newline_index,
            final(self).is_done == old(self).is_done,
    {
        self.zero = (0, 0);
        self.size_e = (size.0, two_thirds(size.1));
    }

    /// How many full lines of the domain's width the buffer fills, counting bytes.
    pub fn calculate_buf_lines(&self) -> (lines: u16)
        requires
            self.size_e.0 > 0,
        ensures
            lines == buf_lines(self.buf@, self.size_e.0),
    {
        let lines: usize = self.buf.as_str().len() / (self.size_e.0 as usize);
        lines as u16
    }
}

impl PromptDomain {
    /// An empty prompt domain laid out for a terminal of the given size.
    pub fn build(size: (u16, u16)) -> (res: Self)
        ensures
            res.zero == prompt_origin(size),
            res.size_e == prompt_extent(size),
            res.buf@ == Seq::<char>::empty(),
            res.holder@ == Seq::<char>::empty(),
            res.indices@ == Seq::<u16>::empty(),
            res.newline_index == 0,
            !res.is_submit,
    {
        let zero = (0, two_thirds(size.1));
        let size_e = (size.0, size.1 - zero.1);
        let buf = String::new();
        let newline_index: u16 = 0;
        let is_submit = false;
        let indices: Vec<u16> = Vec::new();
        let holder: String = String::new();
        PromptDomain { zero, size_e, buf, holder, newline_index, indices, is_submit }
    }

    /// Lays the domain out again for a new terminal size; the contents stay.
    pub fn update(&mut self, size: (u16, u16))
        ensures
            final(self).zero == prompt_origin(size),
            final(self).size_e == prompt_extent(size),
            final(self).buf == old(self).buf,
            final(self).holder == old(self).holder,
            final(self).indices == old(self).indices,
            final(self).newline_index == old(self).newline_index,
            final(self).is_submit == old(self).is_submit,
    {
        self.zero = (0, two_thirds(size.1));
        self.size_e = (size.0, size.1 - self.zero.1);
    }

    /// How many full lines of the domain's width the buffer fills, counting bytes.
    pub fn calculate_buf_lines(&self) -> (lines: u16)
        requires
            self.size_e.0 > 0,
        ensures
            lines == buf_lines(self.buf@, self.size_e.0),
    {
        let lines: usize = self.buf.as_str().len() / (self.size_e.0 as usize);
        lines as u16
    }
}

impl Canvas {
    /// A canvas for a terminal of the given size, with empty domains.
    pub fn build(size: (u16, u16)) -> (res: Self)
        ensures
            res.size == size,
            res.response_domain.zero == response_origin(size),
            res.response_domain.size_e == response_extent(size),
            res.response_domain.buf@ == Seq::<char>::empty(),
            res.response_domain.holder@ == Seq::<char>::empty(),
            res.response_domain.indices@ == Seq::<u16>::empty(),
            res.response_domain.newline_index == 0,
            !res.response_domain.is_done,
            res.prompt_domain.zero == prompt_origin(size),
            res.prompt_domain.size_e == prompt_extent(size),
            res.prompt_domain.buf@ == Seq::<char>::empty(),
            res.prompt_domain.holder@ == Seq::<char>::empty(),
            res.prompt_domain.indices@ == Seq::<u16>::empty(),
            res.prompt_domain.newline_index == 0,
            !res.prompt_domain.is_submit,
            res.window_newline_index == 0,
    {
        let response_domain = ResponseDomain::build(size);
        let prompt_domain = PromptDomain::build(size);
        Canvas { size, response_domain, prompt_domain, window_newline_index: 0 }
    }
}

/// Inserts a character at a byte offset, which must fall on a character
/// boundary.
pub fn insert_char(original: &str, index: usize, ch: char) -> (res: String)
    requires
        is_char_boundary(original.spec_bytes(), index as int),
    ensures
        encode_utf8(res@) == original.spec_bytes().subrange(0, index as int) + encode_utf8(
            seq![ch],
        ) + original.spec_bytes().subrange(index as int, original.spec_bytes().len() as int),
        res@ == decode_utf8(original.spec_bytes().subrange(0, index as int)) + seq![ch]
            + decode_utf8(
            original.spec_bytes().subrange(index as int, original.spec_bytes().len() as int),
        ),
{
    let (head, tail) = original.split_at(index);
    let mut result = String::from_str(head);
    push_char(&mut result, ch);
    result.append(tail);
    proof {
        broadcast use encode_utf8_decode_utf8;
        lemma_encode_utf8_concat(head@, seq![ch]);
        lemma_encode_utf8_concat(head@ + seq![ch], tail@);
        assert(head@.push(ch) =~= head@ + seq![ch]);
    }
    result
}

/// The bytes cut into consecutive pieces of `n` bytes, the last one shorter
/// when `n` does not divide the length; no piece for empty bytes.
pub open spec fn byte_chunks(bytes: Seq<u8>, n: nat) -> Seq<Seq<u8>>
    decreases bytes.len(),
{
    if n == 0 || bytes.len() == 0 {
        seq![]
    } else if bytes.len() <= n {
        seq![bytes]
    } else {
        seq![bytes.take(n as int)] + byte_chunks(bytes.skip(n as int), n)
    }
}

/// Every multiple of `n` inside the bytes is a character boundary.
pub open spec fn boundaries_every(bytes: Seq<u8>, n: nat) -> bool {
    forall|i: int|
        0 <= i < bytes.len() && i % (n as int) == 0 ==> #[trigger] is_char_boundary(bytes, i)
}

/// Cuts a text into consecutive slices of `n` bytes each, the last one
/// shorter when `n` does not divide the length. Each cut must fall on a
/// character boundary.
pub fn split_into_slices<'a>(s: &'a str, n: usize) -> (slices: Vec<&'a str>)
    requires
        n > 0 || s@.len() == 0,
        s.spec_bytes().len() <= usize::MAX,
        boundaries_every(s.spec_bytes(), n as nat),
    ensures
        slices@.len() == byte_chunks(s.spec_bytes(), n as nat).len(),
        forall|j: int|
            0 <= j < slices@.len() ==> #[trigger] slices@[j].spec_bytes() == byte_chunks(
                s.spec_bytes(),
                n as nat,
            )[j],
{
    let ghost bytes = s.spec_bytes();
    let mut slices: Vec<&'a str> = Vec::new();
    let mut rest: &'a str = s;
    let ghost mut start: int = 0;
    proof {
        broadcast use encode_utf8_valid_utf8;
        assert(bytes.subrange(0, bytes.len() as int) =~= bytes);
        if s@.len() == 0 {
            assert(s@ =~= Seq::<char>::empty());
            assert(bytes =~= Seq::<u8>::empty());
        }
        is_char_boundary_start_end_of_seq(bytes);
    }
    while rest.len() > n
        invariant
            n > 0 || bytes.len() == 0,
            bytes == s.spec_bytes(),
            bytes.len() <= usize::MAX,
            valid_utf8(bytes),
            boundaries_every(bytes, n as nat),
            0 <= start <= bytes.len(),
            n > 0 ==> start % (n as int) == 0,
            is_char_boundary(bytes, start),
            rest.spec_bytes() == bytes.subrange(start, bytes.len() as int),
            byte_chunks(bytes, n as nat) == slices@.map_values(|x: &str| x.spec_bytes())
                + byte_chunks(rest.spec_bytes(), n as nat),
        decreases rest.spec_bytes().len(),
    {
        let ghost rb = rest.spec_bytes();
        let ghost before = slices@;
        assert(n > 0);
        proof {
            vstd::arithmetic::div_mod::lemma_mod_add_multiples_vanish(start, n as int);
            assert(is_char_boundary(bytes, start + n));
            lemma_char_boundary_shift(bytes, start, start + n);
        }
        let (piece, tail) = rest.split_at(n);
        slices.push(piece);
        proof {
            assert(byte_chunks(rb, n as nat) == seq![rb.take(n as int)] + byte_chunks(
                rb.skip(n as int),
                n as nat,
            ));
            assert(piece.spec_bytes() =~= rb.take(n as int));
            assert(tail.spec_bytes() =~= rb.skip(n as int));
            assert(slices@.map_values(|x: &str| x.spec_bytes()) =~= before.map_values(
                |x: &str| x.spec_bytes(),
            ) + seq![rb.take(n as int)]);
            start = start + n;
            assert(tail.spec_bytes() =~= bytes.subrange(start, bytes.len() as int));
        }
        rest = tail;
    }
    let ghost rb = rest.spec_bytes();
    let ghost before = slices@;
    if rest.len() > 0 {
        slices.push(rest);
        proof {
            assert(byte_chunks(rb, n as nat) == seq![rb]);
            assert(slices@.map_values(|x: &str| x.spec_bytes()) =~= before.map_values(
                |x: &str| x.spec_bytes(),
            ) + seq![rb]);
        }
    } else {
        proof {
            assert(byte_chunks(rb, n as nat) =~= Seq::<Seq<u8>>::empty());
        }
    }
    assert(byte_chunks(bytes, n as nat) =~= slices@.map_values(|x: &str| x.spec_bytes()));
    slices
}

/// The pieces concatenated in order.
pub open spec fn flatten_chunks(chunks: Seq<Seq<u8>>) -> Seq<u8>
    decreases chunks.len(),
{
    if chunks.len() == 0 {
        seq![]
    } else {
        chunks[0] + flatten_chunks(chunks.drop_first())
    }
}

/// The slices of `split_into_slices` put back together give the text again;
/// no slice is empty, none is longer than `n` bytes, and all but the last
/// are exactly `n` bytes long.
pub proof fn chunks_rebuild_the_bytes(bytes: Seq<u8>, n: nat)
    requires
        n > 0,
    ensures
        flatten_chunks(byte_chunks(bytes, n)) == bytes,
        forall|j: int|
            0 <= j < byte_chunks(bytes, n).len() ==> 0 < (#[trigger] byte_chunks(bytes, n)[j]).len() <= n,
        forall|j: int|
            0 <= j < byte_chunks(bytes, n).len() - 1 ==> (#[trigger] byte_chunks(bytes, n)[j]).len() == n,
    decreases bytes.len(),
{
    let c = byte_chunks(bytes, n);
    if bytes.len() == 0 {
        assert(flatten_chunks(c) =~= bytes);
    } else if bytes.len() <= n {
        assert(c.drop_first() =~= Seq::<Seq<u8>>::empty());
        assert(flatten_chunks(c.drop_first()) =~= Seq::<u8>::empty());
        assert(flatten_chunks(c) =~= bytes);
    } else {
        let rest = bytes.skip(n as int);
        chunks_rebuild_the_bytes(rest, n);
        assert(c.drop_first() =~= byte_chunks(rest, n));
        assert(bytes.take(n as int) + rest =~= bytes);
        assert forall|j: int| 0 < j < c.len() implies #[trigger] c[j] == byte_chunks(rest, n)[j - 1] by {}
    }
}

/// Inserting a character at a boundary keeps every other character: the text
/// before the boundary and the text after it, put together, are the original.
pub proof fn insertion_keeps_the_text(text: Seq<char>, index: int)
    requires
        is_char_boundary(encode_utf8(text), index),
    ensures
        decode_utf8(encode_utf8(text).subrange(0, index)) + decode_utf8(
            encode_utf8(text).subrange(index, encode_utf8(text).len() as int),
        ) == text,
{
    broadcast use encode_utf8_valid_utf8, encode_utf8_decode_utf8;
    decode_utf8_split(encode_utf8(text), index);
}

/// A line without its final carriage return, if it has one.
pub open spec fn strip_cr(line: Seq<char>) -> Seq<char> {
    if line.len() > 0 && line.last() == '\r' {
        line.drop_last()
    } else {
        line
    }
}

/// The lines completed so far (each ended by `\n`, which is dropped together
/// with a `\r` just before it) and the unfinished line after the last `\n`.
pub open spec fn line_split(s: Seq<char>) -> (Seq<Seq<char>>, Seq<char>)
    decreases s.len(),
{
    if s.len() == 0 {
        (seq![], seq![])
    } else {
        let (done, cur) = line_split(s.drop_last());
        if s.last() == '\n' {
            (done.push(strip_cr(cur)), seq![])
        } else {
            (done, cur.push(s.last()))
        }
    }
}

/// The lines of a text as `str::lines` gives them: split at `\n` or `\r\n`,
/// terminators dropped, and no empty last line after a final terminator.
pub open spec fn lines_of(s: Seq<char>) -> Seq<Seq<char>> {
    let (done, cur) = line_split(s);
    if cur.len() > 0 {
        done.push(cur)
    } else {
        done
    }
}

/// The views of a vector of strings.
pub open spec fn string_views(v: Seq<String>) -> Seq<Seq<char>> {
    v.map_values(|x: String| x@)
}

/// The lines of a text, as the screen shows them one under the other.
pub fn text_lines(s: &str) -> (lines: Vec<String>)
    ensures
        string_views(lines@) == lines_of(s@),
{
    let mut done: Vec<String> = Vec::new();
    let mut cur = String::new();
    let mut chars = s.chars();
    proof {
        broadcast use vstd::string::group_string_axioms;
        assert(s@.take(0) =~= Seq::<char>::empty());
    }
    for c in it: chars
        invariant
            it.seq() == s@,
            line_split(s@.take(it.index())) == (string_views(done@), cur@),
    {
        let ghost prefix = s@.take(it.index());
        let ghost before = done@;
        proof {
            assert(s@.take(it.index() + 1).drop_last() =~= prefix);
            assert(s@.take(it.index() + 1).last() == c);
        }
        if c == '\n' {
            let ghost line = cur@;
            if !cur.as_str().is_empty() {
                let last = pop_char(&mut cur);
                match last {
                    Some(ch) => {
                        if ch != '\r' {
                            push_char(&mut cur, ch);
                            assert(cur@ =~= line);
                        }
                    },
                    None => {},
                }
            }
            assert(cur@ == strip_cr(line));
            done.push(cur);
            cur = String::new();
            proof {
                assert(string_views(done@) =~= string_views(before).push(strip_cr(line)));
            }
        } else {
            push_char(&mut cur, c);
        }
    }
    assert(s@.take(s@.len() as int) =~= s@);
    if !cur.as_str().is_empty() {
        let ghost before = done@;
        done.push(cur);
        proof {
            assert(string_views(done@) =~= string_views(before).push(line_split(s@).1));
        }
    }
    done
}

/// A final line ending adds no line: a text that does not already end with a
/// line ending has the same lines with a `\n` added at its end.
pub proof fn final_newline_adds_no_line(s: Seq<char>)
    requires
        s.len() > 0,
        s.last() != '\n',
        s.last() != '\r',
    ensures
        lines_of(s.push('\n')) == lines_of(s),
{
    let t = s.push('\n');
    assert(t.drop_last() =~= s);
    let (done, cur) = line_split(s.drop_last());
    assert(line_split(s).1 == cur.push(s.last()));
    assert(line_split(s).1.len() > 0);
    assert(strip_cr(line_split(s).1) == line_split(s).1);
}

/// The line state of a text without a line feed: no line finished, the
/// whole text pending.
proof fn lemma_line_split_no_newline(t: Seq<char>)
    requires
        !t.contains('\n'),
    ensures
        line_split(t) == (Seq::<Seq<char>>::empty(), t),
    decreases t.len(),
{
    if t.len() > 0 {
        assert(t.drop_last().len() < t.len());
        assert(!t.drop_last().contains('\n')) by {
            if t.drop_last().contains('\n') {
                let i = choose|i: int| 0 <= i < t.drop_last().len() && t.drop_last()[i] == '\n';
                assert(t[i] == '\n');
            }
        }
        lemma_line_split_no_newline(t.drop_last());
        assert(t.last() != '\n') by {
            assert(t[t.len() - 1] == t.last());
        }
        assert(t.drop_last().push(t.last()) =~= t);
    }
}

/// After a prefix that ends with a line feed, the line state goes on as for
/// the rest alone, with the prefix's lines in front.
proof fn lemma_line_split_after_newline(p: Seq<char>, r: Seq<char>)
    requires
        p.len() > 0,
        p.last() == '\n',
    ensures
        line_split(p + r) == (line_split(p).0 + line_split(r).0, line_split(r).1),
        line_split(p).1 == Seq::<char>::empty(),
    decreases r.len(),
{
    if r.len() == 0 {
        assert(p + r =~= p);
        assert(line_split(p).0 + line_split(r).0 =~= line_split(p).0);
    } else {
        lemma_line_split_after_newline(p, r.drop_last());
        assert((p + r).drop_last() =~= p + r.drop_last());
        assert((p + r).last() == r.last());
        let (dr, cr) = line_split(r.drop_last());
        if r.last() == '\n' {
            assert((line_split(p).0 + dr).push(strip_cr(cr)) =~= line_split(p).0 + dr.push(
                strip_cr(cr),
            ));
        }
    }
}

/// A line is the text up to its line feed, without that line feed and
/// without a carriage return just before it; the lines of the rest follow.
/// A text with no line feed at all is one line, or none when it is empty.
pub proof fn lines_are_split_at_line_feeds(t: Seq<char>, rest: Seq<char>)
    requires
        !t.contains('\n'),
    ensures
        lines_of(t + seq!['\n'] + rest) == seq![
            if t.len() > 0 && t.last() == '\r' {
                t.subrange(0, t.len() - 1)
            } else {
                t
            },
        ] + lines_of(rest),
        t.len() > 0 ==> lines_of(t) == seq![t],
        t.len() == 0 ==> lines_of(t) == Seq::<Seq<char>>::empty(),
{
    lemma_line_split_no_newline(t);
    let p = t + seq!['\n'];
    assert(p.drop_last() =~= t);
    assert(p.last() == '\n');
    assert(line_split(p) == (seq![strip_cr(t)], Seq::<char>::empty()));
    lemma_line_split_after_newline(p, rest);
    if t.len() > 0 && t.last() == '\r' {
        assert(t.drop_last() =~= t.subrange(0, t.len() - 1));
    }
    let (dr, cr) = line_split(rest);
    if cr.len() > 0 {
        assert(seq![strip_cr(t)] + dr.push(cr) =~= (seq![strip_cr(t)] + dr).push(cr));
    }
}

/// The number of buffer lines is the whole number of widths in the byte
/// length, when it fits in a `u16`.
pub proof fn buf_lines_counts_whole_widths(buf: Seq<char>, width: u16)
    requires
        width > 0,
        (byte_len(buf) as int) < 65536 * (width as int),
    ensures
        buf_lines(buf, width) as int * width as int <= byte_len(buf) as int,
        (byte_len(buf) as int) < (buf_lines(buf, width) as int + 1) * width as int,
{
    let w: int = width as int;
    let b: int = byte_len(buf) as int;
    let q: int = b / w;
    assert(b == q * w + b % w) by (nonlinear_arith)
        requires
            w > 0,
            q == b / w,
    ;
    assert(0 <= b % w && b % w < w) by (nonlinear_arith)
        requires
            w > 0,
    ;
    assert(q < 65536) by (nonlinear_arith)
        requires
            b < 65536 * w,
            b == q * w + b % w,
            0 <= b % w,
            w > 0,
    ;
    assert(q >= 0) by (nonlinear_arith)
        requires
            b >= 0,
            w > 0,
            q == b / w,
    ;
    assert((q + 1) * w == q * w + w) by (nonlinear_arith);
}

/// For every terminal size, the two domains tile the screen: both span its
/// full width, the response domain starts at the top, the prompt domain starts
/// on the row just below the response domain and reaches the bottom row.
pub proof fn domains_tile_the_screen(size: (u16, u16))
    ensures
        response_origin(size) == (0u16, 0u16),
        response_extent(size).0 == size.0,
        prompt_extent(size).0 == size.0,
        prompt_origin(size).0 == 0,
        prompt_origin(size).1 == response_origin(size).1 + response_extent(size).1,
        prompt_origin(size).1 + prompt_extent(size).1 == size.1,
        3 * response_extent(size).1 <= 2 * size.1 < 3 * response_extent(size).1 + 3,
{
}

} // verus!
