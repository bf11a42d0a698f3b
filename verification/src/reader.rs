//! Reading input: one byte at a time for the pager, one line at a time
//! for inputs, whose first line decides how lines end.

use vstd::prelude::*;

verus! {

/// `Read::read` into a one-byte buffer: how many bytes came, and the
/// buffer's byte after the call. The count is at most the buffer's length,
/// one, as `Read::read` documents; which byte comes, and whether the read
/// fails, is not described: it depends on what the reader is reading.
#[verifier::external_body]
fn read_one<R: std::io::Read>(reader: &mut R) -> (r: std::io::Result<(usize, u8)>)
    ensures
        r matches Ok((n, _)) ==> n <= 1,
{
    let mut buf = [0u8; 1];
    let n = reader.read(&mut buf)?;
    Ok((n, buf[0]))
}

/// What one read of one byte reported: a count and the buffer's byte, or
/// the error it failed with.
pub enum ReadOutcome {
    Got(usize, u8),
    Failed(std::io::Error),
}

/// The outcome that a read's result stands for.
pub open spec fn outcome_of(fetched: std::io::Result<(usize, u8)>) -> ReadOutcome {
    match fetched {
        Ok((n, b)) => ReadOutcome::Got(n, b),
        Err(e) => ReadOutcome::Failed(e),
    }
}

/// A read that delivered a byte: it succeeded with a count other than zero.
pub open spec fn delivered(o: ReadOutcome) -> bool {
    o matches ReadOutcome::Got(n, _) && n != 0
}

/// A read that reported the end of the input: a count of zero.
pub open spec fn reports_end(o: ReadOutcome) -> bool {
    o matches ReadOutcome::Got(n, _) && n == 0
}

/// The byte that `read_chunk` keeps from a delivering read: the byte read
/// when exactly one came, else zero.
pub open spec fn kept_byte(o: ReadOutcome) -> u8 {
    match o {
        ReadOutcome::Got(n, b) => if n == 1 { b } else { 0 },
        ReadOutcome::Failed(_) => 0,
    }
}

/// The bytes kept from the reads `rs`, in order.
pub open spec fn kept_bytes(rs: Seq<ReadOutcome>) -> Seq<u8> {
    Seq::new(rs.len(), |i: int| kept_byte(rs[i]))
}

/// Each of the reads `rs` delivered a byte.
pub open spec fn all_delivered(rs: Seq<ReadOutcome>) -> bool {
    forall|i: int| 0 <= i < rs.len() ==> delivered(#[trigger] rs[i])
}

/// The bytes that the reads `rs` delivered, in order.
pub open spec fn delivered_bytes(rs: Seq<ReadOutcome>) -> Seq<u8>
    decreases rs.len(),
{
    if rs.len() == 0 {
        Seq::empty()
    } else if delivered(rs.last()) {
        delivered_bytes(rs.drop_last()).push(kept_byte(rs.last()))
    } else {
        delivered_bytes(rs.drop_last())
    }
}

/// The bytes that two runs of reads delivered, one after the other.
pub proof fn lemma_delivered_bytes_concat(x: Seq<ReadOutcome>, y: Seq<ReadOutcome>)
    ensures
        delivered_bytes(x + y) == delivered_bytes(x) + delivered_bytes(y),
    decreases y.len(),
{
    if y.len() == 0 {
        assert(x + y =~= x);
        assert(delivered_bytes(x) + delivered_bytes(y) =~= delivered_bytes(x));
    } else {
        lemma_delivered_bytes_concat(x, y.drop_last());
        assert((x + y).drop_last() =~= x + y.drop_last());
        assert((x + y).last() == y.last());
        if delivered(y.last()) {
            assert(delivered_bytes(x) + delivered_bytes(y) =~= (delivered_bytes(x) + delivered_bytes(
                y.drop_last(),
            )).push(kept_byte(y.last())));
        }
    }
}

/// Reads that all delivered keep one byte each.
pub proof fn lemma_delivered_bytes_all(rs: Seq<ReadOutcome>)
    requires
        all_delivered(rs),
    ensures
        delivered_bytes(rs) == kept_bytes(rs),
    decreases rs.len(),
{
    if rs.len() > 0 {
        assert(all_delivered(rs.drop_last())) by {
            assert forall|i: int| 0 <= i < rs.drop_last().len() implies delivered(
                #[trigger] rs.drop_last()[i],
            ) by {
                assert(rs.drop_last()[i] == rs[i]);
            }
        }
        lemma_delivered_bytes_all(rs.drop_last());
        assert(delivered(rs[rs.len() - 1]));
        assert(kept_bytes(rs) =~= kept_bytes(rs.drop_last()).push(kept_byte(rs.last())));
    } else {
        assert(kept_bytes(rs) =~= Seq::<u8>::empty());
    }
}

/// The bytes `v` are what one line's reads `rs` give when up to `want`
/// bytes are asked for: either `want` reads that each delivered a byte, or
/// fewer that delivered and then one that reported the end of the input.
pub open spec fn chunk_read(rs: Seq<ReadOutcome>, want: int, v: Seq<u8>) -> bool {
    ||| rs.len() == want && all_delivered(rs) && v == kept_bytes(rs)
    ||| rs.len() >= 1 && rs.len() <= want && reports_end(rs.last()) && all_delivered(rs.drop_last())
        && v == kept_bytes(rs.drop_last())
}

/// No read among `rs` reported the end of the input.
pub open spec fn no_end_reported(rs: Seq<ReadOutcome>) -> bool {
    forall|k: int| 0 <= k < rs.len() ==> !reports_end(#[trigger] rs[k])
}

/// Reads that reported no end, split into runs: no run reported one.
pub proof fn lemma_no_end_in_runs(runs: Seq<Seq<ReadOutcome>>, i: int)
    requires
        no_end_reported(runs.flatten()),
        0 <= i < runs.len(),
    ensures
        no_end_reported(runs[i]),
    decreases runs.len(),
{
    let first = runs[0];
    let rest = runs.drop_first();
    assert(runs.flatten() == first + rest.flatten());
    if i == 0 {
        assert forall|k: int| 0 <= k < first.len() implies !reports_end(#[trigger] first[k]) by {
            assert(runs.flatten()[k] == first[k]);
        }
    } else {
        assert(no_end_reported(rest.flatten())) by {
            assert forall|k: int| 0 <= k < rest.flatten().len() implies !reports_end(
                #[trigger] rest.flatten()[k],
            ) by {
                assert(runs.flatten()[first.len() + k] == rest.flatten()[k]);
            }
        }
        lemma_no_end_in_runs(rest, i - 1);
        assert(rest[i - 1] == runs[i]);
    }
}

/// Reads a file byte by byte.
pub struct ByteReader<R> {
    reader: R,
    reads: Ghost<Seq<ReadOutcome>>,
}

impl<R> ByteReader<R> {
    /// The reader that the bytes come from.
    pub closed spec fn source(&self) -> R {
        self.reader
    }

    /// What the reads made so far reported, in order.
    pub closed spec fn reads(&self) -> Seq<ReadOutcome> {
        self.reads@
    }

    pub fn new(reader: R) -> (b: Self)
        ensures
            b.source() == reader,
            b.reads() == Seq::<ReadOutcome>::empty(),
    {
        ByteReader { reader, reads: Ghost(Seq::empty()) }
    }

    /// The reader that the bytes come from, to position it.
    pub fn inner_mut(&mut self) -> (r: &mut R)
        ensures
            *r == old(self).source(),
            final(self).source() == *final(r),
            final(self).reads() == old(self).reads(),
    {
        &mut self.reader
    }
}

/// What `nextchar` makes of one read: the count read is passed on, and the
/// byte is kept only when exactly one byte came; an error is passed on and
/// leaves the byte alone.
pub fn settle_read(fetched: std::io::Result<(usize, u8)>, byte: &mut u8) -> (r: std::io::Result<usize>)
    ensures
        match fetched {
            Ok((n, b)) => r matches Ok(m) && m == n && *final(byte) == if n == 1 { b } else { *old(byte) },
            Err(e) => r matches Err(f) && f == e && *final(byte) == *old(byte),
        },
{
    match fetched {
        Ok((n, b)) => {
            if n == 1 {
                *byte = b;
            }
            Ok(n)
        },
        Err(e) => Err(e),
    }
}

/// `r` and `byte` (from `old_byte`) are what `nextchar` gives for the read
/// outcome `o`.
pub open spec fn reports(o: ReadOutcome, r: std::io::Result<usize>, old_byte: u8, byte: u8) -> bool {
    match o {
        ReadOutcome::Got(n, b) => r matches Ok(m) && m == n && byte == if n == 1 { b } else { old_byte },
        ReadOutcome::Failed(e) => r matches Err(f) && f == e && byte == old_byte,
    }
}

impl<R: std::io::Read> ByteReader<R> {
    /// Reads the next byte into `byte`; returns how many bytes were read,
    /// zero at the end of the file. Exactly one read is made, and its
    /// outcome is added to `reads`; the count (or the error) is what it
    /// reported, and `byte` takes the byte read only when exactly one came.
    pub fn nextchar(&mut self, byte: &mut u8) -> (r: std::io::Result<usize>)
        ensures
            final(self).reads().len() == old(self).reads().len() + 1,
            final(self).reads().drop_last() == old(self).reads(),
            reports(final(self).reads().last(), r, *old(byte), *final(byte)),
            final(self).reads().last() matches ReadOutcome::Got(n, _) ==> n <= 1,
    {
        let fetched = read_one(&mut self.reader);
        let ghost o = outcome_of(fetched);
        self.reads = Ghost(self.reads@.push(o));
        let r = settle_read(fetched, byte);
        assert(self.reads@.drop_last() =~= old(self).reads@);
        r
    }

    /// Reads the bytes of one line of the dump: up to `limit` bytes, fewer
    /// at the end of the file. Reads are made until `limit` bytes came, a
    /// read reports the end (a count of zero) or a read fails; the bytes
    /// kept are those of the delivering reads, in order, and a failed read
    /// makes the whole an error. With `limit` at most zero nothing is read.
    pub fn read_chunk(&mut self, limit: i32) -> (r: std::io::Result<Vec<u8>>)
        ensures
            ({
                let before = old(self).reads().len() as int;
                let rs = final(self).reads().skip(before);
                let want = if limit > 0 { limit as int } else { 0 };
                &&& final(self).reads().take(before) == old(self).reads()
                &&& final(self).reads().len() >= before
                &&& match r {
                    Ok(v) => {
                        ||| rs.len() == want && all_delivered(rs) && v@ == kept_bytes(rs)
                        ||| rs.len() >= 1 && rs.len() <= want && reports_end(rs.last())
                            && all_delivered(rs.drop_last()) && v@ == kept_bytes(rs.drop_last())
                    },
                    Err(e) => rs.len() >= 1 && rs.len() <= want && all_delivered(rs.drop_last())
                        && (rs.last() matches ReadOutcome::Failed(f) && f == e),
                }
                &&& r matches Ok(v) ==> v@ == delivered_bytes(rs) && v@.len() <= want
                &&& r matches Ok(v) ==> chunk_read(rs, want, v@)
            }),
    {
        let ghost before = self.reads@;
        let ghost b = before.len() as int;
        let mut buffer: Vec<u8> = Vec::new();
        let mut num: i32 = 0;
        while num < limit
            invariant_except_break
                buffer.len() == num,
                self.reads@.len() == b + num,
                all_delivered(self.reads@.skip(b)),
                buffer@ == kept_bytes(self.reads@.skip(b)),
            invariant
                0 <= num,
                num <= limit || num == 0,
                b == before.len(),
                before == old(self).reads(),
                self.reads@.take(b) == before,
                self.reads@.len() >= b,
            ensures
                self.reads@.take(b) == before,
                self.reads@.len() >= b,
                ({
                    let rs = self.reads@.skip(b);
                    ||| (num == limit || (limit <= 0 && num == 0)) && rs.len() == num && all_delivered(rs)
                        && buffer@ == kept_bytes(rs)
                    ||| rs.len() == num + 1 && num < limit && reports_end(rs.last())
                        && all_delivered(rs.drop_last()) && buffer@ == kept_bytes(rs.drop_last())
                }),
            decreases limit - num,
        {
            let ghost prev = self.reads@;
            let mut byte: u8 = 0;
            let res = self.nextchar(&mut byte);
            assert(self.reads@.drop_last() == prev);
            assert(self.reads@.len() == prev.len() + 1);
            assert forall|i: int| 0 <= i < prev.len() implies self.reads@[i] == prev[i] by {
                assert(self.reads@.drop_last()[i] == self.reads@[i]);
            }
            assert(self.reads@.take(b) =~= prev.take(b));
            assert(self.reads@.skip(b).drop_last() =~= prev.skip(b));
            assert(self.reads@.skip(b).last() == self.reads@.last());
            let size = match res {
                Ok(size) => size,
                Err(e) => {
                    let r: std::io::Result<Vec<u8>> = Err(e);
                    assert(self.reads@.skip(b).drop_last() == prev.skip(b));
                    assert(self.reads@.skip(b).last() == self.reads@.last());
                    return r;
                },
            };
            if size == 0 {
                break;
            }
            buffer.push(byte);
            num = num + 1;
            assert(all_delivered(self.reads@.skip(b))) by {
                assert forall|i: int| 0 <= i < self.reads@.skip(b).len() implies delivered(
                    #[trigger] self.reads@.skip(b)[i],
                ) by {
                    if i < self.reads@.skip(b).len() - 1 {
                        assert(self.reads@.skip(b)[i] == prev.skip(b)[i]);
                    }
                }
            }
            assert(buffer@ =~= kept_bytes(self.reads@.skip(b)));
        }
        proof {
            let rs = self.reads@.skip(b);
            if all_delivered(rs) && buffer@ == kept_bytes(rs) {
                lemma_delivered_bytes_all(rs);
            } else {
                lemma_delivered_bytes_all(rs.drop_last());
                assert(!delivered(rs.last()));
            }
        }
        Ok(buffer)
    }
}

/// The kind of content found at the start of an input.
#[allow(non_camel_case_types)]
#[derive(Debug, Clone, Copy, PartialEq, Eq, Structural)]
pub enum ContentType {
    BINARY,
    UTF_8,
    UTF_8_BOM,
    UTF_16LE,
    UTF_16BE,
    UTF_32LE,
    UTF_32BE,
}

/// Whether `t` is UTF-16LE, whose lines end in a line feed and a zero byte.
pub fn is_utf16le(t: Option<ContentType>) -> (b: bool)
    ensures
        b == (t == Some(ContentType::UTF_16LE)),
{
    match t {
        Some(ContentType::UTF_16LE) => true,
        _ => false,
    }
}

/// `b` begins with the bytes `p`.
pub open spec fn starts_with_bytes(b: Seq<u8>, p: Seq<u8>) -> bool {
    p.len() <= b.len() && b.take(p.len() as int) == p
}

/// How `content_inspector::inspect` classifies a buffer: by its byte order
/// mark (UTF-32 checked before UTF-16), else as binary when one of its
/// first 1024 bytes is zero or it starts like a PDF or PNG file, else as
/// UTF-8.
pub open spec fn inspected(b: Seq<u8>) -> ContentType {
    if starts_with_bytes(b, seq![0xEFu8, 0xBBu8, 0xBFu8]) {
        ContentType::UTF_8_BOM
    } else if starts_with_bytes(b, seq![0x00u8, 0x00u8, 0xFEu8, 0xFFu8]) {
        ContentType::UTF_32BE
    } else if starts_with_bytes(b, seq![0xFFu8, 0xFEu8, 0x00u8, 0x00u8]) {
        ContentType::UTF_32LE
    } else if starts_with_bytes(b, seq![0xFEu8, 0xFFu8]) {
        ContentType::UTF_16BE
    } else if starts_with_bytes(b, seq![0xFFu8, 0xFEu8]) {
        ContentType::UTF_16LE
    } else if exists|i: int| 0 <= i < b.len() && i < 1024 && b[i] == 0 {
        ContentType::BINARY
    } else if starts_with_bytes(b, seq![0x25u8, 0x50u8, 0x44u8, 0x46u8])
        || starts_with_bytes(b, seq![0x89u8, 0x50u8, 0x4Eu8, 0x47u8]) {
        ContentType::BINARY
    } else {
        ContentType::UTF_8
    }
}

/// `content_inspector::inspect`, whose whole rule `inspected` states as the
/// crate's source has it.
#[verifier::external_body]
fn inspect(buffer: &[u8]) -> (t: ContentType)
    ensures
        t == inspected(buffer@),
{
    match content_inspector::inspect(buffer) {
        content_inspector::ContentType::BINARY => ContentType::BINARY,
        content_inspector::ContentType::UTF_8 => ContentType::UTF_8,
        content_inspector::ContentType::UTF_8_BOM => ContentType::UTF_8_BOM,
        content_inspector::ContentType::UTF_16LE => ContentType::UTF_16LE,
        content_inspector::ContentType::UTF_16BE => ContentType::UTF_16BE,
        content_inspector::ContentType::UTF_32LE => ContentType::UTF_32LE,
        content_inspector::ContentType::UTF_32BE => ContentType::UTF_32BE,
    }
}

/// The content type of a first line: none for an empty one.
pub open spec fn line_content(line: Seq<u8>) -> Option<ContentType> {
    if line.len() == 0 {
        None
    } else {
        Some(inspected(line))
    }
}

/// The content type of the first line `line`, as the input reader records it.
pub fn content_of(line: &Vec<u8>) -> (t: Option<ContentType>)
    ensures
        t == line_content(line@),
{
    if line.len() == 0 {
        None
    } else {
        Some(inspect(line.as_slice()))
    }
}

/// `after` is `before` with bytes added that hold `delim` at most as the
/// last one: what `BufRead::read_until` adds.
pub open spec fn read_until_extends(before: Seq<u8>, after: Seq<u8>, delim: u8) -> bool {
    &&& before.len() <= after.len()
    &&& after.take(before.len() as int) == before
    &&& forall|k: int| before.len() <= k < after.len() - 1 ==> after[k] != delim
}

/// `BufRead::read_until`: appends bytes up to and including `delim` (or to
/// the end of input) to `buf`, and returns how many. On an error the bytes
/// read so far stay in `buf`. Which bytes come is not described.
#[verifier::external_body]
fn read_until<R: std::io::BufRead>(reader: &mut R, delim: u8, buf: &mut Vec<u8>) -> (r: std::io::Result<usize>)
    ensures
        read_until_extends(old(buf)@, final(buf)@, delim),
        r matches Ok(n) ==> final(buf)@.len() == old(buf)@.len() + n,
{
    reader.read_until(delim, buf)
}

/// What a fresh input reader holds: `first_line` is a first line read up to
/// a line feed, `content_type` is that line's content type, and a UTF-16LE
/// line is read on to the next zero byte.
pub open spec fn read_ahead(first_line: Seq<u8>, content_type: Option<ContentType>) -> bool {
    exists|line: Seq<u8>| {
        &&& read_until_extends(Seq::empty(), line, 0x0Au8)
        &&& content_type == line_content(line)
        &&& if content_type == Some(ContentType::UTF_16LE) {
            read_until_extends(line, first_line, 0x00u8)
        } else {
            first_line == line
        }
    }
}

/// Reads an input line by line; the first line is read ahead to tell what
/// the input holds.
pub struct InputReader<R> {
    pub inner: R,
    pub first_line: Vec<u8>,
    pub content_type: Option<ContentType>,
}

impl<R: std::io::BufRead> InputReader<R> {
    /// Reads the first line ahead and records its content type; a UTF-16LE
    /// line, whose line feed is followed by a zero byte, is read on to the
    /// next zero byte.
    pub fn new(reader: R) -> (r: InputReader<R>)
        ensures
            read_ahead(r.first_line@, r.content_type),
    {
        let mut reader = reader;
        let mut first_line: Vec<u8> = Vec::new();
        let _ = read_until(&mut reader, 0x0A, &mut first_line);
        let ghost line = first_line@;
        let content_type = content_of(&first_line);
        if is_utf16le(content_type) {
            let _ = read_until(&mut reader, 0x00, &mut first_line);
        }
        let r = InputReader { inner: reader, first_line, content_type };
        assert({
            &&& read_until_extends(Seq::empty(), line, 0x0Au8)
            &&& r.content_type == line_content(line)
            &&& if r.content_type == Some(ContentType::UTF_16LE) {
                read_until_extends(line, r.first_line@, 0x00u8)
            } else {
                r.first_line@ == line
            }
        });
        r
    }

    /// Appends the next line to `buf`: the line read ahead, if it is still
    /// there, else a line read now (for UTF-16LE, on to the next zero
    /// byte). Tells whether the line read now was not empty.
    pub fn read_line(&mut self, buf: &mut Vec<u8>) -> (r: std::io::Result<bool>)
        ensures
            final(self).content_type == old(self).content_type,
            final(self).first_line@.len() == 0,
            old(self).first_line@.len() > 0 ==> (r matches Ok(true)
                && final(buf)@ == old(buf)@ + old(self).first_line@),
            old(self).first_line@.len() == 0 ==> exists|line: Seq<u8>| {
                &&& read_until_extends(old(buf)@, line, 0x0Au8)
                &&& (r matches Ok(b) ==> b == (line.len() > old(buf)@.len()))
                &&& if r is Ok && old(self).content_type == Some(ContentType::UTF_16LE) {
                    read_until_extends(line, final(buf)@, 0x00u8)
                } else {
                    final(buf)@ == line
                }
            },
    {
        if self.first_line.len() > 0 {
            buf.append(&mut self.first_line);
            return Ok(true);
        }
        let ghost start = buf@;
        let res = read_until(&mut self.inner, 0x0A, buf);
        let ghost line = buf@;
        let size = match res {
            Ok(size) => size,
            Err(e) => {
                let r: std::io::Result<bool> = Err(e);
                assert(read_until_extends(start, line, 0x0Au8) && buf@ == line);
                return r;
            },
        };
        if is_utf16le(self.content_type) {
            let _ = read_until(&mut self.inner, 0x00, buf);
        }
        let r: std::io::Result<bool> = Ok(size > 0);
        assert({
            &&& read_until_extends(start, line, 0x0Au8)
            &&& (r matches Ok(b) ==> b == (line.len() > start.len()))
            &&& if r is Ok && self.content_type == Some(ContentType::UTF_16LE) {
                read_until_extends(line, buf@, 0x00u8)
            } else {
                buf@ == line
            }
        });
        r
    }
}

} // verus!
