//! Files of one JSON value per line, written by appending and read in blocks.
use vstd::prelude::*;
use vstd::string::*;

verus! {

/// How many bytes stand before the first line feed, or all of them.
pub open spec fn line_feed_at(s: Seq<u8>) -> nat
    decreases s.len(),
{
    if s.len() == 0 || s[0] == 10 {
        0
    } else {
        1 + line_feed_at(s.drop_first())
    }
}

/// Where the first line feed stands.
pub proof fn lemma_line_feed_at(s: Seq<u8>)
    ensures
        line_feed_at(s) <= s.len(),
        line_feed_at(s) < s.len() ==> s[line_feed_at(s) as int] == 10,
        forall|i: int| 0 <= i < line_feed_at(s) ==> #[trigger] s[i] != 10,
    decreases s.len(),
{
    if s.len() > 0 && s[0] != 10 {
        lemma_line_feed_at(s.drop_first());
        assert forall|i: int| 0 <= i < line_feed_at(s) implies #[trigger] s[i] != 10 by {
            if i > 0 {
                assert(s[i] == s.drop_first()[i - 1]);
            }
        }
        if line_feed_at(s) < s.len() {
            assert(s[line_feed_at(s) as int] == s.drop_first()[line_feed_at(s) - 1]);
        }
    }
}

proof fn lemma_line_feed_is(s: Seq<u8>, n: int)
    requires
        0 <= n <= s.len(),
        forall|i: int| 0 <= i < n ==> #[trigger] s[i] != 10,
        n < s.len() ==> s[n] == 10,
    ensures
        line_feed_at(s) == n,
{
    lemma_line_feed_at(s);
    if line_feed_at(s) < n {
        assert(s[line_feed_at(s) as int] != 10);
    }
    if n < line_feed_at(s) {
        assert(s[n] != 10);
    }
}

/// A line without the carriage return that may stand before its line feed.
pub open spec fn without_return(line: Seq<u8>) -> Seq<u8> {
    if line.len() > 0 && line.last() == 13 {
        line.drop_last()
    } else {
        line
    }
}

/// The lines that end in a line feed.
pub open spec fn whole_lines(s: Seq<u8>) -> Seq<Seq<u8>>
    decreases s.len(),
    via whole_lines_decreases
{
    let n = line_feed_at(s) as int;
    if n >= s.len() {
        Seq::empty()
    } else {
        seq![without_return(s.take(n))] + whole_lines(s.skip(n + 1))
    }
}

#[via_fn]
proof fn whole_lines_decreases(s: Seq<u8>) {
    lemma_line_feed_at(s);
}

/// What stands behind the last line feed.
pub open spec fn remainder(s: Seq<u8>) -> Seq<u8>
    decreases s.len(),
    via remainder_decreases
{
    let n = line_feed_at(s) as int;
    if n >= s.len() {
        s
    } else {
        remainder(s.skip(n + 1))
    }
}

#[via_fn]
proof fn remainder_decreases(s: Seq<u8>) {
    lemma_line_feed_at(s);
}

/// All lines: those that end in a line feed, and what stands behind the last one, if anything.
pub open spec fn lines(s: Seq<u8>) -> Seq<Seq<u8>> {
    if remainder(s).len() == 0 {
        whole_lines(s)
    } else {
        whole_lines(s).push(remainder(s))
    }
}

/// Reading in two parts gives the same lines as reading at once, wherever the cut is.
pub proof fn reading_in_parts(a: Seq<u8>, b: Seq<u8>)
    ensures
        whole_lines(a + b) == whole_lines(a) + whole_lines(remainder(a) + b),
        remainder(a + b) == remainder(remainder(a) + b),
    decreases a.len(),
{
    lemma_line_feed_at(a);
    let n = line_feed_at(a) as int;
    if n >= a.len() {
        assert(whole_lines(a) + whole_lines(remainder(a) + b) == whole_lines(a + b));
    } else {
        let s = a + b;
        assert forall|i: int| 0 <= i < n implies #[trigger] s[i] != 10 by {
            assert(s[i] == a[i]);
        }
        assert(s[n] == a[n]);
        lemma_line_feed_is(s, n);
        assert(s.take(n) == a.take(n));
        assert(s.skip(n + 1) == a.skip(n + 1) + b);
        reading_in_parts(a.skip(n + 1), b);
        assert(seq![without_return(a.take(n))] + (whole_lines(a.skip(n + 1)) + whole_lines(
            remainder(a.skip(n + 1)) + b,
        )) == (seq![without_return(a.take(n))] + whole_lines(a.skip(n + 1))) + whole_lines(
            remainder(a.skip(n + 1)) + b,
        ));
    }
}

/// A value that fits on one line: it holds no line feed and ends in no carriage return.
pub open spec fn fits_on_line(json: Seq<u8>) -> bool {
    &&& !json.contains(10)
    &&& json.len() > 0 ==> json.last() != 13
}

/// The bytes a value takes in the file.
pub open spec fn framed(json: Seq<u8>) -> Seq<u8> {
    json.push(10)
}

/// Appending a value to a file of whole lines adds one line, the value, and keeps the lines
/// before it.
pub proof fn appending_adds_a_line(file: Seq<u8>, json: Seq<u8>)
    requires
        remainder(file).len() == 0,
        fits_on_line(json),
    ensures
        lines(file + framed(json)) == lines(file).push(json),
        remainder(file + framed(json)).len() == 0,
{
    let s = framed(json);
    reading_in_parts(file, s);
    assert(remainder(file) + s == s);
    assert forall|i: int| 0 <= i < json.len() implies #[trigger] s[i] != 10 by {
        assert(s[i] == json[i]);
        assert(json.contains(json[i]));
    }
    lemma_line_feed_is(s, json.len() as int);
    assert(s.take(json.len() as int) == json);
    let rest = s.skip(json.len() as int + 1);
    assert(rest.len() == 0);
    assert(whole_lines(rest).len() == 0);
    assert(whole_lines(s) == seq![json]);
    assert(remainder(s) == remainder(rest));
    assert(whole_lines(file) + seq![json] == whole_lines(file).push(json));
}

/// A file written by appending values.
pub open spec fn appended(values: Seq<Seq<u8>>) -> Seq<u8>
    decreases values.len(),
{
    if values.len() == 0 {
        Seq::empty()
    } else {
        appended(values.drop_last()) + framed(values.last())
    }
}

/// Reading a file of whole lines to which values were appended gives the lines that were there,
/// and behind them the values, one by one.
pub proof fn reading_goes_on_behind_earlier_lines(file: Seq<u8>, values: Seq<Seq<u8>>)
    requires
        remainder(file).len() == 0,
        forall|i: int| 0 <= i < values.len() ==> fits_on_line(#[trigger] values[i]),
    ensures
        lines(file + appended(values)) == lines(file) + values,
        remainder(file + appended(values)).len() == 0,
    decreases values.len(),
{
    if values.len() > 0 {
        let head = values.drop_last();
        assert forall|i: int| 0 <= i < head.len() implies fits_on_line(#[trigger] head[i]) by {
            assert(head[i] == values[i]);
        }
        reading_goes_on_behind_earlier_lines(file, head);
        assert(fits_on_line(values[values.len() - 1]));
        appending_adds_a_line(file + appended(head), values.last());
        assert(file + (appended(head) + framed(values.last())) == (file + appended(head)) + framed(
            values.last(),
        ));
        assert((lines(file) + head).push(values.last()) == lines(file) + values);
    } else {
        assert(file + appended(values) == file);
        assert(lines(file) + values == lines(file));
    }
}

/// Reading a file gives back what was appended to it, value for value.
pub proof fn reading_gives_back_what_was_appended(values: Seq<Seq<u8>>)
    requires
        forall|i: int| 0 <= i < values.len() ==> fits_on_line(#[trigger] values[i]),
    ensures
        lines(appended(values)) == values,
        remainder(appended(values)).len() == 0,
{
    let nothing = Seq::<u8>::empty();
    reading_goes_on_behind_earlier_lines(nothing, values);
    assert(nothing + appended(values) == appended(values));
    assert(lines(nothing) + values == values);
}

/// Writes values to the end of the file at `path`, which is never truncated.
#[derive(Debug)]
pub struct JsonlWriter {
    pub path: String,
}

impl JsonlWriter {
    /// A writer for the file at this path, to be opened for appending and created if missing.
    pub fn new(path: &str) -> (r: JsonlWriter)
        ensures
            r.path@ == path@,
    {
        JsonlWriter { path: path.to_owned() }
    }

    /// The bytes to append and flush for one value: the value and a line feed.
    pub fn append(&self, json: Vec<u8>) -> (r: Vec<u8>)
        ensures
            r@ == framed(json@),
    {
        let mut out = json;
        out.push(10);
        out
    }
}

/// Reads a file in blocks and gives out its lines as they complete.
#[derive(Debug)]
pub struct LineReader {
    pub pending: Vec<u8>,
}

/// A list of byte strings.
pub open spec fn byte_lines(v: Seq<Vec<u8>>) -> Seq<Seq<u8>> {
    v.map_values(|l: Vec<u8>| l@)
}

impl LineReader {
    pub fn new() -> (r: LineReader)
        ensures
            r.pending@.len() == 0,
    {
        LineReader { pending: Vec::new() }
    }

    /// Takes in a block, and gives out the lines it completes.
    pub fn feed(&mut self, block: &Vec<u8>) -> (r: Vec<Vec<u8>>)
        requires
            remainder(old(self).pending@) == old(self).pending@,
        ensures
            byte_lines(r@) == whole_lines(old(self).pending@ + block@),
            final(self).pending@ == remainder(old(self).pending@ + block@),
            remainder(final(self).pending@) == final(self).pending@,
    {
        let ghost start = self.pending@;
        let ghost all = start + block@;
        let mut out: Vec<Vec<u8>> = Vec::new();
        let mut i: usize = 0;
        assert(start + block@.take(0) == start);
        proof {
            lemma_no_feed(start);
            assert(byte_lines(out@) =~= whole_lines(start));
        }
        while i < block.len()
            invariant
                i <= block@.len(),
                byte_lines(out@) == whole_lines(start + block@.take(i as int)),
                self.pending@ == remainder(start + block@.take(i as int)),
                remainder(self.pending@) == self.pending@,
            decreases block@.len() - i,
        {
            let b: u8 = block[i];
            let ghost seen = start + block@.take(i as int);
            let ghost p = self.pending@;
            assert(start + block@.take(i + 1) == seen + seq![b]);
            proof {
                reading_in_parts(seen, seq![b]);
                lemma_no_feed(p);
                assert(p + seq![b] == p.push(b));
                lemma_one_more(p, b);
            }
            if b == 10 {
                let mut line: Vec<u8> = Vec::new();
                std::mem::swap(&mut line, &mut self.pending);
                if line.len() > 0 && line[line.len() - 1] == 13 {
                    line.pop();
                }
                assert(line@ == without_return(p));
                out.push(line);
                assert(byte_lines(out@) == whole_lines(seen) + seq![line@]);
            } else {
                self.pending.push(b);
                assert(whole_lines(seen) + Seq::<Seq<u8>>::empty() == whole_lines(seen));
            }
            i = i + 1;
        }
        assert(block@.take(i as int) == block@);
        out
    }

    /// The last line, where the file does not end in a line feed.
    pub fn finish(self) -> (r: Option<Vec<u8>>)
        ensures
            match r {
                Some(l) => self.pending@.len() > 0 && l@ == self.pending@,
                None => self.pending@.len() == 0,
            },
    {
        if self.pending.len() == 0 {
            None
        } else {
            Some(self.pending)
        }
    }
}

/// What was read from a file in these blocks.
pub open spec fn all_of(blocks: Seq<Seq<u8>>) -> Seq<u8>
    decreases blocks.len(),
{
    if blocks.len() == 0 {
        Seq::empty()
    } else {
        all_of(blocks.drop_last()) + blocks.last()
    }
}

/// What a reader still holds after these blocks.
pub open spec fn held(blocks: Seq<Seq<u8>>) -> Seq<u8>
    decreases blocks.len(),
{
    if blocks.len() == 0 {
        Seq::empty()
    } else {
        remainder(held(blocks.drop_last()) + blocks.last())
    }
}

/// The lines a reader gave out over these blocks.
pub open spec fn given_out(blocks: Seq<Seq<u8>>) -> Seq<Seq<u8>>
    decreases blocks.len(),
{
    if blocks.len() == 0 {
        Seq::empty()
    } else {
        given_out(blocks.drop_last()) + whole_lines(held(blocks.drop_last()) + blocks.last())
    }
}

/// However a file is cut into blocks, a reader gives out the same lines, and is left with what
/// stands behind the last line feed.
pub proof fn blocks_do_not_matter(blocks: Seq<Seq<u8>>)
    ensures
        given_out(blocks) == whole_lines(all_of(blocks)),
        held(blocks) == remainder(all_of(blocks)),
        remainder(held(blocks)) == held(blocks),
    decreases blocks.len(),
{
    if blocks.len() == 0 {
        assert(given_out(blocks) =~= whole_lines(all_of(blocks)));
        assert(held(blocks) =~= remainder(all_of(blocks)));
    } else {
        let head = blocks.drop_last();
        blocks_do_not_matter(head);
        reading_in_parts(all_of(head), blocks.last());
        lemma_remainder_shorter(held(head) + blocks.last());
    }
}

/// What is its own remainder holds no line feed.
proof fn lemma_no_feed(s: Seq<u8>)
    requires
        remainder(s) == s,
    ensures
        line_feed_at(s) == s.len(),
        whole_lines(s).len() == 0,
{
    lemma_line_feed_at(s);
    let n = line_feed_at(s) as int;
    if n < s.len() {
        lemma_remainder_shorter(s.skip(n + 1));
    }
}

proof fn lemma_remainder_shorter(s: Seq<u8>)
    ensures
        remainder(s).len() <= s.len(),
        remainder(remainder(s)) == remainder(s),
    decreases s.len(),
{
    lemma_line_feed_at(s);
    let n = line_feed_at(s) as int;
    if n < s.len() {
        lemma_remainder_shorter(s.skip(n + 1));
    }
}

/// One more byte behind a stretch without line feeds.
proof fn lemma_one_more(p: Seq<u8>, b: u8)
    requires
        line_feed_at(p) == p.len(),
    ensures
        b == 10 ==> whole_lines(p.push(b)) == seq![without_return(p)] && remainder(
            p.push(b),
        ).len() == 0,
        b != 10 ==> whole_lines(p.push(b)).len() == 0 && remainder(p.push(b)) == p.push(b),
{
    let s = p.push(b);
    lemma_line_feed_at(p);
    assert forall|i: int| 0 <= i < p.len() implies #[trigger] s[i] != 10 by {
        assert(s[i] == p[i]);
    }
    if b == 10 {
        lemma_line_feed_is(s, p.len() as int);
        assert(s.take(p.len() as int) == p);
        let rest = s.skip(p.len() as int + 1);
        assert(rest.len() == 0);
        assert(whole_lines(rest).len() == 0);
        assert(whole_lines(s) == seq![without_return(p)]);
        assert(remainder(s) == remainder(rest));
        assert(remainder(rest) == rest);
    } else {
        assert forall|i: int| 0 <= i < s.len() implies #[trigger] s[i] != 10 by {
            if i < p.len() {
                assert(s[i] == p[i]);
            }
        }
        lemma_line_feed_is(s, s.len() as int);
    }
}

/// A line ends at its line feed. A carriage return directly before that is no part of the line,
/// and any other is; what stands behind the line feed is read by itself.
pub proof fn lines_end_at_their_line_feed(line: Seq<u8>, rest: Seq<u8>)
    requires
        !line.contains(10),
    ensures
        lines(line.push(13).push(10) + rest) == seq![line] + lines(rest),
        line.len() > 0 && line.last() == 13 ==> lines(line.push(10) + rest) == seq![
            line.drop_last(),
        ] + lines(rest),
        line.len() == 0 || line.last() != 13 ==> lines(line.push(10) + rest) == seq![line] + lines(
            rest,
        ),
        line.len() > 0 ==> lines(line) == seq![line],
        lines(Seq::empty()).len() == 0,
{
    lemma_first_line(line, rest);
    let returned = line.push(13);
    assert forall|b: u8| returned.contains(b) && b == 10 implies false by {
        let i = choose|i: int| 0 <= i < returned.len() && returned[i] == b;
        if i < line.len() {
            assert(line.contains(line[i]));
        }
    }
    lemma_first_line(returned, rest);
    assert(returned.drop_last() == line);
    assert forall|i: int| 0 <= i < line.len() implies #[trigger] line[i] != 10 by {
        assert(line.contains(line[i]));
    }
    lemma_line_feed_is(line, line.len() as int);
    assert(whole_lines(line).len() == 0);
    assert(whole_lines(line).push(line) =~= seq![line]);
    let nothing = Seq::<u8>::empty();
    lemma_line_feed_is(nothing, 0);
    assert(remainder(nothing) == nothing);
}

proof fn lemma_first_line(line: Seq<u8>, rest: Seq<u8>)
    requires
        !line.contains(10),
    ensures
        lines(line.push(10) + rest) == seq![without_return(line)] + lines(rest),
{
    let s = line.push(10) + rest;
    let n = line.len() as int;
    assert forall|i: int| 0 <= i < n implies #[trigger] s[i] != 10 by {
        assert(s[i] == line[i]);
        assert(line.contains(line[i]));
    }
    assert(s[n] == 10);
    lemma_line_feed_is(s, n);
    assert(s.take(n) == line);
    assert(s.skip(n + 1) == rest);
    assert(whole_lines(s) == seq![without_return(line)] + whole_lines(rest));
    assert(remainder(s) == remainder(rest));
    assert((seq![without_return(line)] + whole_lines(rest)).push(remainder(rest)) =~= seq![
        without_return(line),
    ] + whole_lines(rest).push(remainder(rest)));
}

} // verus!
