//! Parser for the fixed-column PDB coordinate file format.
//!
//! The library turns a complete text buffer into an ordered sequence of typed
//! records.  Each line is classified by its six-byte tag and decoded by the
//! codec for that record kind; undecodable lines are dropped.  A final pass
//! backfills missing atom serial numbers.  A sequential and a parallel driver
//! are proved to produce identical output.

use vstd::prelude::*;
use vstd::string::StringSliceAdditionalSpecFns;
use rayon::iter::{IntoParallelRefIterator, ParallelIterator};

pub mod field;
pub mod decimal;
pub mod records;
pub mod render;

use records::atom::with_serial;
use records::{classify_spec, codec_sel, run_codec, DecodeError, Record, RecordV};

verus! {

/// Bytes that count as whitespace when a field is trimmed.
pub open spec fn is_space(b: u8) -> bool {
    b == 0x20 || b == 0x09 || b == 0x0a || b == 0x0b || b == 0x0c || b == 0x0d
}

// ---------------------------------------------------------------------------
// Line splitting
// ---------------------------------------------------------------------------

/// Index of the first newline byte, or the length when there is none.
pub open spec fn first_nl(s: Seq<u8>) -> int
    decreases s.len(),
{
    if s.len() == 0 {
        0
    } else if s[0] == 0x0a {
        0
    } else {
        1 + first_nl(s.drop_first())
    }
}

proof fn lemma_first_nl(s: Seq<u8>)
    ensures
        0 <= first_nl(s) <= s.len(),
        forall|i: int| 0 <= i < first_nl(s) ==> s[i] != 0x0a,
        first_nl(s) < s.len() ==> s[first_nl(s)] == 0x0a,
    decreases s.len(),
{
    if s.len() > 0 && s[0] != 0x0a {
        lemma_first_nl(s.drop_first());
        assert forall|i: int| 0 <= i < first_nl(s) implies s[i] != 0x0a by {
            if i >= 1 {
                assert(s.drop_first()[i - 1] == s[i]);
            }
        }
    }
}

/// A line with one trailing carriage return removed, as happens when the
/// newline that ended it was preceded by one.
pub open spec fn strip_cr(l: Seq<u8>) -> Seq<u8> {
    if l.len() > 0 && l.last() == 0x0d {
        l.drop_last()
    } else {
        l
    }
}

/// The lines of a text buffer: split at each newline, a carriage return
/// before the newline dropped, no empty line after a final newline, and a
/// last line without newline kept verbatim.
pub open spec fn spec_lines(s: Seq<u8>) -> Seq<Seq<u8>>
    decreases s.len(),
    via spec_lines_decreases
{
    if s.len() == 0 {
        Seq::empty()
    } else {
        let k = first_nl(s);
        if k == s.len() {
            seq![s]
        } else {
            seq![strip_cr(s.take(k))] + spec_lines(s.skip(k + 1))
        }
    }
}

#[via_fn]
proof fn spec_lines_decreases(s: Seq<u8>) {
    lemma_first_nl(s);
}

/// The views of a vector of owned lines.
pub open spec fn lines_view(v: Seq<Vec<u8>>) -> Seq<Seq<u8>> {
    v.map_values(|l: Vec<u8>| l@)
}

/// Split a buffer into its lines.
pub fn split_lines(text: &[u8]) -> (r: Vec<Vec<u8>>)
    ensures
        lines_view(r@) == spec_lines(text@),
{
    let n = text.len();
    let mut out: Vec<Vec<u8>> = Vec::new();
    let mut start: usize = 0;
    let mut j: usize = 0;
    proof {
        assert(text@.skip(0) =~= text@);
        assert(lines_view(out@) + spec_lines(text@.skip(0)) =~= spec_lines(text@));
    }
    while j < n
        invariant
            start <= j <= n == text@.len(),
            spec_lines(text@) == lines_view(out@) + spec_lines(text@.skip(start as int)),
            forall|i: int| start <= i < j ==> text@[i] != 0x0a,
        decreases n - j,
    {
        if text[j] == 0x0a {
            let ghost rest = text@.skip(start as int);
            proof {
                lemma_first_nl(rest);
                assert(first_nl(rest) == j - start) by {
                    assert(forall|i: int| 0 <= i < j - start ==> rest[i] != 0x0a);
                    assert(rest[j - start] == 0x0a);
                    if first_nl(rest) < j - start {
                        assert(rest[first_nl(rest)] != 0x0a);
                    }
                    if first_nl(rest) > j - start {
                        assert(rest[j - start] != 0x0a);
                    }
                }
                assert(rest.take(j - start) =~= text@.subrange(start as int, j as int));
                assert(rest.skip(j - start + 1) =~= text@.skip(j + 1));
            }
            let chunk: Vec<u8> = if j > start && text[j - 1] == 0x0d {
                vstd::slice::slice_to_vec(vstd::slice::slice_subrange(text, start, j - 1))
            } else {
                vstd::slice::slice_to_vec(vstd::slice::slice_subrange(text, start, j))
            };
            proof {
                assert(chunk@ == strip_cr(text@.subrange(start as int, j as int))) by {
                    let c = text@.subrange(start as int, j as int);
                    if j > start && text@[j - 1] == 0x0d {
                        assert(c.last() == 0x0d);
                        assert(c.drop_last() =~= text@.subrange(start as int, j - 1));
                    }
                }
            }
            out.push(chunk);
            proof {
                assert(lines_view(out@) =~= lines_view(out@.drop_last()) + seq![
                    strip_cr(text@.subrange(start as int, j as int)),
                ]);
                assert(lines_view(out@.drop_last()) + (seq![
                    strip_cr(text@.subrange(start as int, j as int)),
                ] + spec_lines(text@.skip(j + 1))) =~= lines_view(out@) + spec_lines(
                    text@.skip(j + 1),
                ));
            }
            start = j + 1;
        }
        j = j + 1;
    }
    if start < n {
        let ghost rest = text@.skip(start as int);
        proof {
            lemma_first_nl(rest);
            assert(first_nl(rest) == rest.len()) by {
                assert(forall|i: int| 0 <= i < rest.len() ==> rest[i] != 0x0a);
                if first_nl(rest) < rest.len() {
                    assert(rest[first_nl(rest)] != 0x0a);
                }
            }
        }
        let tail: Vec<u8> = vstd::slice::slice_to_vec(vstd::slice::slice_subrange(text, start, n));
        proof {
            assert(tail@ =~= rest);
        }
        out.push(tail);
        proof {
            assert(lines_view(out@) =~= lines_view(out@.drop_last()) + seq![rest]);
            assert(spec_lines(rest) =~= seq![rest]);
            assert(lines_view(out@.drop_last()) + spec_lines(rest) =~= lines_view(out@));
        }
    } else {
        proof {
            assert(text@.skip(start as int) =~= Seq::<u8>::empty());
        }
    }
    proof {
        assert(lines_view(out@) =~= spec_lines(text@));
    }
    out
}

// ---------------------------------------------------------------------------
// Per-line decoding
// ---------------------------------------------------------------------------

/// An optional record taken to its view.
pub open spec fn opt_view<T: View>(o: Option<T>) -> Option<T::V> {
    match o {
        Some(v) => Some(v@),
        None => None,
    }
}

/// The record one line yields, or nothing when it is dropped: too short,
/// unrecognized, or refused by its codec.
pub open spec fn line_record(l: Seq<u8>) -> Option<RecordV> {
    match classify_spec(l) {
        Ok(r) => Some(r),
        Err(_) => None,
    }
}

/// The per-line outcomes of a sequence of lines, in order.
pub open spec fn line_records(ls: Seq<Seq<u8>>) -> Seq<Option<RecordV>> {
    ls.map_values(|l: Seq<u8>| line_record(l))
}

/// The present outcomes, kept in order.
pub open spec fn collect_some(os: Seq<Option<RecordV>>) -> Seq<RecordV>
    decreases os.len(),
{
    if os.len() == 0 {
        Seq::empty()
    } else {
        match os.last() {
            Some(r) => collect_some(os.drop_last()).push(r),
            None => collect_some(os.drop_last()),
        }
    }
}

/// The records a sequence of lines decodes to, dropped lines gone, order
/// kept.
pub open spec fn decoded(ls: Seq<Seq<u8>>) -> Seq<RecordV> {
    collect_some(line_records(ls))
}

/// Decode one line, dropping the error of an undecodable one.
pub fn decode_line(line: &[u8]) -> (r: Option<Record>)
    ensures
        opt_view(r) == line_record(line@),
{
    match Record::decode(line) {
        Ok(rec) => Some(rec),
        Err(_) => None,
    }
}

// ---------------------------------------------------------------------------
// The serial normalizer
// ---------------------------------------------------------------------------

/// The successor of the normalizer's 32-bit counter.
pub open spec fn wrap_inc(c: u32) -> u32 {
    if c == 0xffff_ffff {
        0
    } else {
        (c + 1) as u32
    }
}

/// How one record moves the normalizer's counter: a zero-serial atom
/// advances it, a declared serial re-baselines it, and any other record
/// leaves it alone.
pub open spec fn counter_step(c: u32, r: RecordV) -> u32 {
    match r {
        RecordV::Atom(a) => if a.serial == 0 {
            wrap_inc(c)
        } else {
            a.serial
        },
        _ => c,
    }
}

/// The counter after one ordered pass over `rs`, started at zero.
pub open spec fn counter_after(rs: Seq<RecordV>) -> u32
    decreases rs.len(),
{
    if rs.len() == 0 {
        0
    } else {
        counter_step(counter_after(rs.drop_last()), rs.last())
    }
}

/// One record as the normalizer leaves it when the counter stands at `c`:
/// a zero-serial atom takes the advanced counter, everything else passes
/// through untouched.
pub open spec fn norm_one(r: RecordV, c: u32) -> RecordV {
    match r {
        RecordV::Atom(a) => if a.serial == 0 {
            RecordV::Atom(with_serial(a, wrap_inc(c)))
        } else {
            r
        },
        _ => r,
    }
}

/// The one ordered normalizing pass: each record is rewritten under the
/// counter that the records before it produced.
pub open spec fn normalize_spec(rs: Seq<RecordV>) -> Seq<RecordV> {
    Seq::new(rs.len(), |i: int| norm_one(rs[i], counter_after(rs.take(i))))
}

/// The views of a vector of records.
pub open spec fn recs_view(v: Seq<Record>) -> Seq<RecordV> {
    v.map_values(|r: Record| r@)
}

/// What the whole parse yields: lines, per-line decoding with failures
/// dropped, then the normalizing pass, order stable with the input.
pub open spec fn parse_spec(text: Seq<u8>) -> Seq<RecordV> {
    normalize_spec(decoded(spec_lines(text)))
}

proof fn lemma_normalize_snoc(rs: Seq<RecordV>, r: RecordV)
    ensures
        normalize_spec(rs.push(r)) =~= normalize_spec(rs).push(norm_one(r, counter_after(rs))),
{
    assert forall|i: int| 0 <= i < rs.len() + 1 implies normalize_spec(rs.push(r))[i]
        == normalize_spec(rs).push(norm_one(r, counter_after(rs)))[i] by {
        if i < rs.len() {
            assert(rs.push(r).take(i) =~= rs.take(i));
            assert(rs.push(r)[i] == rs[i]);
        } else {
            assert(rs.push(r).take(i) =~= rs);
        }
    }
}

proof fn lemma_counter_snoc(rs: Seq<RecordV>, r: RecordV)
    ensures
        counter_after(rs.push(r)) == counter_step(counter_after(rs), r),
{
    assert(rs.push(r).drop_last() =~= rs);
}

proof fn lemma_collect_snoc(os: Seq<Option<RecordV>>, o: Option<RecordV>)
    ensures
        collect_some(os.push(o)) == (match o {
            Some(r) => collect_some(os).push(r),
            None => collect_some(os),
        }),
{
    assert(os.push(o).drop_last() =~= os);
}

/// Rewrite zero atom serials over one ordered pass: a single counter starts
/// at zero, a declared serial re-baselines it, and each zero-serial atom
/// takes the next value; every other record passes through untouched.
pub fn normalize(records: Vec<Record>) -> (out: Vec<Record>)
    ensures
        recs_view(out@) == normalize_spec(recs_view(records@)),
{
    let ghost orig = records@;
    let mut v = records;
    let mut rev: Vec<Record> = Vec::new();
    while v.len() > 0
        invariant
            v@ == orig.take(v@.len() as int),
            rev@.len() + v@.len() == orig.len(),
            forall|i: int| 0 <= i < rev@.len() ==> rev@[i] == orig[orig.len() - 1 - i],
        decreases v@.len(),
    {
        proof {
            assert(orig.take(v@.len() as int).drop_last() =~= orig.take(v@.len() - 1));
        }
        match v.pop() {
            Some(r) => {
                rev.push(r);
            },
            None => {},
        }
    }
    let mut out: Vec<Record> = Vec::new();
    let mut last: u32 = 0;
    proof {
        assert(recs_view(orig.take(0)) =~= Seq::<RecordV>::empty());
    }
    while rev.len() > 0
        invariant
            rev@.len() <= orig.len(),
            forall|i: int| 0 <= i < rev@.len() ==> rev@[i] == orig[orig.len() - 1 - i],
            recs_view(out@) == normalize_spec(recs_view(orig.take(orig.len() - rev@.len()))),
            last == counter_after(recs_view(orig.take(orig.len() - rev@.len()))),
            out@.len() == orig.len() - rev@.len(),
        decreases rev@.len(),
    {
        let ghost k = orig.len() - rev@.len();
        let ghost prefix = recs_view(orig.take(k as int));
        let r = match rev.pop() {
            Some(r) => r,
            None => {
                return out;
            },
        };
        proof {
            assert(r == orig[k as int]);
            assert(recs_view(orig.take(k + 1)) =~= prefix.push(r@));
            lemma_normalize_snoc(prefix, r@);
            lemma_counter_snoc(prefix, r@);
        }
        match r {
            Record::Atom(mut a) => {
                if a.serial == 0 {
                    last = if last == 0xffff_ffff {
                        0
                    } else {
                        last + 1
                    };
                    a.serial = last;
                } else {
                    last = a.serial;
                }
                out.push(Record::Atom(a));
            },
            other => {
                out.push(other);
            },
        }
        proof {
            assert(recs_view(out@) =~= recs_view(out@.drop_last()).push(out@.last()@));
        }
    }
    proof {
        assert(orig.take(orig.len() as int) =~= orig);
    }
    out
}

// ---------------------------------------------------------------------------
// The two drivers
// ---------------------------------------------------------------------------

/// Parse a whole text buffer in one pass: decode each line in order, drop
/// the lines that decode to nothing, and feed atom records through the
/// normalizer inline, sharing its single counter.
#[verifier::rlimit(100)]
pub fn pdbreader_single(contents: &str) -> (r: Vec<Record>)
    ensures
        recs_view(r@) == parse_spec(contents.spec_bytes()),
{
    let text = contents.as_bytes();
    let lines = split_lines(text);
    let ghost lv = lines_view(lines@);
    let mut out: Vec<Record> = Vec::new();
    let mut last: u32 = 0;
    let mut i: usize = 0;
    proof {
        assert(line_records(lv.take(0)) =~= Seq::<Option<RecordV>>::empty());
    }
    while i < lines.len()
        invariant
            i <= lines@.len(),
            lv == lines_view(lines@),
            recs_view(out@) == normalize_spec(collect_some(line_records(lv.take(i as int)))),
            last == counter_after(collect_some(line_records(lv.take(i as int)))),
        decreases lines@.len() - i,
    {
        let ghost prefix = collect_some(line_records(lv.take(i as int)));
        proof {
            assert(line_records(lv.take(i + 1)) =~= line_records(lv.take(i as int)).push(
                line_record(lv[i as int]),
            ));
            lemma_collect_snoc(line_records(lv.take(i as int)), line_record(lv[i as int]));
        }
        let line = &lines[i];
        match decode_line(line.as_slice()) {
            Some(rec) => {
                proof {
                    assert(collect_some(line_records(lv.take(i + 1))) == prefix.push(rec@));
                    lemma_normalize_snoc(prefix, rec@);
                    lemma_counter_snoc(prefix, rec@);
                }
                match rec {
                    Record::Atom(mut a) => {
                        if a.serial == 0 {
                            last = if last == 0xffff_ffff {
                                0
                            } else {
                                last + 1
                            };
                            a.serial = last;
                        } else {
                            last = a.serial;
                        }
                        out.push(Record::Atom(a));
                    },
                    other => {
                        out.push(other);
                    },
                }
                proof {
                    assert(recs_view(out@) =~= recs_view(out@.drop_last()).push(out@.last()@));
                }
            },
            None => {
                proof {
                    assert(collect_some(line_records(lv.take(i + 1))) == prefix);
                }
            },
        }
        i = i + 1;
    }
    proof {
        assert(lv.take(lines@.len() as int) =~= lv);
    }
    out
}

/// Relies on rayon: `par_iter` over a vector is an indexed parallel
/// iterator, `map` applies the closure to each element, and `collect` into a
/// vector keeps index order, so slot `i` holds the closure's value on line
/// `i`.  The closure only calls this crate's verified per-line decoder.
#[verifier::external_body]
fn decode_lines_parallel(lines: &Vec<Vec<u8>>) -> (r: Vec<Option<Record>>)
    ensures
        r@.len() == lines@.len(),
        forall|i: int| 0 <= i < r@.len() ==> opt_view(r@[i]) == line_record(lines@[i]@),
{
    lines.par_iter().map(|l| decode_line(l)).collect()
}

/// The views of a vector of optional records.
pub open spec fn opts_view(v: Seq<Option<Record>>) -> Seq<Option<RecordV>> {
    v.map_values(|o: Option<Record>| opt_view(o))
}

/// Keep the present records of the per-line outcomes, in line order.
fn reassemble(opts: Vec<Option<Record>>) -> (r: Vec<Record>)
    ensures
        recs_view(r@) == collect_some(opts_view(opts@)),
{
    let ghost orig = opts@;
    let mut v = opts;
    let mut rev: Vec<Option<Record>> = Vec::new();
    while v.len() > 0
        invariant
            v@ == orig.take(v@.len() as int),
            rev@.len() + v@.len() == orig.len(),
            forall|i: int| 0 <= i < rev@.len() ==> rev@[i] == orig[orig.len() - 1 - i],
        decreases v@.len(),
    {
        proof {
            assert(orig.take(v@.len() as int).drop_last() =~= orig.take(v@.len() - 1));
        }
        match v.pop() {
            Some(o) => {
                rev.push(o);
            },
            None => {},
        }
    }
    let mut out: Vec<Record> = Vec::new();
    proof {
        assert(opts_view(orig.take(0)) =~= Seq::<Option<RecordV>>::empty());
    }
    while rev.len() > 0
        invariant
            rev@.len() <= orig.len(),
            forall|i: int| 0 <= i < rev@.len() ==> rev@[i] == orig[orig.len() - 1 - i],
            recs_view(out@) == collect_some(opts_view(orig.take(orig.len() - rev@.len()))),
        decreases rev@.len(),
    {
        let ghost k = orig.len() - rev@.len();
        proof {
            assert(opts_view(orig.take(k + 1)) =~= opts_view(orig.take(k as int)).push(
                opt_view(orig[k as int]),
            ));
            lemma_collect_snoc(opts_view(orig.take(k as int)), opt_view(orig[k as int]));
        }
        let o = match rev.pop() {
            Some(o) => o,
            None => {
                return out;
            },
        };
        proof {
            assert(o == orig[k as int]);
        }
        match o {
            Some(rec) => {
                out.push(rec);
                proof {
                    assert(recs_view(out@) =~= recs_view(out@.drop_last()).push(out@.last()@));
                }
            },
            None => {},
        }
    }
    proof {
        assert(orig.take(orig.len() as int) =~= orig);
    }
    out
}

/// Parse a whole text buffer with the lines decoded in parallel: the
/// per-line outcomes are computed independently, reassembled in original
/// line order, and the normalizer then runs once over the ordered sequence.
pub fn pdbreader_parallel(contents: &str) -> (r: Vec<Record>)
    ensures
        recs_view(r@) == parse_spec(contents.spec_bytes()),
{
    let text = contents.as_bytes();
    let lines = split_lines(text);
    let ghost lv = lines_view(lines@);
    let opts = decode_lines_parallel(&lines);
    proof {
        assert(opts_view(opts@) =~= line_records(lv));
    }
    let recs = reassemble(opts);
    normalize(recs)
}

// ---------------------------------------------------------------------------
// Stated laws
// ---------------------------------------------------------------------------

/// For all pairs of lines sharing the same first six bytes, the same codec
/// is invoked: the classifier's selection is a function of those six bytes
/// alone, and each line's decode outcome is that one selected codec run on
/// the line, or the same unrecognized-kind failure on both when the tag
/// matches no kind.
pub proof fn lemma_same_tag_same_codec(l1: Seq<u8>, l2: Seq<u8>)
    requires
        l1.len() >= 6,
        l2.len() >= 6,
        l1.subrange(0, 6) == l2.subrange(0, 6),
    ensures
        codec_sel(l1) == codec_sel(l2),
        classify_spec(l1) == match codec_sel(l1) {
            None => Err::<RecordV, DecodeError>(DecodeError::UnrecognizedKind),
            Some(k) => run_codec(k, l1),
        },
        classify_spec(l2) == match codec_sel(l1) {
            None => Err::<RecordV, DecodeError>(DecodeError::UnrecognizedKind),
            Some(k) => run_codec(k, l2),
        },
{
    assert forall|j: int| 0 <= j < 6 implies l1[j] == l2[j] by {
        assert(l1.subrange(0, 6)[j] == l1[j]);
        assert(l2.subrange(0, 6)[j] == l2[j]);
    }
}

/// A line shorter than six bytes, and a line of six or more bytes whose tag
/// matches no record kind, decode to no record at all: both drivers drop
/// such lines and parsing continues without a fatal outcome.
pub proof fn lemma_unparseable_line_dropped(l: Seq<u8>)
    ensures
        l.len() < 6 ==> line_record(l) is None,
        l.len() >= 6 && codec_sel(l) is None ==> line_record(l) is None,
{
}

/// The sequential and the parallel strategy agree for all inputs: each
/// driver's contract pins its whole output, field for field and in order,
/// to `parse_spec` of the input text, so two runs of the two drivers on one
/// text return equal record sequences.
pub proof fn lemma_strategies_agree(text: Seq<u8>, seq_out: Seq<RecordV>, par_out: Seq<RecordV>)
    requires
        seq_out == parse_spec(text),
        par_out == parse_spec(text),
    ensures
        seq_out == par_out,
{
}

/// An atom record's serial is small enough never to wrap the normalizer's
/// counter within one file.
pub open spec fn serial_bounded(r: RecordV) -> bool {
    r matches RecordV::Atom(a) ==> a.serial <= 0xfffff
}

/// Whatever one line decodes to, an atom record among it carries a serial of
/// at most five hexadecimal digits' worth, since its field is five bytes wide.
proof fn lemma_line_record_serial(l: Seq<u8>)
    ensures
        line_record(l) matches Some(r) ==> serial_bounded(r),
{
    match line_record(l) {
        Some(RecordV::Atom(a)) => {
            assert(a.serial == crate::field::serial_field(crate::field::field(l, 6, 11)));
            crate::field::lemma_trim_len(l.subrange(6, 11));
            crate::field::lemma_serial_field_bound(crate::field::field(l, 6, 11));
        },
        _ => {},
    }
}

proof fn lemma_collect_some_bounded(os: Seq<Option<RecordV>>)
    requires
        forall|i: int| 0 <= i < os.len() ==> (#[trigger] os[i] matches Some(r) ==> serial_bounded(r)),
    ensures
        collect_some(os).len() <= os.len(),
        forall|j: int| 0 <= j < collect_some(os).len() ==> serial_bounded(#[trigger] collect_some(os)[j]),
    decreases os.len(),
{
    if os.len() > 0 {
        assert(forall|i: int|
            0 <= i < os.len() - 1 ==> #[trigger] os.drop_last()[i] == os[i]);
        lemma_collect_some_bounded(os.drop_last());
        assert(os[os.len() - 1] == os.last());
    }
}

/// The serial guarantees hold of the parser's own output: for any text whose
/// line count stays clear of the counter's 32-bit wrap, every atom record of
/// the parse carries a nonzero serial, every atom whose declared serial was
/// nonzero keeps it, and every other record is exactly what its line decoded
/// to.
pub proof fn lemma_parse_serials(text: Seq<u8>)
    requires
        spec_lines(text).len() + 0x100000 < 0x1_0000_0000,
    ensures
        ({
            let rs = decoded(spec_lines(text));
            &&& parse_spec(text).len() == rs.len()
            &&& forall|i: int|
                0 <= i < rs.len() ==> (#[trigger] rs[i] matches RecordV::Atom(a) ==> {
                    &&& parse_spec(text)[i] matches RecordV::Atom(b)
                    &&& b.serial != 0
                    &&& (a.serial != 0 ==> parse_spec(text)[i] == rs[i])
                })
            &&& forall|i: int|
                0 <= i < rs.len() ==> (!(#[trigger] rs[i] matches RecordV::Atom(a))
                    ==> parse_spec(text)[i] == rs[i])
        }),
{
    let ls = spec_lines(text);
    let os = line_records(ls);
    assert forall|i: int| 0 <= i < os.len() implies (#[trigger] os[i] matches Some(r)
        ==> serial_bounded(r)) by {
        lemma_line_record_serial(ls[i]);
    }
    lemma_collect_some_bounded(os);
    let rs = decoded(ls);
    assert forall|i: int|
        0 <= i < rs.len() implies (#[trigger] rs[i] matches RecordV::Atom(a) ==> a.serial
        <= 0xfffff) by {
        assert(serial_bounded(rs[i]));
    }
    lemma_normalize_serials(rs, 0xfffff);
}

proof fn lemma_counter_bound(rs: Seq<RecordV>, k: int, m: nat)
    requires
        0 <= k <= rs.len(),
        forall|i: int|
            0 <= i < rs.len() ==> (#[trigger] rs[i] matches RecordV::Atom(a) ==> a.serial <= m),
        m + rs.len() < 0x1_0000_0000,
    ensures
        counter_after(rs.take(k)) <= m + k,
    decreases k,
{
    if k > 0 {
        lemma_counter_bound(rs, k - 1, m);
        assert(rs.take(k).drop_last() =~= rs.take(k - 1));
        assert(rs.take(k).last() == rs[k - 1]);
    }
}

/// After normalization no atom record carries serial zero, every atom whose
/// declared serial was nonzero is unchanged, and every other record passes
/// through untouched.  The bound in the requires keeps the running counter
/// below its 32-bit wrap; it holds of anything this parser produces from a
/// text of fewer than four billion lines, since a decoded serial field is at
/// most five digits wide.
pub proof fn lemma_normalize_serials(rs: Seq<RecordV>, m: nat)
    requires
        forall|i: int|
            0 <= i < rs.len() ==> (#[trigger] rs[i] matches RecordV::Atom(a) ==> a.serial <= m),
        m + rs.len() < 0x1_0000_0000,
    ensures
        normalize_spec(rs).len() == rs.len(),
        forall|i: int|
            0 <= i < rs.len() ==> (#[trigger] rs[i] matches RecordV::Atom(a) ==> {
                &&& normalize_spec(rs)[i] matches RecordV::Atom(b)
                &&& b.serial != 0
                &&& (a.serial != 0 ==> normalize_spec(rs)[i] == rs[i])
            }),
        forall|i: int|
            0 <= i < rs.len() ==> (!(#[trigger] rs[i] matches RecordV::Atom(a))
                ==> normalize_spec(rs)[i] == rs[i]),
{
    assert forall|i: int|
        0 <= i < rs.len() implies (#[trigger] rs[i] matches RecordV::Atom(a) ==> {
        &&& normalize_spec(rs)[i] matches RecordV::Atom(b)
        &&& b.serial != 0
        &&& (a.serial != 0 ==> normalize_spec(rs)[i] == rs[i])
    }) by {
        if rs[i] matches RecordV::Atom(a) {
            lemma_counter_bound(rs, i, m);
            assert(counter_after(rs.take(i)) <= m + i);
        }
    }
}

} // verus!
