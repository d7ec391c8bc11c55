//! The flat encoding of a set of secrets: one record per line, name and
//! value separated by one space, lines in the order of the names.

use vstd::prelude::*;
use vstd::slice::slice_subrange;
use vstd::string::StringExecFns;
use vstd::utf8::*;
use crate::bytes::push_all;
use crate::error::CodecError;
use crate::secret_set::{build, has_name, lower_bound, pairs_view, sorted, upsert, without, Entry, SecretSet, lemma_build_of_sorted, lemma_build_sorted, lemma_lower_bound};

verus! {

/// The byte between the two fields of a record.
pub const SPACE: u8 = 0x20;

/// The byte between two records.
pub const NEWLINE: u8 = 0x0A;

/// The first index at or after `i` that holds `c`, or the length if there
/// is none.
pub open spec fn find_from(b: Seq<u8>, c: u8, i: int) -> int
    decreases b.len() - i,
{
    if i >= b.len() {
        b.len() as int
    } else if b[i] == c {
        i
    } else {
        find_from(b, c, i + 1)
    }
}

/// The lines of `b` from index `start` on: the stretches between line
/// breaks. A buffer that ends in a line break has an empty last line.
pub open spec fn lines_from(b: Seq<u8>, start: int) -> Seq<Seq<u8>>
    decreases b.len() - start,
{
    let end = find_from(b, NEWLINE, start);
    if end >= b.len() || end < start {
        seq![b.subrange(start, b.len() as int)]
    } else {
        seq![b.subrange(start, end)] + lines_from(b, end + 1)
    }
}

/// What one line holds. A record is a non-empty name, one space and a
/// non-empty value with no further space, both valid UTF-8.
pub open spec fn parse_line(line: Seq<u8>) -> Result<Entry, CodecError> {
    let cut = find_from(line, SPACE, 0);
    if cut == 0 || cut + 1 >= line.len() || find_from(line, SPACE, cut + 1) < line.len() {
        Err(CodecError::MalformedRecord)
    } else if !valid_utf8(line.subrange(0, cut)) || !valid_utf8(
        line.subrange(cut + 1, line.len() as int),
    ) {
        Err(CodecError::InvalidUtf8)
    } else {
        Ok((decode_utf8(line.subrange(0, cut)), decode_utf8(line.subrange(cut + 1, line.len() as int))))
    }
}

/// What a sequence of lines holds: the records in order, or the error of
/// the first line that is no record.
pub open spec fn parse_lines(lines: Seq<Seq<u8>>) -> Result<Seq<Entry>, CodecError>
    decreases lines.len(),
{
    if lines.len() == 0 {
        Ok(Seq::empty())
    } else {
        match parse_lines(lines.drop_last()) {
            Err(e) => Err(e),
            Ok(records) => match parse_line(lines.last()) {
                Err(e) => Err(e),
                Ok(record) => Ok(records.push(record)),
            },
        }
    }
}

/// What a buffer holds: nothing if it is empty; otherwise the set built
/// from the records of its lines, or the error of the first bad line.
pub open spec fn parsed(b: Seq<u8>) -> Result<Seq<Entry>, CodecError> {
    if b.len() == 0 {
        Ok(Seq::empty())
    } else {
        match parse_lines(lines_from(b, 0)) {
            Err(e) => Err(e),
            Ok(records) => Ok(build(records)),
        }
    }
}

/// The bytes of one record.
pub open spec fn record_bytes(e: Entry) -> Seq<u8> {
    encode_utf8(e.0) + seq![SPACE] + encode_utf8(e.1)
}

/// The bytes of a sequence of entries: their records, with a line break
/// between two of them and none at the end.
pub open spec fn serialized(s: Seq<Entry>) -> Seq<u8>
    decreases s.len(),
{
    if s.len() == 0 {
        Seq::empty()
    } else if s.len() == 1 {
        record_bytes(s[0])
    } else {
        serialized(s.drop_last()) + seq![NEWLINE] + record_bytes(s.last())
    }
}

/// A field that the encoding can hold: not empty, and free of spaces and
/// line breaks.
pub open spec fn field_ok(f: Seq<char>) -> bool {
    &&& encode_utf8(f).len() > 0
    &&& forall|i: int|
        0 <= i < encode_utf8(f).len() ==> encode_utf8(f)[i] != SPACE && encode_utf8(f)[i] != NEWLINE
}

/// Entries that the encoding can hold.
pub open spec fn encodable(s: Seq<Entry>) -> bool {
    forall|i: int| 0 <= i < s.len() ==> field_ok(#[trigger] s[i].0) && field_ok(s[i].1)
}

/// What `find_from` returns: the first place of `c` from `i` on.
pub proof fn lemma_find_from(b: Seq<u8>, c: u8, i: int)
    requires
        0 <= i <= b.len(),
    ensures
        i <= find_from(b, c, i) <= b.len(),
        forall|j: int| i <= j < find_from(b, c, i) ==> b[j] != c,
        find_from(b, c, i) < b.len() ==> b[find_from(b, c, i)] == c,
    decreases b.len() - i,
{
    if i < b.len() && b[i] != c {
        lemma_find_from(b, c, i + 1);
    }
}

/// The place that `find_from` returns is the only one of its kind.
pub proof fn lemma_find_from_is(b: Seq<u8>, c: u8, i: int, at: int)
    requires
        0 <= i <= at <= b.len(),
        forall|j: int| i <= j < at ==> b[j] != c,
        at < b.len() ==> b[at] == c,
    ensures
        find_from(b, c, i) == at,
    decreases b.len() - i,
{
    if i < at {
        lemma_find_from_is(b, c, i + 1, at);
    }
}

/// The first index at or after `start` that holds `c`, or the length.
pub fn find_byte(b: &[u8], c: u8, start: usize) -> (at: usize)
    requires
        start <= b@.len(),
    ensures
        at == find_from(b@, c, start as int),
        start <= at <= b@.len(),
{
    let mut i: usize = start;
    while i < b.len() && b[i] != c
        invariant
            start <= i <= b@.len(),
            find_from(b@, c, start as int) == find_from(b@, c, i as int),
        decreases b@.len() - i,
    {
        i += 1;
    }
    i
}

/// `core::str::from_utf8`: the text that the bytes encode, if they are
/// valid UTF-8, and nothing if they are not. The text's own encoding is
/// the bytes given.
#[verifier::external_body]
fn str_from_utf8(bytes: &[u8]) -> (r: Option<&str>)
    ensures
        r is Some <==> valid_utf8(bytes@),
        r matches Some(s) ==> encode_utf8(s@) == bytes@,
{
    core::str::from_utf8(bytes).ok()
}

/// Reads one line as a record.
pub fn parse_record(line: &[u8]) -> (r: Result<(String, String), CodecError>)
    ensures
        match r {
            Ok(p) => parse_line(line@) == Ok::<Entry, CodecError>((p.0@, p.1@)),
            Err(e) => parse_line(line@) == Err::<Entry, CodecError>(e),
        },
{
    let cut = find_byte(line, SPACE, 0);
    if cut == 0 || cut >= line.len() || cut + 1 >= line.len() {
        return Err(CodecError::MalformedRecord);
    }
    let more = find_byte(line, SPACE, cut + 1);
    if more < line.len() {
        return Err(CodecError::MalformedRecord);
    }
    let name = str_from_utf8(slice_subrange(line, 0, cut));
    let value = str_from_utf8(slice_subrange(line, cut + 1, line.len()));
    match (name, value) {
        (Some(n), Some(v)) => {
            proof {
                encode_utf8_decode_utf8(n@);
                encode_utf8_decode_utf8(v@);
            }
            Ok((String::from_str(n), String::from_str(v)))
        },
        _ => Err(CodecError::InvalidUtf8),
    }
}

/// An error in a run of lines stays when more lines follow.
proof fn lemma_parse_lines_error(p: Seq<Seq<u8>>, q: Seq<Seq<u8>>)
    requires
        parse_lines(p) is Err,
    ensures
        parse_lines(p + q) == parse_lines(p),
    decreases q.len(),
{
    if q.len() == 0 {
        assert(p + q =~= p);
    } else {
        assert((p + q).drop_last() =~= p + q.drop_last());
        lemma_parse_lines_error(p, q.drop_last());
    }
}

/// Reads a buffer as a set of secrets. The empty buffer holds the empty
/// set. Of two records with one name the later one stays.
pub fn parse(bytes: &[u8]) -> (r: Result<SecretSet, CodecError>)
    ensures
        match r {
            Ok(set) => set.wf() && parsed(bytes@) == Ok::<Seq<Entry>, CodecError>(set@),
            Err(e) => parsed(bytes@) == Err::<Seq<Entry>, CodecError>(e),
        },
{
    if bytes.len() == 0 {
        return Ok(SecretSet::new());
    }
    let mut pairs: Vec<(String, String)> = Vec::new();
    let ghost mut done: Seq<Seq<u8>> = Seq::empty();
    let mut start: usize = 0;
    assert(pairs_view(pairs@) =~= Seq::<Entry>::empty());
    loop
        invariant
            0 <= start <= bytes@.len(),
            bytes@.len() > 0,
            lines_from(bytes@, 0) == done + lines_from(bytes@, start as int),
            parse_lines(done) == Ok::<Seq<Entry>, CodecError>(pairs_view(pairs@)),
        decreases bytes@.len() - start,
    {
        let end = find_byte(bytes, NEWLINE, start);
        let line = slice_subrange(bytes, start, end);
        let ghost rest = if end < bytes@.len() {
            lines_from(bytes@, end + 1)
        } else {
            Seq::<Seq<u8>>::empty()
        };
        proof {
            assert(lines_from(bytes@, start as int) =~= seq![line@] + rest);
            assert(done + (seq![line@] + rest) =~= done.push(line@) + rest);
            assert(done.push(line@).drop_last() =~= done);
        }
        match parse_record(line) {
            Err(e) => {
                proof {
                    assert(done.push(line@).last() == line@);
                    assert(parse_lines(done.push(line@)) == Err::<Seq<Entry>, CodecError>(e));
                    lemma_parse_lines_error(done.push(line@), rest);
                }
                return Err(e);
            },
            Ok(p) => {
                proof {
                    assert(pairs_view(pairs@.push(p)) =~= pairs_view(pairs@).push((p.0@, p.1@)));
                }
                pairs.push(p);
            },
        }
        proof {
            done = done.push(line@);
        }
        if end >= bytes.len() {
            proof {
                assert(done + rest =~= done);
            }
            return Ok(SecretSet::from_pairs(&pairs));
        }
        start = end + 1;
    }
}

/// Writes a set of secrets as a buffer.
pub fn serialize(set: &SecretSet) -> (out: Vec<u8>)
    ensures
        out@ == serialized(set@),
{
    let mut out: Vec<u8> = Vec::new();
    let mut i: usize = 0;
    while i < set.len()
        invariant
            0 <= i <= set@.len(),
            out@ == serialized(set@.subrange(0, i as int)),
        decreases set@.len() - i,
    {
        let e = set.entry(i);
        let ghost before = out@;
        if i > 0 {
            out.push(NEWLINE);
        }
        push_all(&mut out, e.name.as_str().as_bytes());
        out.push(SPACE);
        push_all(&mut out, e.value.as_str().as_bytes());
        proof {
            let p = set@.subrange(0, i + 1);
            assert(p.drop_last() =~= set@.subrange(0, i as int));
            assert(p.last() == set@[i as int]);
            if i > 0 {
                assert(out@ =~= before + seq![NEWLINE] + record_bytes(set@[i as int]));
            } else {
                assert(out@ =~= record_bytes(set@[i as int]));
            }
        }
        i += 1;
    }
    assert(set@.subrange(0, i as int) =~= set@);
    out
}

/// Whether the encoding can hold this field.
pub fn is_field_ok(field: &str) -> (ok: bool)
    ensures
        ok == field_ok(field@),
{
    let b = field.as_bytes();
    if b.len() == 0 {
        return false;
    }
    let mut i: usize = 0;
    while i < b.len()
        invariant
            0 <= i <= b@.len(),
            b@ == encode_utf8(field@),
            forall|j: int| 0 <= j < i ==> b@[j] != SPACE && b@[j] != NEWLINE,
        decreases b@.len() - i,
    {
        if b[i] == SPACE || b[i] == NEWLINE {
            return false;
        }
        i += 1;
    }
    true
}

/// The bytes of a record of two good fields hold no line break.
proof fn lemma_record_has_no_newline(e: Entry)
    requires
        field_ok(e.0),
        field_ok(e.1),
    ensures
        record_bytes(e).len() == encode_utf8(e.0).len() + 1 + encode_utf8(e.1).len(),
        forall|j: int| 0 <= j < record_bytes(e).len() ==> record_bytes(e)[j] != NEWLINE,
{
}

/// A record of two good fields is read back as it was written.
proof fn lemma_parse_line_of_record(e: Entry)
    requires
        field_ok(e.0),
        field_ok(e.1),
    ensures
        parse_line(record_bytes(e)) == Ok::<Entry, CodecError>(e),
{
    let n = encode_utf8(e.0);
    let v = encode_utf8(e.1);
    let line = record_bytes(e);
    let cut = n.len() as int;
    assert(line[cut] == SPACE);
    lemma_find_from_is(line, SPACE, 0, cut);
    lemma_find_from_is(line, SPACE, cut + 1, line.len() as int);
    assert(line.subrange(0, cut) =~= n);
    assert(line.subrange(cut + 1, line.len() as int) =~= v);
    encode_utf8_valid_utf8(e.0);
    encode_utf8_valid_utf8(e.1);
    encode_utf8_decode_utf8(e.0);
    encode_utf8_decode_utf8(e.1);
}

/// A last line without a line break, put behind a line break, is one
/// more line.
proof fn lemma_lines_snoc(a: Seq<u8>, l: Seq<u8>, start: int)
    requires
        0 <= start <= a.len(),
        forall|j: int| 0 <= j < l.len() ==> l[j] != NEWLINE,
    ensures
        lines_from(a + seq![NEWLINE] + l, start) == lines_from(a, start).push(l),
    decreases a.len() - start,
{
    let c = a + seq![NEWLINE] + l;
    let end = find_from(a, NEWLINE, start);
    lemma_find_from(a, NEWLINE, start);
    assert(c[a.len() as int] == NEWLINE);
    lemma_find_from_is(c, NEWLINE, start, end);
    assert(c.subrange(start, end) =~= a.subrange(start, end));
    if end < a.len() {
        lemma_lines_snoc(a, l, end + 1);
        assert(lines_from(c, start) =~= lines_from(a, start).push(l));
    } else {
        let next = a.len() as int + 1;
        lemma_find_from_is(c, NEWLINE, next, c.len() as int);
        assert(c.subrange(next, c.len() as int) =~= l);
        assert(lines_from(c, next) =~= seq![l]);
        assert(lines_from(c, start) =~= lines_from(a, start).push(l));
    }
}

/// The lines of what was written are the records of the entries.
proof fn lemma_lines_of_serialized(s: Seq<Entry>)
    requires
        s.len() > 0,
        encodable(s),
    ensures
        serialized(s).len() > 0,
        lines_from(serialized(s), 0) == s.map_values(|e: Entry| record_bytes(e)),
    decreases s.len(),
{
    let records = s.map_values(|e: Entry| record_bytes(e));
    lemma_record_has_no_newline(s.last());
    if s.len() == 1 {
        let line = record_bytes(s[0]);
        lemma_find_from_is(line, NEWLINE, 0, line.len() as int);
        assert(line.subrange(0, line.len() as int) =~= line);
        assert(lines_from(line, 0) =~= records);
    } else {
        let p = s.drop_last();
        lemma_lines_of_serialized(p);
        lemma_lines_snoc(serialized(p), record_bytes(s.last()), 0);
        assert(p.map_values(|e: Entry| record_bytes(e)).push(record_bytes(s.last())) =~= records);
    }
}

/// Read line by line, the records of good entries are those entries.
proof fn lemma_parse_lines_of_records(s: Seq<Entry>)
    requires
        encodable(s),
    ensures
        parse_lines(s.map_values(|e: Entry| record_bytes(e))) == Ok::<Seq<Entry>, CodecError>(s),
    decreases s.len(),
{
    let records = s.map_values(|e: Entry| record_bytes(e));
    if s.len() == 0 {
        assert(s =~= Seq::<Entry>::empty());
    } else {
        let p = s.drop_last();
        lemma_parse_lines_of_records(p);
        assert(records.drop_last() =~= p.map_values(|e: Entry| record_bytes(e)));
        lemma_parse_line_of_record(s.last());
        assert(p.push(s.last()) =~= s);
    }
}

/// Round trip: a set whose names and values are not empty and hold neither
/// a space nor a line break is read back from its bytes as it was written.
pub proof fn lemma_round_trip(s: Seq<Entry>)
    requires
        sorted(s),
        encodable(s),
    ensures
        parsed(serialized(s)) == Ok::<Seq<Entry>, CodecError>(s),
{
    if s.len() == 0 {
        assert(s =~= Seq::<Entry>::empty());
    } else {
        lemma_lines_of_serialized(s);
        lemma_parse_lines_of_records(s);
        lemma_build_of_sorted(s);
    }
}

/// No line holds a line break.
proof fn lemma_lines_have_no_newline(b: Seq<u8>, start: int)
    requires
        0 <= start <= b.len(),
    ensures
        forall|i: int, j: int|
            #![trigger lines_from(b, start)[i][j]]
            0 <= i < lines_from(b, start).len() && 0 <= j < lines_from(b, start)[i].len()
                ==> lines_from(b, start)[i][j] != NEWLINE,
    decreases b.len() - start,
{
    let end = find_from(b, NEWLINE, start);
    let lines = lines_from(b, start);
    lemma_find_from(b, NEWLINE, start);
    if end < b.len() {
        lemma_lines_have_no_newline(b, end + 1);
    }
    assert forall|i: int, j: int|
        #![trigger lines[i][j]]
        0 <= i < lines.len() && 0 <= j < lines[i].len() implies lines[i][j] != NEWLINE by {
        if i == 0 {
            assert(lines[0][j] == b[start + j]);
        } else {
            assert(lines[i] == lines_from(b, end + 1)[i - 1]);
            assert(lines_from(b, end + 1)[i - 1][j] != NEWLINE);
        }
    }
}

/// The fields of a record that was read from a line without a line break
/// are fields that the encoding can hold.
proof fn lemma_parse_line_fields(line: Seq<u8>)
    requires
        forall|j: int| 0 <= j < line.len() ==> line[j] != NEWLINE,
        parse_line(line) is Ok,
    ensures
        field_ok(parse_line(line)->Ok_0.0),
        field_ok(parse_line(line)->Ok_0.1),
{
    let cut = find_from(line, SPACE, 0);
    lemma_find_from(line, SPACE, 0);
    lemma_find_from(line, SPACE, cut + 1);
    decode_utf8_encode_utf8(line.subrange(0, cut));
    decode_utf8_encode_utf8(line.subrange(cut + 1, line.len() as int));
}

/// The records that were read from lines without line breaks can be
/// written again.
proof fn lemma_parse_lines_fields(lines: Seq<Seq<u8>>)
    requires
        forall|i: int, j: int|
            #![trigger lines[i][j]]
            0 <= i < lines.len() && 0 <= j < lines[i].len() ==> lines[i][j] != NEWLINE,
        parse_lines(lines) is Ok,
    ensures
        encodable(parse_lines(lines)->Ok_0),
    decreases lines.len(),
{
    if lines.len() > 0 {
        let p = lines.drop_last();
        assert forall|i: int, j: int|
            #![trigger p[i][j]]
            0 <= i < p.len() && 0 <= j < p[i].len() implies p[i][j] != NEWLINE by {
            assert(p[i][j] == lines[i][j]);
        }
        lemma_parse_lines_fields(p);
        let last = lines.last();
        assert forall|j: int| 0 <= j < last.len() implies last[j] != NEWLINE by {
            assert(last[j] == lines[lines.len() - 1][j]);
        }
        lemma_parse_line_fields(last);
    }
}

/// Entries that can be written can still be written after an upsert of two
/// good fields.
pub proof fn lemma_upsert_encodable(s: Seq<Entry>, k: Seq<char>, v: Seq<char>)
    requires
        encodable(s),
        field_ok(k),
        field_ok(v),
    ensures
        encodable(upsert(s, k, v)),
{
    lemma_lower_bound(s, k);
    let t = upsert(s, k, v);
    let lb = lower_bound(s, k);
    assert forall|i: int| 0 <= i < t.len() implies field_ok(#[trigger] t[i].0) && field_ok(
        t[i].1,
    ) by {
        if i == lb {
            assert(t[i] == (k, v));
        } else if has_name(s, k) || i < lb {
            assert(t[i] == s[i]);
            assert(field_ok(s[i].0));
        } else {
            assert(t[i] == s[i - 1]);
            assert(field_ok(s[i - 1].0));
        }
    }
}

/// Entries that can be written can still be written when one is taken out.
pub proof fn lemma_without_encodable(s: Seq<Entry>, k: Seq<char>)
    requires
        encodable(s),
    ensures
        encodable(without(s, k)),
{
    lemma_lower_bound(s, k);
    let t = without(s, k);
    let lb = lower_bound(s, k);
    assert forall|i: int| 0 <= i < t.len() implies field_ok(#[trigger] t[i].0) && field_ok(
        t[i].1,
    ) by {
        if !has_name(s, k) || i < lb {
            assert(t[i] == s[i]);
            assert(field_ok(s[i].0));
        } else {
            assert(t[i] == s[i + 1]);
            assert(field_ok(s[i + 1].0));
        }
    }
}

proof fn lemma_build_encodable(pairs: Seq<Entry>)
    requires
        encodable(pairs),
    ensures
        encodable(build(pairs)),
    decreases pairs.len(),
{
    if pairs.len() > 0 {
        let p = pairs.drop_last();
        assert forall|i: int| 0 <= i < p.len() implies field_ok(#[trigger] p[i].0) && field_ok(
            p[i].1,
        ) by {
            assert(p[i] == pairs[i]);
            assert(field_ok(pairs[i].0));
        }
        lemma_build_encodable(p);
        assert(field_ok(pairs[pairs.len() - 1].0));
        lemma_upsert_encodable(build(p), pairs.last().0, pairs.last().1);
    }
}

/// What was read from a buffer is in order and can be written again.
pub proof fn lemma_parsed_is_encodable(b: Seq<u8>)
    requires
        parsed(b) is Ok,
    ensures
        sorted(parsed(b)->Ok_0),
        encodable(parsed(b)->Ok_0),
{
    if b.len() > 0 {
        let lines = lines_from(b, 0);
        lemma_lines_have_no_newline(b, 0);
        lemma_parse_lines_fields(lines);
        lemma_build_encodable(parse_lines(lines)->Ok_0);
        lemma_build_sorted(parse_lines(lines)->Ok_0);
    }
}

} // verus!
