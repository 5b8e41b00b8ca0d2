//! Identifier rules of the line protocol.

use crate::decimal::Decimal;
use crate::encoder::{
    closed_record, field_text, push_str_bytes, step_failed, tag_text, tag_violation, Failed,
};
use crate::sink::{Buffer, SinkError};
use vstd::prelude::*;
use vstd::string::*;
use vstd::utf8::*;

verus! {

/// Why a record could not be written.
#[derive(Debug, Clone, Copy, PartialEq, Eq, Structural)]
pub enum Error {
    /// The sink refused the bytes.
    Write(SinkError),
    /// An identifier begins with `_`.
    StartsWithUnderscore,
    /// An identifier holds a line feed.
    ContainsNewline,
    /// An identifier holds a double quote.
    ContainsQuotes,
}

impl Error {
    /// The error in words.
    pub open spec fn text(self) -> Seq<char> {
        match self {
            Error::Write(_) => "sink is full"@,
            Error::StartsWithUnderscore => "value starts with underscore"@,
            Error::ContainsNewline => "value contains new line"@,
            Error::ContainsQuotes => "value contains quotes"@,
        }
    }

    /// The error in words, for the log.
    pub fn message(&self) -> (words: &'static str)
        ensures
            words@ == self.text(),
    {
        match self {
            Error::Write(_) => "sink is full",
            Error::StartsWithUnderscore => "value starts with underscore",
            Error::ContainsNewline => "value contains new line",
            Error::ContainsQuotes => "value contains quotes",
        }
    }
}

/// The first rule that `s` breaks, in the order in which the rules are checked.
pub open spec fn first_violation(s: Seq<char>) -> Option<Error> {
    if s.len() > 0 && s[0] == '_' {
        Some(Error::StartsWithUnderscore)
    } else if s.contains('\n') {
        Some(Error::ContainsNewline)
    } else if s.contains('"') {
        Some(Error::ContainsQuotes)
    } else {
        None
    }
}

/// Whether `s` may stand as a measurement name, a tag key, a tag value or a field key.
pub open spec fn is_identifier(s: Seq<char>) -> bool {
    first_violation(s) is None
}

/// A sequence extended by one element holds `wanted` exactly if the sequence did or the element
/// is `wanted`.
proof fn lemma_push_contains(s: Seq<char>, last: char, wanted: char)
    ensures
        s.push(last).contains(wanted) <==> (s.contains(wanted) || last == wanted),
{
    let t = s.push(last);
    if s.contains(wanted) {
        let i = choose|i: int| 0 <= i < s.len() && s[i] == wanted;
        assert(t[i] == wanted);
    }
    if last == wanted {
        assert(t[s.len() as int] == wanted);
    }
    if t.contains(wanted) {
        let i = choose|i: int| 0 <= i < t.len() && t[i] == wanted;
        if i < s.len() {
            assert(s[i] == wanted);
        }
    }
}

/// Whether `wanted` occurs in `s`.
fn contains_char(s: &str, wanted: char) -> (found: bool)
    ensures
        found == s@.contains(wanted),
{
    let mut found = false;
    for c in it: s.chars()
        invariant
            it.seq() == s@,
            found == s@.take(it.index()).contains(wanted),
    {
        proof {
            let k = it.index();
            assert(s@.take(k + 1) =~= s@.take(k).push(c));
            lemma_push_contains(s@.take(k), c, wanted);
        }
        if c == wanted {
            found = true;
        }
    }
    proof {
        assert(s@.take(s@.len() as int) =~= s@);
    }
    found
}

/// Whether the first character of `s` is `wanted`.
fn starts_with_char(s: &str, wanted: char) -> (yes: bool)
    ensures
        yes == (s@.len() > 0 && s@[0] == wanted),
{
    let mut it = s.chars();
    match it.next() {
        Some(c) => c == wanted,
        None => false,
    }
}

/// Checks an identifier against the three rules, in their order: the first one broken decides
/// the error.
pub fn validate_str(s: &str) -> (checked: Result<(), Error>)
    ensures
        checked == match first_violation(s@) {
            Some(e) => Err::<(), Error>(e),
            None => Ok::<(), Error>(()),
        },
{
    if starts_with_char(s, '_') {
        return Err(Error::StartsWithUnderscore);
    }
    if contains_char(s, '\n') {
        return Err(Error::ContainsNewline);
    }
    if contains_char(s, '"') {
        return Err(Error::ContainsQuotes);
    }
    Ok(())
}

/// The first rule broken among the tags, taken in their order.
pub open spec fn tags_violation(tags: Seq<(&str, &str)>) -> Option<Error>
    decreases tags.len(),
{
    if tags.len() == 0 {
        None
    } else {
        match tag_violation(tags[0].0@, tags[0].1@) {
            Some(e) => Some(e),
            None => tags_violation(tags.drop_first()),
        }
    }
}

/// The first rule broken among the keys of the fields, taken in their order.
pub open spec fn fields_violation(fields: Seq<(&str, Decimal)>) -> Option<Error>
    decreases fields.len(),
{
    if fields.len() == 0 {
        None
    } else {
        match first_violation(fields[0].0@) {
            Some(e) => Some(e),
            None => fields_violation(fields.drop_first()),
        }
    }
}

/// The first rule broken by the parts of a record: the measurement name is checked first,
/// then the tags, then the fields.
pub open spec fn record_violation(
    measurement: Seq<char>,
    tags: Seq<(&str, &str)>,
    fields: Seq<(&str, Decimal)>,
) -> Option<Error> {
    match first_violation(measurement) {
        Some(e) => Some(e),
        None => match tags_violation(tags) {
            Some(e) => Some(e),
            None => fields_violation(fields),
        },
    }
}

/// The bytes of the tags, each behind its comma.
pub open spec fn tags_text(tags: Seq<(&str, &str)>) -> Seq<u8>
    decreases tags.len(),
{
    if tags.len() == 0 {
        Seq::<u8>::empty()
    } else {
        tags_text(tags.drop_last()) + tag_text(tags.last().0@, tags.last().1@)
    }
}

/// The bytes of the fields, with a comma between one and the next.
pub open spec fn fields_text(fields: Seq<(&str, Decimal)>) -> Seq<u8>
    decreases fields.len(),
{
    if fields.len() == 0 {
        Seq::<u8>::empty()
    } else {
        fields_text(fields.drop_last()) + field_text(
            fields.len() == 1,
            fields.last().0@,
            fields.last().1,
        )
    }
}

/// The bytes of a whole record without a timestamp, up to the line feed that ends it.
pub open spec fn record_text(
    measurement: Seq<char>,
    tags: Seq<(&str, &str)>,
    fields: Seq<(&str, Decimal)>,
) -> Seq<u8> {
    encode_utf8(measurement) + tags_text(tags) + seq![32u8] + fields_text(fields)
}

/// Checks every identifier of a record, in the order of [`record_violation`].
fn validate_record(measurement: &str, tags: &[(&str, &str)], fields: &[(&str, Decimal)]) -> (checked:
    Result<(), Error>)
    ensures
        checked == match record_violation(measurement@, tags@, fields@) {
            Some(e) => Err::<(), Error>(e),
            None => Ok::<(), Error>(()),
        },
{
    if let Err(e) = validate_str(measurement) {
        return Err(e);
    }
    proof {
        assert(tags@.skip(0) =~= tags@);
        assert(fields@.skip(0) =~= fields@);
    }
    let mut i: usize = 0;
    while i < tags.len()
        invariant
            i <= tags@.len(),
            first_violation(measurement@) is None,
            tags_violation(tags@) == tags_violation(tags@.skip(i as int)),
        decreases tags@.len() - i,
    {
        let (key, value) = tags[i];
        proof {
            assert(tags@.skip(i as int)[0] == tags@[i as int]);
            assert(tags@.skip(i as int).drop_first() =~= tags@.skip(i + 1));
        }
        if let Err(e) = validate_str(key) {
            return Err(e);
        }
        if let Err(e) = validate_str(value) {
            return Err(e);
        }
        i = i + 1;
    }
    let mut j: usize = 0;
    while j < fields.len()
        invariant
            j <= fields@.len(),
            first_violation(measurement@) is None,
            tags_violation(tags@) is None,
            fields_violation(fields@) == fields_violation(fields@.skip(j as int)),
        decreases fields@.len() - j,
    {
        let (key, _) = fields[j];
        proof {
            assert(fields@.skip(j as int)[0] == fields@[j as int]);
            assert(fields@.skip(j as int).drop_first() =~= fields@.skip(j + 1));
        }
        if let Err(e) = validate_str(key) {
            return Err(e);
        }
        j = j + 1;
    }
    Ok(())
}

/// Renders a record whose identifiers were checked.
fn render_record(measurement: &str, tags: &[(&str, &str)], fields: &[(&str, Decimal)]) -> (out:
    Vec<u8>)
    ensures
        out@ == record_text(measurement@, tags@, fields@) + seq![10u8],
{
    let mut out: Vec<u8> = Vec::new();
    push_str_bytes(&mut out, measurement);
    let ghost name = out@;
    let mut i: usize = 0;
    while i < tags.len()
        invariant
            i <= tags@.len(),
            out@ == name + tags_text(tags@.take(i as int)),
        decreases tags@.len() - i,
    {
        let (key, value) = tags[i];
        let ghost before = out@;
        out.push(44);
        push_str_bytes(&mut out, key);
        out.push(61);
        push_str_bytes(&mut out, value);
        proof {
            assert(tags@.take(i + 1).drop_last() =~= tags@.take(i as int));
            assert(out@ =~= before + tag_text(key@, value@));
            assert(out@ =~= name + tags_text(tags@.take(i + 1)));
        }
        i = i + 1;
    }
    out.push(32);
    let ghost head = out@;
    proof {
        assert(tags@.take(i as int) =~= tags@);
    }
    let mut j: usize = 0;
    while j < fields.len()
        invariant
            j <= fields@.len(),
            out@ == head + fields_text(fields@.take(j as int)),
        decreases fields@.len() - j,
    {
        let (key, value) = fields[j];
        let ghost before = out@;
        if j != 0 {
            out.push(44);
        }
        push_str_bytes(&mut out, key);
        out.push(61);
        let mut number = value.format();
        out.append(&mut number);
        proof {
            assert(fields@.take(j + 1).drop_last() =~= fields@.take(j as int));
            assert(out@ =~= before + field_text(j == 0, key@, value));
            assert(out@ =~= head + fields_text(fields@.take(j + 1)));
        }
        j = j + 1;
    }
    out.push(10);
    proof {
        assert(fields@.take(j as int) =~= fields@);
        assert(head =~= encode_utf8(measurement@) + tags_text(tags@) + seq![32u8]);
        assert(out@ =~= record_text(measurement@, tags@, fields@) + seq![10u8]);
    }
    out
}

/// Writes one whole record without a timestamp to `w` and flushes it. Every identifier is
/// checked before the first byte is written, so that a record with a bad identifier leaves
/// the buffer as it was.
pub fn write(
    w: Buffer,
    measurement: &str,
    tags: &[(&str, &str)],
    fields: &[(&str, Decimal)],
) -> (out: Result<Buffer, Failed>)
    requires
        w.wf(),
        fields@.len() > 0,
    ensures
        match out {
            Ok(sink) => record_violation(measurement@, tags@, fields@) is None && closed_record(
                w,
                record_text(measurement@, tags@, fields@),
                None,
                sink,
            ),
            Err(failed) => step_failed(
                w,
                record_violation(measurement@, tags@, fields@),
                record_text(measurement@, tags@, fields@) + seq![10u8],
                failed,
            ),
        },
{
    if let Err(e) = validate_record(measurement, tags, fields) {
        return Err(Failed { error: e, sink: w });
    }
    let bytes = render_record(measurement, tags, fields);
    let mut sink = w;
    match sink.write_all(bytes.as_slice()) {
        Ok(()) => {
            sink.flush();
            Ok(sink)
        },
        Err(e) => Err(Failed { error: Error::Write(e), sink }),
    }
}

} // verus!
