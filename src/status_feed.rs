//! The status feed: newline-delimited text lines of `label:number` pairs, received in
//! chunks of bytes, whose numbers become the shader's three status values.
use vstd::prelude::*;
use vstd::utf8::{decode_utf8, valid_utf8};
use crate::text::{chars_of, split, split_chars, string_from_chars, string_views, trim, trim_chars};

verus! {

/// Why a status line has no three values.
#[derive(PartialEq, Eq, Structural, Clone, Copy, Debug)]
pub enum StatusError {
    /// A comma-separated field has no `:` and so no value.
    MissingValue,
    /// The line has other than three fields.
    WrongFieldCount,
}

/// The value text of one `label:value` field: what follows the first `:` (up to a
/// second one, if any), trimmed.
pub open spec fn field_value(field: Seq<char>) -> Option<Seq<char>> {
    let parts = split(field, ':');
    if parts.len() >= 2 {
        Some(trim(parts[1]))
    } else {
        None
    }
}

/// The value texts of a status line. A blank line has none (the status vector is then
/// zero). Otherwise a field without a value is an error, and then so is a count of
/// fields other than three.
pub open spec fn status_values(text: Seq<char>) -> Result<Option<Seq<Seq<char>>>, StatusError> {
    let fields = split(text, ',');
    if trim(text).len() == 0 {
        Ok(None)
    } else if exists|i: int| 0 <= i < fields.len() && field_value(fields[i]) is None {
        Err(StatusError::MissingValue)
    } else if fields.len() != 3 {
        Err(StatusError::WrongFieldCount)
    } else {
        Ok(Some(fields.map_values(|f: Seq<char>| field_value(f)->Some_0)))
    }
}

/// Splits a status line such as `x:3,y:-15,z:0` into its three value texts
/// (`3`, `-15`, `0`); `None` for a blank line.
pub fn status_value_texts(text: &str) -> (r: Result<Option<Vec<String>>, StatusError>)
    ensures
        match (r, status_values(text@)) {
            (Ok(None), Ok(None)) => true,
            (Ok(Some(v)), Ok(Some(w))) => string_views(v@) == w,
            (Err(e), Err(f)) => e == f,
            _ => false,
        },
{
    let cs = chars_of(text);
    let trimmed = trim_chars(&cs);
    if trimmed.len() == 0 {
        return Ok(None);
    }
    let fields = split_chars(&cs, ',');
    let ghost fv = fields@.map_values(|p: Vec<char>| p@);
    let mut values: Vec<String> = Vec::new();
    let mut i: usize = 0;
    while i < fields.len()
        invariant
            i <= fields@.len(),
            fv == fields@.map_values(|p: Vec<char>| p@),
            fv == split(text@, ','),
            trim(text@).len() != 0,
            forall|k: int| 0 <= k < i ==> field_value(#[trigger] fv[k]) is Some,
            string_views(values@) == fv.subrange(0, i as int).map_values(|f: Seq<char>| field_value(f)->Some_0),
        decreases fields@.len() - i,
    {
        let parts = split_chars(&fields[i], ':');
        assert(fv[i as int] == fields@[i as int]@);
        assert(parts@.map_values(|p: Vec<char>| p@).len() == parts@.len());
        if parts.len() < 2 {
            assert(field_value(fv[i as int]) is None);
            assert(trim(text@).len() != 0);
            assert(0 <= i < fv.len());
            return Err(StatusError::MissingValue);
        }
        let value = trim_chars(&parts[1]);
        assert(parts@.map_values(|p: Vec<char>| p@)[1] == parts@[1]@);
        assert(value@ == field_value(fv[i as int])->Some_0);
        let ghost before = values@;
        values.push(string_from_chars(&value));
        assert(string_views(values@) =~= string_views(before).push(value@));
        assert(fv.subrange(0, i + 1) =~= fv.subrange(0, i as int).push(fv[i as int]));
        assert(string_views(values@) =~= fv.subrange(0, i + 1).map_values(|f: Seq<char>| field_value(f)->Some_0));
        i = i + 1;
    }
    assert(fv.subrange(0, fv.len() as int) =~= fv);
    if values.len() != 3 {
        return Err(StatusError::WrongFieldCount);
    }
    Ok(Some(values))
}

/// Relies on `std::str::from_utf8`: it accepts exactly the well-formed UTF-8 byte
/// sequences, and the text it then gives holds the characters they encode.
#[verifier::external_body]
fn text_of_utf8(bytes: &[u8]) -> (r: Option<String>)
    ensures
        r is Some <==> valid_utf8(bytes@),
        r matches Some(s) ==> s@ == decode_utf8(bytes@),
{
    match std::str::from_utf8(bytes) {
        Ok(s) => Some(s.to_string()),
        Err(_) => None,
    }
}

/// What a chunk of received text completes: each newline-terminated line, trimmed, and
/// the unterminated rest that waits for the next chunk.
pub open spec fn complete_lines(pending: Seq<char>, text: Seq<char>) -> (Seq<Seq<char>>, Seq<char>) {
    let pieces = split(pending + text, '\n');
    (pieces.drop_last().map_values(|l: Seq<char>| trim(l)), pieces.last())
}

/// Reassembles newline-delimited status lines from the chunks of bytes in which a
/// connection delivers them.
pub struct MessageBuffer {
    pending: Vec<char>,
}

impl MessageBuffer {
    /// The text received after the last newline.
    pub closed spec fn pending(self) -> Seq<char> {
        self.pending@
    }

    /// An empty buffer, for a new connection.
    pub fn new() -> (b: MessageBuffer)
        ensures
            b.pending() == Seq::<char>::empty(),
    {
        MessageBuffer { pending: Vec::new() }
    }

    /// Takes one received chunk and returns the lines it completes, in order, each
    /// trimmed. A chunk that is not UTF-8 is dropped together with the unterminated text
    /// before it.
    pub fn push_chunk(&mut self, chunk: &[u8]) -> (lines: Vec<String>)
        ensures
            valid_utf8(chunk@) ==> {
                let (done, rest) = complete_lines(old(self).pending(), decode_utf8(chunk@));
                string_views(lines@) == done && final(self).pending() == rest
            },
            !valid_utf8(chunk@) ==> lines@.len() == 0 && final(self).pending() == Seq::<char>::empty(),
    {
        let mut lines: Vec<String> = Vec::new();
        match text_of_utf8(chunk) {
            None => {
                self.pending = Vec::new();
            },
            Some(text) => {
                let mut tc = chars_of(text.as_str());
                let ghost joined = self.pending@ + tc@;
                self.pending.append(&mut tc);
                assert(self.pending@ =~= joined);
                let mut pieces = split_chars(&self.pending, '\n');
                let ghost pv = pieces@.map_values(|p: Vec<char>| p@);
                assert(pv.len() == pieces@.len());
                assert(pv.len() > 0);
                let last = pieces.pop().unwrap();
                assert(last@ == pv.last());
                let mut i: usize = 0;
                while i < pieces.len()
                    invariant
                        i <= pieces@.len(),
                        pieces@.len() + 1 == pv.len(),
                        forall|k: int| 0 <= k < pieces@.len() ==> #[trigger] pieces@[k]@ == pv[k],
                        string_views(lines@) == pv.drop_last().subrange(0, i as int).map_values(|l: Seq<char>| trim(l)),
                    decreases pieces@.len() - i,
                {
                    let line = trim_chars(&pieces[i]);
                    let ghost before = lines@;
                    lines.push(string_from_chars(&line));
                    assert(string_views(lines@) =~= string_views(before).push(line@));
                    assert(pv.drop_last().subrange(0, i + 1) =~= pv.drop_last().subrange(0, i as int).push(pv[i as int]));
                    i = i + 1;
                }
                assert(pv.drop_last().subrange(0, pieces@.len() as int) =~= pv.drop_last());
                self.pending = last;
            },
        }
        lines
    }
}

} // verus!
