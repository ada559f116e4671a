//! The metadata document codec: serializes session metadata to a
//! pretty-printed JSON document and parses such documents back.
//!
//! The format is canonical: the serializer always produces the same text
//! for the same metadata, and the parser reads exactly the documents the
//! serializer writes. Parsing a freshly written document returns the
//! metadata unchanged; see `lemma_metadata_round_trip`.

use crate::types::{ParticipantMetadata, RecordingMetadata};
use vstd::prelude::*;

verus! {

// ---------------------------------------------------------------------
// Decimal numbers
// ---------------------------------------------------------------------

pub open spec fn is_digit(c: char) -> bool {
    ('0' as u32) <= (c as u32) && (c as u32) <= ('9' as u32)
}

pub open spec fn digit_char(d: int) -> char {
    ((('0' as u32) + d as u32) as u8) as char
}

pub open spec fn digit_val(c: char) -> int {
    (c as u32) - ('0' as u32)
}

/// The decimal digits of a natural number, most significant first.
pub open spec fn dec_rep(n: nat) -> Seq<char>
    decreases n,
{
    if n < 10 {
        seq![digit_char(n as int)]
    } else {
        dec_rep(n / 10) + seq![digit_char((n % 10) as int)]
    }
}

/// The decimal form of an integer: a minus sign for negative values.
pub open spec fn dec_rep_int(n: int) -> Seq<char> {
    if n < 0 {
        seq!['-'] + dec_rep((-n) as nat)
    } else {
        dec_rep(n as nat)
    }
}

/// The value of a digit string, most significant first.
pub open spec fn digits_val(ds: Seq<char>) -> nat
    decreases ds.len(),
{
    if ds.len() == 0 {
        0
    } else {
        digits_val(ds.drop_last()) * 10 + digit_val(ds.last()) as nat
    }
}

/// How many leading digits the input has.
pub open spec fn num_digits(s: Seq<char>) -> nat
    decreases s.len(),
{
    if s.len() > 0 && is_digit(s[0]) {
        1 + num_digits(s.drop_first())
    } else {
        0
    }
}

/// Greedily parses a leading decimal number: its value and the rest of the
/// input.
pub open spec fn spec_parse_nat(s: Seq<char>) -> Option<(nat, Seq<char>)> {
    if num_digits(s) == 0 {
        None
    } else {
        Some((digits_val(s.take(num_digits(s) as int)), s.skip(num_digits(s) as int)))
    }
}

/// Parses a leading decimal integer with an optional minus sign.
pub open spec fn spec_parse_int(s: Seq<char>) -> Option<(int, Seq<char>)> {
    if s.len() > 0 && s[0] == '-' {
        match spec_parse_nat(s.drop_first()) {
            Some((n, rest)) => Some((-(n as int), rest)),
            None => None,
        }
    } else {
        match spec_parse_nat(s) {
            Some((n, rest)) => Some((n as int, rest)),
            None => None,
        }
    }
}

proof fn lemma_dec_rep_digits(n: nat)
    ensures
        dec_rep(n).len() >= 1,
        forall|i: int| 0 <= i < dec_rep(n).len() ==> is_digit(#[trigger] dec_rep(n)[i]),
    decreases n,
{
    if n < 10 {
        assert(is_digit(dec_rep(n)[0]));
    } else {
        lemma_dec_rep_digits(n / 10);
        assert forall|i: int| 0 <= i < dec_rep(n).len() implies is_digit(#[trigger] dec_rep(n)[i]) by {
            if i < dec_rep(n / 10).len() {
                assert(dec_rep(n)[i] == dec_rep(n / 10)[i]);
            } else {
                assert(dec_rep(n)[i] == digit_char((n % 10) as int));
            }
        }
    }
}

/// Scanning `dec_rep(n) + rest` finds exactly the digits of `n` when
/// `rest` does not begin with a digit.
proof fn lemma_num_digits_of_rep(n: nat, rest: Seq<char>)
    requires
        rest.len() > 0 ==> !is_digit(rest[0]),
    ensures
        num_digits(dec_rep(n) + rest) == dec_rep(n).len(),
        (dec_rep(n) + rest).take(dec_rep(n).len() as int) =~= dec_rep(n),
        (dec_rep(n) + rest).skip(dec_rep(n).len() as int) =~= rest,
    decreases dec_rep(n).len(),
{
    lemma_dec_rep_digits(n);
    lemma_num_digits_all(dec_rep(n), rest);
}

/// Scanning `ds + rest` where `ds` is all digits and `rest` starts with a
/// non-digit finds exactly `ds`.
proof fn lemma_num_digits_all(ds: Seq<char>, rest: Seq<char>)
    requires
        forall|i: int| 0 <= i < ds.len() ==> is_digit(#[trigger] ds[i]),
        rest.len() > 0 ==> !is_digit(rest[0]),
    ensures
        num_digits(ds + rest) == ds.len(),
        (ds + rest).take(ds.len() as int) =~= ds,
        (ds + rest).skip(ds.len() as int) =~= rest,
    decreases ds.len(),
{
    if ds.len() == 0 {
        assert(ds + rest =~= rest);
    } else {
        assert((ds + rest)[0] == ds[0]);
        assert((ds + rest).drop_first() =~= ds.drop_first() + rest);
        lemma_num_digits_all(ds.drop_first(), rest);
    }
}

/// The digit string of a value reads back as that value.
proof fn lemma_digits_val_of_rep(n: nat)
    ensures
        digits_val(dec_rep(n)) == n,
    decreases n,
{
    if n < 10 {
        assert(dec_rep(n).drop_last() =~= Seq::<char>::empty());
        assert(digit_val(digit_char(n as int)) == n);
        assert(dec_rep(n).last() == digit_char(n as int));
        assert(digits_val(dec_rep(n).drop_last()) == 0);
        assert(digits_val(dec_rep(n)) == digits_val(dec_rep(n).drop_last()) * 10 + digit_val(
            dec_rep(n).last(),
        ) as nat);
    } else {
        lemma_digits_val_of_rep(n / 10);
        assert(dec_rep(n).drop_last() =~= dec_rep(n / 10));
        assert(dec_rep(n).last() == digit_char((n % 10) as int));
        assert(digit_val(digit_char((n % 10) as int)) == n % 10);
        assert(digits_val(dec_rep(n)) == digits_val(dec_rep(n).drop_last()) * 10 + digit_val(
            dec_rep(n).last(),
        ) as nat);
        assert(digits_val(dec_rep(n)) == (n / 10) * 10 + n % 10);
        assert((n / 10) * 10 + n % 10 == n) by (nonlinear_arith);
    }
}

/// Round trip for natural numbers: parsing the decimal form of `n`
/// followed by a non-digit rest yields `n` and the rest.
pub proof fn lemma_parse_nat_round_trip(n: nat, rest: Seq<char>)
    requires
        rest.len() > 0 ==> !is_digit(rest[0]),
    ensures
        spec_parse_nat(dec_rep(n) + rest) == Some((n, rest)),
{
    lemma_num_digits_of_rep(n, rest);
    lemma_digits_val_of_rep(n);
    lemma_dec_rep_digits(n);
    assert(num_digits(dec_rep(n) + rest) >= 1);
    assert((dec_rep(n) + rest).take(num_digits(dec_rep(n) + rest) as int) == dec_rep(n));
    assert((dec_rep(n) + rest).skip(num_digits(dec_rep(n) + rest) as int) == rest);
}

/// Round trip for integers: parsing the decimal form of `n` followed by a
/// non-digit rest yields `n` and the rest.
pub proof fn lemma_parse_int_round_trip(n: int, rest: Seq<char>)
    requires
        rest.len() > 0 ==> !is_digit(rest[0]),
    ensures
        spec_parse_int(dec_rep_int(n) + rest) == Some((n, rest)),
{
    if n < 0 {
        let s = dec_rep_int(n) + rest;
        assert(s[0] == '-');
        assert(s.drop_first() =~= dec_rep((-n) as nat) + rest);
        lemma_parse_nat_round_trip((-n) as nat, rest);
    } else {
        let s = dec_rep_int(n) + rest;
        lemma_dec_rep_digits(n as nat);
        assert(s[0] == dec_rep(n as nat)[0]);
        assert(s[0] != '-') by {
            assert(is_digit(dec_rep(n as nat)[0]));
        }
        lemma_parse_nat_round_trip(n as nat, rest);
    }
}

/// Appends the decimal form of `n`.
pub fn push_dec_u64(out: &mut String, n: u64)
    ensures
        final(out)@ == old(out)@ + dec_rep(n as nat),
    decreases n,
{
    if n < 10 {
        let d = (48u8 + (n as u8)) as char;
        proof {
            assert(d == digit_char(n as int));
            assert(old(out)@.push(d) =~= old(out)@ + dec_rep(n as nat));
        }
        out.push(d);
    } else {
        push_dec_u64(out, n / 10);
        let d = (48u8 + ((n % 10) as u8)) as char;
        proof {
            assert(d == digit_char((n % 10) as int));
            assert((old(out)@ + dec_rep((n / 10) as nat)).push(d) =~= old(out)@ + dec_rep(
                n as nat,
            ));
        }
        out.push(d);
    }
}

/// Appends the decimal form of `n`, with a minus sign when negative.
pub fn push_dec_i64(out: &mut String, n: i64)
    ensures
        final(out)@ == old(out)@ + dec_rep_int(n as int),
{
    if n < 0 {
        out.push('-');
        let m: u64 = (-(n as i128)) as u64;
        proof {
            assert(m as nat == (-(n as int)) as nat);
        }
        push_dec_u64(out, m);
        proof {
            assert(old(out)@.push('-') + dec_rep(m as nat) =~= old(out)@ + dec_rep_int(n as int));
        }
    } else {
        push_dec_u64(out, n as u64);
    }
}

// ---------------------------------------------------------------------
// Strings
// ---------------------------------------------------------------------

pub open spec fn is_hex(c: char) -> bool {
    is_digit(c) || (('a' as u32) <= (c as u32) && (c as u32) <= ('f' as u32))
}

pub open spec fn hex_digit(d: int) -> char {
    if d < 10 {
        digit_char(d)
    } else {
        ((('a' as u32) + (d - 10) as u32) as u8) as char
    }
}

pub open spec fn hex_val(c: char) -> int {
    if is_digit(c) {
        digit_val(c)
    } else {
        (c as u32) - ('a' as u32) + 10
    }
}

/// How one character appears inside a JSON string literal.
pub open spec fn escape_char(c: char) -> Seq<char> {
    if c == '"' {
        seq!['\\', '"']
    } else if c == '\\' {
        seq!['\\', '\\']
    } else if c == '\n' {
        seq!['\\', 'n']
    } else if c == '\r' {
        seq!['\\', 'r']
    } else if c == '\t' {
        seq!['\\', 't']
    } else if (c as u32) < 32 {
        seq!['\\', 'u', '0', '0', hex_digit(((c as u32) / 16) as int), hex_digit(
            ((c as u32) % 16) as int,
        )]
    } else {
        seq![c]
    }
}

/// The body of a JSON string literal: every character escaped as needed.
pub open spec fn escape_str(s: Seq<char>) -> Seq<char>
    decreases s.len(),
{
    if s.len() == 0 {
        Seq::empty()
    } else {
        escape_char(s[0]) + escape_str(s.drop_first())
    }
}

/// Parses a string literal body up to and over its closing quote: the
/// decoded content and the rest of the input.
pub open spec fn spec_parse_string_body(s: Seq<char>) -> Option<(Seq<char>, Seq<char>)>
    decreases s.len(),
{
    if s.len() == 0 {
        None
    } else if s[0] == '"' {
        Some((Seq::empty(), s.drop_first()))
    } else if s[0] == '\\' {
        if s.len() < 2 {
            None
        } else {
            let e = s[1];
            if e == 'u' {
                if s.len() >= 6 && s[2] == '0' && s[3] == '0' && is_hex(s[4]) && is_hex(s[5]) {
                    let code = hex_val(s[4]) * 16 + hex_val(s[5]);
                    match spec_parse_string_body(s.skip(6)) {
                        Some((content, rest)) => Some((seq![((code as u8) as char)] + content, rest)),
                        None => None,
                    }
                } else {
                    None
                }
            } else if e == '"' || e == '\\' || e == 'n' || e == 'r' || e == 't' {
                let decoded = if e == '"' {
                    '"'
                } else if e == '\\' {
                    '\\'
                } else if e == 'n' {
                    '\n'
                } else if e == 'r' {
                    '\r'
                } else {
                    '\t'
                };
                match spec_parse_string_body(s.skip(2)) {
                    Some((content, rest)) => Some((seq![decoded] + content, rest)),
                    None => None,
                }
            } else {
                None
            }
        }
    } else {
        match spec_parse_string_body(s.drop_first()) {
            Some((content, rest)) => Some((seq![s[0]] + content, rest)),
            None => None,
        }
    }
}

proof fn lemma_char_from_code(c: char, code: int)
    requires
        0 <= code < 32,
        c as u32 == code,
    ensures
        ((code as u8) as char) == c,
{
    let ch = (code as u8) as char;
    assert(ch as u32 == code);
    assert(ch == c);
}

proof fn lemma_hex_round_trip(x: int)
    requires
        0 <= x < 16,
    ensures
        is_hex(hex_digit(x)),
        hex_val(hex_digit(x)) == x,
{
}

/// Round trip for string bodies: parsing the escaped form of `content`
/// followed by the closing quote yields `content` and the rest.
pub proof fn lemma_parse_string_round_trip(content: Seq<char>, rest: Seq<char>)
    ensures
        spec_parse_string_body(escape_str(content) + seq!['"'] + rest) == Some((content, rest)),
    decreases content.len(),
{
    let s = escape_str(content) + seq!['"'] + rest;
    if content.len() == 0 {
        assert(s =~= seq!['"'] + rest);
        assert(s[0] == '"');
        assert(s.drop_first() =~= rest);
    } else {
        let c = content[0];
        let ctail = content.drop_first();
        let tail = escape_str(ctail) + seq!['"'] + rest;
        assert(escape_str(content) == escape_char(c) + escape_str(ctail));
        assert(s =~= escape_char(c) + tail);
        lemma_parse_string_round_trip(ctail, rest);
        if c == '"' || c == '\\' || c == '\n' || c == '\r' || c == '\t' {
            assert(s[0] == '\\');
            assert(s.skip(2) =~= tail);
            assert(seq![c] + ctail =~= content);
        } else if (c as u32) < 32 {
            let hi = ((c as u32) / 16) as int;
            let lo = ((c as u32) % 16) as int;
            assert(s[0] == '\\' && s[1] == 'u' && s[2] == '0' && s[3] == '0');
            assert(s[4] == hex_digit(hi) && s[5] == hex_digit(lo));
            lemma_hex_round_trip(hi);
            lemma_hex_round_trip(lo);
            assert(s.skip(6) =~= tail);
            let code = hex_val(s[4]) * 16 + hex_val(s[5]);
            assert(code == hi * 16 + lo);
            assert(hi * 16 + lo == c as u32) by {
                assert((c as u32) / 16 * 16 + (c as u32) % 16 == (c as u32));
            }
            assert(0 <= code < 32);
            assert(c as u32 == code);
            lemma_char_from_code(c, code);
            assert(seq![c] + ctail =~= content);
        } else {
            assert(s[0] == c);
            assert(c != '"' && c != '\\');
            assert(s.drop_first() =~= tail);
            assert(seq![c] + ctail =~= content);
        }
    }
}

proof fn lemma_escape_snoc(s: Seq<char>, c: char)
    ensures
        escape_str(s.push(c)) == escape_str(s) + escape_char(c),
    decreases s.len(),
{
    if s.len() == 0 {
        assert(s.push(c)[0] == c);
        assert(s.push(c).drop_first() =~= Seq::<char>::empty());
        assert(escape_str(Seq::<char>::empty()) =~= Seq::<char>::empty());
        assert(escape_str(s.push(c).drop_first()) =~= Seq::<char>::empty());
        assert(escape_str(s.push(c)) == escape_char(c) + escape_str(s.push(c).drop_first()));
        assert(escape_str(s.push(c)) =~= escape_str(s) + escape_char(c));
    } else {
        let h = s[0];
        let t = s.drop_first();
        assert(s.push(c)[0] == h);
        assert(s.push(c).drop_first() =~= t.push(c));
        lemma_escape_snoc(t, c);
        assert(escape_str(s.push(c)) == escape_char(h) + escape_str(s.push(c).drop_first()));
        assert(escape_str(s.push(c).drop_first()) == escape_str(t.push(c)));
        assert(escape_str(t.push(c)) == escape_str(t) + escape_char(c));
        assert(escape_char(h) + (escape_str(t) + escape_char(c)) =~= (escape_char(h) + escape_str(
            t,
        )) + escape_char(c));
        assert(escape_str(s) == escape_char(h) + escape_str(t));
        assert(escape_str(s.push(c)) =~= escape_str(s) + escape_char(c));
    }
}

fn hex_char(d: u8) -> (r: char)
    requires
        d < 16,
    ensures
        r == hex_digit(d as int),
{
    if d < 10 {
        (48u8 + d) as char
    } else {
        (97u8 + (d - 10)) as char
    }
}

/// Appends the escaped form of `s`, without the surrounding quotes.
pub fn push_escaped(out: &mut String, s: &str)
    ensures
        final(out)@ == old(out)@ + escape_str(s@),
{
    let n = s.unicode_len();
    let mut i: usize = 0;
    while i < n
        invariant
            i <= n,
            n == s@.len(),
            out@ == old(out)@ + escape_str(s@.subrange(0, i as int)),
        decreases n - i,
    {
        let ghost prefix = s@.subrange(0, i as int);
        let c = s.get_char(i);
        let u = c as u32;
        if c == '"' {
            out.push('\\');
            out.push('"');
        } else if c == '\\' {
            out.push('\\');
            out.push('\\');
        } else if c == '\n' {
            out.push('\\');
            out.push('n');
        } else if c == '\r' {
            out.push('\\');
            out.push('r');
        } else if c == '\t' {
            out.push('\\');
            out.push('t');
        } else if u < 32 {
            out.push('\\');
            out.push('u');
            out.push('0');
            out.push('0');
            out.push(hex_char((u / 16) as u8));
            out.push(hex_char((u % 16) as u8));
        } else {
            out.push(c);
        }
        proof {
            lemma_escape_snoc(prefix, c);
            assert(s@.subrange(0, (i + 1) as int) =~= prefix.push(c));
            assert(out@ =~= old(out)@ + escape_str(s@.subrange(0, (i + 1) as int)));
        }
        i += 1;
    }
    proof {
        assert(s@.subrange(0, n as int) =~= s@);
    }
}


// ---------------------------------------------------------------------
// Document model
// ---------------------------------------------------------------------

/// The mathematical content of one participant entry.
pub ghost struct PartModel {
    pub id: Seq<char>,
    pub name: Seq<char>,
    pub audio_file: Option<Seq<char>>,
    pub video_file: Option<Seq<char>>,
    pub joined_at: int,
    pub left_at: Option<int>,
}

/// The mathematical content of a metadata document.
pub ghost struct MetaModel {
    pub id: Seq<char>,
    pub room_id: Seq<char>,
    pub started_at: int,
    pub stopped_at: Option<int>,
    pub duration_seconds: nat,
    pub participants: Seq<PartModel>,
    pub output_directory: Seq<char>,
}

impl ParticipantMetadata {
    pub open spec fn model(&self) -> PartModel {
        PartModel {
            id: self.id@,
            name: self.name@,
            audio_file: match self.audio_file {
                Some(p) => Some(p@),
                None => None,
            },
            video_file: match self.video_file {
                Some(p) => Some(p@),
                None => None,
            },
            joined_at: self.joined_at as int,
            left_at: match self.left_at {
                Some(t) => Some(t as int),
                None => None,
            },
        }
    }
}

impl RecordingMetadata {
    pub open spec fn model(&self) -> MetaModel {
        MetaModel {
            id: self.id@,
            room_id: self.room_id@,
            started_at: self.started_at as int,
            stopped_at: match self.stopped_at {
                Some(t) => Some(t as int),
                None => None,
            },
            duration_seconds: self.duration_seconds as nat,
            participants: self.participants@.map_values(|p: ParticipantMetadata| p.model()),
            output_directory: self.output_directory@,
        }
    }
}

// ---------------------------------------------------------------------
// The canonical document text
// ---------------------------------------------------------------------

/// A JSON string literal.
#[verifier::opaque]
pub open spec fn quoted(s: Seq<char>) -> Seq<char> {
    "\""@ + escape_str(s) + "\""@
}

/// A nullable string value.
pub open spec fn json_opt_str(o: Option<Seq<char>>) -> Seq<char> {
    match o {
        Some(s) => quoted(s),
        None => "null"@,
    }
}

/// A nullable integer value.
pub open spec fn json_opt_int(o: Option<int>) -> Seq<char> {
    match o {
        Some(n) => dec_rep_int(n),
        None => "null"@,
    }
}

/// One participant entry: the id as the key, then the entry object.
pub open spec fn json_participant(p: PartModel) -> Seq<char> {
    quoted(p.id) + ": {\n      \"id\": "@ + quoted(p.id) + ",\n      \"name\": "@ + quoted(p.name)
        + ",\n      \"audio_file\": "@ + json_opt_str(p.audio_file) + ",\n      \"video_file\": "@
        + json_opt_str(p.video_file) + ",\n      \"joined_at\": "@ + dec_rep_int(p.joined_at)
        + ",\n      \"left_at\": "@ + json_opt_int(p.left_at) + "\n    }"@
}

/// The participant entries joined by their separator.
pub open spec fn json_entries(ps: Seq<PartModel>) -> Seq<char>
    decreases ps.len(),
{
    if ps.len() == 0 {
        Seq::empty()
    } else if ps.len() == 1 {
        json_participant(ps[0])
    } else {
        json_participant(ps[0]) + ",\n    "@ + json_entries(ps.drop_first())
    }
}

/// The participants object.
pub open spec fn json_participants(ps: Seq<PartModel>) -> Seq<char> {
    if ps.len() == 0 {
        "{"@ + "}"@
    } else {
        "{"@ + "\n    "@ + json_entries(ps) + "\n  }"@
    }
}

/// The whole metadata document.
pub open spec fn json_metadata(m: MetaModel) -> Seq<char> {
    "{\n  \"id\": "@ + quoted(m.id) + ",\n  \"room_id\": "@ + quoted(m.room_id)
        + ",\n  \"started_at\": "@ + dec_rep_int(m.started_at) + ",\n  \"stopped_at\": "@
        + json_opt_int(m.stopped_at) + ",\n  \"duration_seconds\": "@ + dec_rep(m.duration_seconds)
        + ",\n  \"participants\": "@ + json_participants(m.participants)
        + ",\n  \"output_directory\": "@ + quoted(m.output_directory) + "\n}"@
}

// ---------------------------------------------------------------------
// The document parser
// ---------------------------------------------------------------------

/// Consumes an exact literal.
pub open spec fn expect(s: Seq<char>, lit: Seq<char>) -> Option<Seq<char>> {
    if s.len() >= lit.len() && s.take(lit.len() as int) == lit {
        Some(s.skip(lit.len() as int))
    } else {
        None
    }
}

/// Parses a quoted string literal.
pub open spec fn spec_parse_quoted(s: Seq<char>) -> Option<(Seq<char>, Seq<char>)> {
    match expect(s, "\""@) {
        Some(r) => spec_parse_string_body(r),
        None => None,
    }
}

/// Parses `null` or a quoted string.
pub open spec fn spec_parse_opt_str(s: Seq<char>) -> Option<(Option<Seq<char>>, Seq<char>)> {
    if s.len() > 0 && s[0] == '"' {
        match spec_parse_quoted(s) {
            Some((v, rest)) => Some((Some(v), rest)),
            None => None,
        }
    } else {
        match expect(s, "null"@) {
            Some(rest) => Some((None, rest)),
            None => None,
        }
    }
}

/// Parses `null` or an integer.
pub open spec fn spec_parse_opt_int(s: Seq<char>) -> Option<(Option<int>, Seq<char>)> {
    if s.len() > 0 && s[0] == 'n' {
        match expect(s, "null"@) {
            Some(rest) => Some((None, rest)),
            None => None,
        }
    } else {
        match spec_parse_int(s) {
            Some((n, rest)) => Some((Some(n), rest)),
            None => None,
        }
    }
}

/// Parses one participant entry. The entry's key is read and discarded;
/// the fields of the entry object carry the content.
pub open spec fn spec_parse_entry(s: Seq<char>) -> Option<(PartModel, Seq<char>)> {
    match spec_parse_quoted(s) {
        Some((_key, s1)) => match expect(s1, ": {\n      \"id\": "@) {
            Some(s2) => match spec_parse_quoted(s2) {
                Some((id, s3)) => match expect(s3, ",\n      \"name\": "@) {
                    Some(s4) => match spec_parse_quoted(s4) {
                        Some((name, s5)) => match expect(s5, ",\n      \"audio_file\": "@) {
                            Some(s6) => match spec_parse_opt_str(s6) {
                                Some((af, s7)) => match expect(s7, ",\n      \"video_file\": "@) {
                                    Some(s8) => match spec_parse_opt_str(s8) {
                                        Some((vf, s9)) => match expect(
                                            s9,
                                            ",\n      \"joined_at\": "@,
                                        ) {
                                            Some(s10) => match spec_parse_int(s10) {
                                                Some((ja, s11)) => match expect(
                                                    s11,
                                                    ",\n      \"left_at\": "@,
                                                ) {
                                                    Some(s12) => match spec_parse_opt_int(s12) {
                                                        Some((la, s13)) => match expect(
                                                            s13,
                                                            "\n    }"@,
                                                        ) {
                                                            Some(s14) => Some(
                                                                (
                                                                    PartModel {
                                                                        id: id,
                                                                        name: name,
                                                                        audio_file: af,
                                                                        video_file: vf,
                                                                        joined_at: ja,
                                                                        left_at: la,
                                                                    },
                                                                    s14,
                                                                ),
                                                            ),
                                                            None => None,
                                                        },
                                                        None => None,
                                                    },
                                                    None => None,
                                                },
                                                None => None,
                                            },
                                            None => None,
                                        },
                                        None => None,
                                    },
                                    None => None,
                                },
                                None => None,
                            },
                            None => None,
                        },
                        None => None,
                    },
                    None => None,
                },
                None => None,
            },
            None => None,
        },
        None => None,
    }
}

/// Parses a non-empty run of entries separated by `,`; stops before the
/// closing of the participants object.
pub open spec fn spec_parse_entries(s: Seq<char>) -> Option<(Seq<PartModel>, Seq<char>)>
    decreases s.len(),
{
    match spec_parse_entry(s) {
        Some((p, rest)) => {
            if rest.len() < s.len() {
                if rest.len() > 0 && rest[0] == ',' {
                    if rest.len() >= 6 && rest.take(6) == ",\n    "@ {
                        match spec_parse_entries(rest.skip(6)) {
                            Some((ps, rest2)) => Some((seq![p] + ps, rest2)),
                            None => None,
                        }
                    } else {
                        None
                    }
                } else {
                    Some((seq![p], rest))
                }
            } else {
                None
            }
        },
        None => None,
    }
}

/// Parses the participants object.
pub open spec fn spec_parse_participants(s: Seq<char>) -> Option<(Seq<PartModel>, Seq<char>)> {
    match expect(s, "{"@) {
        Some(r1) => {
            if r1.len() > 0 && r1[0] == '}' {
                match expect(r1, "}"@) {
                    Some(r2) => Some((Seq::empty(), r2)),
                    None => None,
                }
            } else {
                match expect(r1, "\n    "@) {
                    Some(r2) => match spec_parse_entries(r2) {
                        Some((ps, r3)) => match expect(r3, "\n  }"@) {
                            Some(r4) => Some((ps, r4)),
                            None => None,
                        },
                        None => None,
                    },
                    None => None,
                }
            }
        },
        None => None,
    }
}

/// Parses a whole metadata document.
pub open spec fn spec_parse_metadata(s: Seq<char>) -> Option<(MetaModel, Seq<char>)> {
    match expect(s, "{\n  \"id\": "@) {
        Some(s1) => match spec_parse_quoted(s1) {
            Some((id, s2)) => match expect(s2, ",\n  \"room_id\": "@) {
                Some(s3) => match spec_parse_quoted(s3) {
                    Some((room_id, s4)) => match expect(s4, ",\n  \"started_at\": "@) {
                        Some(s5) => match spec_parse_int(s5) {
                            Some((started_at, s6)) => match expect(s6, ",\n  \"stopped_at\": "@) {
                                Some(s7) => match spec_parse_opt_int(s7) {
                                    Some((stopped_at, s8)) => match expect(
                                        s8,
                                        ",\n  \"duration_seconds\": "@,
                                    ) {
                                        Some(s9) => match spec_parse_nat(s9) {
                                            Some((duration, s10)) => match expect(
                                                s10,
                                                ",\n  \"participants\": "@,
                                            ) {
                                                Some(s11) => match spec_parse_participants(s11) {
                                                    Some((ps, s12)) => match expect(
                                                        s12,
                                                        ",\n  \"output_directory\": "@,
                                                    ) {
                                                        Some(s13) => match spec_parse_quoted(s13) {
                                                            Some((od, s14)) => match expect(
                                                                s14,
                                                                "\n}"@,
                                                            ) {
                                                                Some(s15) => Some(
                                                                    (
                                                                        MetaModel {
                                                                            id: id,
                                                                            room_id: room_id,
                                                                            started_at: started_at,
                                                                            stopped_at: stopped_at,
                                                                            duration_seconds:
                                                                                duration,
                                                                            participants: ps,
                                                                            output_directory: od,
                                                                        },
                                                                        s15,
                                                                    ),
                                                                ),
                                                                None => None,
                                                            },
                                                            None => None,
                                                        },
                                                        None => None,
                                                    },
                                                    None => None,
                                                },
                                                None => None,
                                            },
                                            None => None,
                                        },
                                        None => None,
                                    },
                                    None => None,
                                },
                                None => None,
                            },
                            None => None,
                        },
                        None => None,
                    },
                    None => None,
                },
                None => None,
            },
            None => None,
        },
        None => None,
    }
}


// ---------------------------------------------------------------------
// Round trip: parsing a freshly serialized document
// ---------------------------------------------------------------------

proof fn lemma_expect(lit: Seq<char>, rest: Seq<char>)
    ensures
        expect(lit + rest, lit) == Some(rest),
{
    let s = lit + rest;
    assert(s.take(lit.len() as int) =~= lit);
    assert(s.skip(lit.len() as int) =~= rest);
}

proof fn lemma_quote_lit()
    ensures
        "\""@ == seq!['"'],
{
    reveal_strlit("\"");
    assert("\""@ =~= seq!['"']);
}

proof fn lemma_parse_quoted_rt(x: Seq<char>, rest: Seq<char>)
    ensures
        spec_parse_quoted(quoted(x) + rest) == Some((x, rest)),
        quoted(x).len() >= 2,
        (quoted(x) + rest)[0] == '"',
{
    reveal(quoted);
    lemma_quote_lit();
    let tail = escape_str(x) + seq!['"'] + rest;
    assert(quoted(x) + rest =~= "\""@ + tail);
    lemma_expect("\""@, tail);
    lemma_parse_string_round_trip(x, rest);
}

proof fn lemma_parse_opt_str_rt(o: Option<Seq<char>>, rest: Seq<char>)
    ensures
        spec_parse_opt_str(json_opt_str(o) + rest) == Some((o, rest)),
{
    reveal_strlit("null");
    match o {
        None => {
            let s = "null"@ + rest;
            assert(s[0] == 'n');
            lemma_expect("null"@, rest);
        },
        Some(x) => {
            let s = quoted(x) + rest;
            lemma_parse_quoted_rt(x, rest);
            assert(s[0] == '"');
        },
    }
}

proof fn lemma_parse_opt_int_rt(o: Option<int>, rest: Seq<char>)
    requires
        rest.len() > 0 ==> !is_digit(rest[0]),
    ensures
        spec_parse_opt_int(json_opt_int(o) + rest) == Some((o, rest)),
{
    reveal_strlit("null");
    match o {
        None => {
            let s = "null"@ + rest;
            assert(s[0] == 'n');
            lemma_expect("null"@, rest);
        },
        Some(n) => {
            let s = dec_rep_int(n) + rest;
            if n < 0 {
                assert(s[0] == '-');
            } else {
                lemma_dec_rep_digits(n as nat);
                assert(s[0] == dec_rep(n as nat)[0]);
                assert(is_digit(s[0]));
            }
            assert(s[0] != 'n');
            lemma_parse_int_round_trip(n, rest);
            assert(s.len() > 0);
        },
    }
}

#[verifier::spinoff_prover]
#[verifier::rlimit(100)]
proof fn lemma_parse_entry_rt(p: PartModel, rest: Seq<char>)
    ensures
        spec_parse_entry(json_participant(p) + rest) == Some((p, rest)),
        json_participant(p).len() >= 1,
{
    let t14 = rest;
    let t13 = "\n    }"@ + t14;
    let t12 = json_opt_int(p.left_at) + t13;
    let t11 = ",\n      \"left_at\": "@ + t12;
    let t10 = dec_rep_int(p.joined_at) + t11;
    let t9 = ",\n      \"joined_at\": "@ + t10;
    let t8 = json_opt_str(p.video_file) + t9;
    let t7 = ",\n      \"video_file\": "@ + t8;
    let t6 = json_opt_str(p.audio_file) + t7;
    let t5 = ",\n      \"audio_file\": "@ + t6;
    let t4 = quoted(p.name) + t5;
    let t3 = ",\n      \"name\": "@ + t4;
    let t2 = quoted(p.id) + t3;
    let t1 = ": {\n      \"id\": "@ + t2;
    let t0 = quoted(p.id) + t1;
    assert(json_participant(p) + rest =~= t0);
    lemma_parse_quoted_rt(p.id, t1);
    lemma_expect(": {\n      \"id\": "@, t2);
    lemma_parse_quoted_rt(p.id, t3);
    lemma_expect(",\n      \"name\": "@, t4);
    lemma_parse_quoted_rt(p.name, t5);
    lemma_expect(",\n      \"audio_file\": "@, t6);
    lemma_parse_opt_str_rt(p.audio_file, t7);
    lemma_expect(",\n      \"video_file\": "@, t8);
    lemma_parse_opt_str_rt(p.video_file, t9);
    lemma_expect(",\n      \"joined_at\": "@, t10);
    reveal_strlit(",\n      \"left_at\": ");
    assert(t11[0] == ',');
    assert(!is_digit(','));
    lemma_parse_int_round_trip(p.joined_at, t11);
    lemma_expect(",\n      \"left_at\": "@, t12);
    reveal_strlit("\n    }");
    assert(t13[0] == '\n');
    assert(!is_digit('\n'));
    lemma_parse_opt_int_rt(p.left_at, t13);
    lemma_expect("\n    }"@, t14);
    assert(quoted(p.id).len() >= 1);
    assert(spec_parse_entry(t0) == Some((p, rest)));
}

#[verifier::spinoff_prover]
#[verifier::rlimit(100)]
proof fn lemma_parse_entries_rt(ps: Seq<PartModel>, rest: Seq<char>)
    requires
        ps.len() >= 1,
        rest.len() > 0,
        rest[0] != ',',
    ensures
        spec_parse_entries(json_entries(ps) + rest) == Some((ps, rest)),
    decreases ps.len(),
{
    let s = json_entries(ps) + rest;
    if ps.len() == 1 {
        lemma_parse_entry_rt(ps[0], rest);
        assert(s == json_participant(ps[0]) + rest);
        assert(rest.len() < s.len());
        assert(seq![ps[0]] =~= ps);
    } else {
        reveal_strlit(",\n    ");
        let tailtext = json_entries(ps.drop_first()) + rest;
        let rest1 = ",\n    "@ + tailtext;
        assert(s =~= json_participant(ps[0]) + rest1);
        lemma_parse_entry_rt(ps[0], rest1);
        assert(rest1.len() < s.len());
        assert(rest1[0] == ',');
        assert(",\n    "@.len() == 6);
        assert(rest1.take(6) =~= ",\n    "@);
        assert(rest1.skip(6) =~= tailtext);
        lemma_parse_entries_rt(ps.drop_first(), rest);
        assert(seq![ps[0]] + ps.drop_first() =~= ps);
        assert(spec_parse_entries(s) == Some((ps, rest)));
    }
}

proof fn lemma_parse_participants_rt(ps: Seq<PartModel>, rest: Seq<char>)
    ensures
        spec_parse_participants(json_participants(ps) + rest) == Some((ps, rest)),
{
    reveal_strlit("{");
    reveal_strlit("}");
    reveal_strlit("\n    ");
    reveal_strlit("\n  }");
    if ps.len() == 0 {
        let r1 = "}"@ + rest;
        assert(json_participants(ps) + rest =~= "{"@ + r1);
        lemma_expect("{"@, r1);
        assert(r1[0] == '}');
        lemma_expect("}"@, rest);
        assert(Seq::<PartModel>::empty() =~= ps);
    } else {
        let close = "\n  }"@ + rest;
        let r2 = json_entries(ps) + close;
        let r1 = "\n    "@ + r2;
        assert(json_participants(ps) + rest =~= "{"@ + r1);
        lemma_expect("{"@, r1);
        assert(r1[0] == '\n');
        assert(r1[0] != '}');
        lemma_expect("\n    "@, r2);
        assert(close[0] == '\n');
        assert(close[0] != ',');
        lemma_parse_entries_rt(ps, close);
        lemma_expect("\n  }"@, rest);
    }
}

/// Law: a freshly serialized metadata document, when parsed back, yields
/// exactly the metadata it was written from, with nothing left over.
pub proof fn lemma_metadata_round_trip(m: MetaModel)
    ensures
        spec_parse_metadata(json_metadata(m)) == Some((m, Seq::<char>::empty())),
{
    lemma_parse_metadata_rt(m, Seq::empty());
    assert(json_metadata(m) + Seq::<char>::empty() =~= json_metadata(m));
}

#[verifier::spinoff_prover]
#[verifier::rlimit(100)]
proof fn lemma_parse_metadata_rt(m: MetaModel, rest: Seq<char>)
    ensures
        spec_parse_metadata(json_metadata(m) + rest) == Some((m, rest)),
{
    let t15 = rest;
    let t14 = "\n}"@ + t15;
    let t13 = quoted(m.output_directory) + t14;
    let t12 = ",\n  \"output_directory\": "@ + t13;
    let t11 = json_participants(m.participants) + t12;
    let t10 = ",\n  \"participants\": "@ + t11;
    let t9 = dec_rep(m.duration_seconds) + t10;
    let t8 = ",\n  \"duration_seconds\": "@ + t9;
    let t7 = json_opt_int(m.stopped_at) + t8;
    let t6 = ",\n  \"stopped_at\": "@ + t7;
    let t5 = dec_rep_int(m.started_at) + t6;
    let t4 = ",\n  \"started_at\": "@ + t5;
    let t3 = quoted(m.room_id) + t4;
    let t2 = ",\n  \"room_id\": "@ + t3;
    let t1 = quoted(m.id) + t2;
    let t0 = "{\n  \"id\": "@ + t1;
    assert(json_metadata(m) + rest =~= t0);
    lemma_expect("{\n  \"id\": "@, t1);
    lemma_parse_quoted_rt(m.id, t2);
    lemma_expect(",\n  \"room_id\": "@, t3);
    lemma_parse_quoted_rt(m.room_id, t4);
    lemma_expect(",\n  \"started_at\": "@, t5);
    reveal_strlit(",\n  \"stopped_at\": ");
    assert(t6[0] == ',');
    assert(!is_digit(','));
    lemma_parse_int_round_trip(m.started_at, t6);
    lemma_expect(",\n  \"stopped_at\": "@, t7);
    reveal_strlit(",\n  \"duration_seconds\": ");
    assert(t8[0] == ',');
    lemma_parse_opt_int_rt(m.stopped_at, t8);
    lemma_expect(",\n  \"duration_seconds\": "@, t9);
    reveal_strlit(",\n  \"participants\": ");
    assert(t10[0] == ',');
    lemma_parse_nat_round_trip(m.duration_seconds, t10);
    lemma_expect(",\n  \"participants\": "@, t11);
    lemma_parse_participants_rt(m.participants, t12);
    lemma_expect(",\n  \"output_directory\": "@, t13);
    lemma_parse_quoted_rt(m.output_directory, t14);
    lemma_expect("\n}"@, t15);
    assert(spec_parse_metadata(t0) == Some((m, rest)));
}


// ---------------------------------------------------------------------
// The executable serializer
// ---------------------------------------------------------------------

pub open spec fn view_opt_str(o: Option<String>) -> Option<Seq<char>> {
    match o {
        Some(p) => Some(p@),
        None => None,
    }
}

pub open spec fn view_opt_i64(o: Option<i64>) -> Option<int> {
    match o {
        Some(t) => Some(t as int),
        None => None,
    }
}

fn push_quoted(out: &mut String, s: &str)
    ensures
        final(out)@ == old(out)@ + quoted(s@),
{
    out.append("\"");
    push_escaped(out, s);
    out.append("\"");
    proof {
        reveal(quoted);
        lemma_quote_lit();
        assert(out@ =~= old(out)@ + quoted(s@));
    }
}

fn push_opt_str(out: &mut String, o: &Option<String>)
    ensures
        final(out)@ == old(out)@ + json_opt_str(view_opt_str(*o)),
{
    match o {
        Some(p) => push_quoted(out, p.as_str()),
        None => out.append("null"),
    }
}

fn push_opt_i64(out: &mut String, o: &Option<i64>)
    ensures
        final(out)@ == old(out)@ + json_opt_int(view_opt_i64(*o)),
{
    match o {
        Some(t) => push_dec_i64(out, *t),
        None => out.append("null"),
    }
}

#[verifier::spinoff_prover]
#[verifier::rlimit(100)]
fn push_participant(out: &mut String, p: &ParticipantMetadata)
    ensures
        final(out)@ == old(out)@ + json_participant(p.model()),
{
    push_quoted(out, p.id.as_str());
    out.append(": {\n      \"id\": ");
    push_quoted(out, p.id.as_str());
    out.append(",\n      \"name\": ");
    push_quoted(out, p.name.as_str());
    out.append(",\n      \"audio_file\": ");
    push_opt_str(out, &p.audio_file);
    out.append(",\n      \"video_file\": ");
    push_opt_str(out, &p.video_file);
    out.append(",\n      \"joined_at\": ");
    push_dec_i64(out, p.joined_at);
    out.append(",\n      \"left_at\": ");
    push_opt_i64(out, &p.left_at);
    out.append("\n    }");
    proof {
        assert(out@ =~= old(out)@ + json_participant(p.model()));
    }
}

proof fn lemma_json_entries_snoc(ps: Seq<PartModel>, p: PartModel)
    ensures
        ps.len() == 0 ==> json_entries(ps.push(p)) == json_participant(p),
        ps.len() > 0 ==> json_entries(ps.push(p)) == json_entries(ps) + ",\n    "@
            + json_participant(p),
    decreases ps.len(),
{
    if ps.len() == 0 {
        assert(ps.push(p)[0] == p);
        assert(json_entries(ps.push(p)) == json_participant(p));
    } else if ps.len() == 1 {
        assert(ps.push(p)[0] == ps[0]);
        assert(ps.push(p).drop_first() =~= ps.drop_first().push(p));
        lemma_json_entries_snoc(ps.drop_first(), p);
        assert(json_entries(ps.drop_first().push(p)) == json_participant(p));
        assert(json_entries(ps.push(p)) =~= json_entries(ps) + ",\n    "@ + json_participant(p));
    } else {
        assert(ps.push(p)[0] == ps[0]);
        assert(ps.push(p).drop_first() =~= ps.drop_first().push(p));
        lemma_json_entries_snoc(ps.drop_first(), p);
        assert(json_entries(ps.push(p)) == json_participant(ps[0]) + ",\n    "@ + json_entries(
            ps.drop_first().push(p),
        ));
        assert(json_entries(ps.push(p)) =~= json_entries(ps) + ",\n    "@ + json_participant(p));
    }
}

fn push_participants(out: &mut String, ps: &Vec<ParticipantMetadata>)
    ensures
        final(out)@ == old(out)@ + json_participants(
            ps@.map_values(|p: ParticipantMetadata| p.model()),
        ),
{
    let ghost models = ps@.map_values(|p: ParticipantMetadata| p.model());
    out.append("{");
    if ps.len() == 0 {
        out.append("}");
        proof {
            assert(out@ =~= old(out)@ + json_participants(models));
        }
        return ;
    }
    out.append("\n    ");
    let ghost base = out@;
    let mut i: usize = 0;
    while i < ps.len()
        invariant
            0 < i <= ps.len() || i == 0,
            models == ps@.map_values(|p: ParticipantMetadata| p.model()),
            models.len() == ps@.len(),
            out@ == base + json_entries(models.take(i as int)),
        decreases ps.len() - i,
    {
        if i > 0 {
            out.append(",\n    ");
        }
        let ghost before = out@;
        push_participant(out, &ps[i]);
        proof {
            assert(models.take((i + 1) as int) =~= models.take(i as int).push(models[i as int]));
            assert(models[i as int] == ps@[i as int].model());
            lemma_json_entries_snoc(models.take(i as int), models[i as int]);
            if i == 0 {
                assert(models.take(0int) =~= Seq::<PartModel>::empty());
                assert(json_entries(models.take(0int)) =~= Seq::<char>::empty());
                assert(out@ =~= base + json_entries(models.take((i + 1) as int)));
            } else {
                assert(out@ =~= base + json_entries(models.take((i + 1) as int)));
            }
        }
        i += 1;
    }
    out.append("\n  }");
    proof {
        assert(models.take(ps@.len() as int) =~= models);
        assert(out@ =~= old(out)@ + json_participants(models));
    }
}

/// Serializes session metadata to its canonical pretty-printed JSON
/// document.
pub fn metadata_to_json(m: &RecordingMetadata) -> (r: String)
    ensures
        r@ == json_metadata(m.model()),
{
    let mut out = String::new();
    out.append("{\n  \"id\": ");
    push_quoted(&mut out, m.id.as_str());
    out.append(",\n  \"room_id\": ");
    push_quoted(&mut out, m.room_id.as_str());
    out.append(",\n  \"started_at\": ");
    push_dec_i64(&mut out, m.started_at);
    out.append(",\n  \"stopped_at\": ");
    push_opt_i64(&mut out, &m.stopped_at);
    out.append(",\n  \"duration_seconds\": ");
    push_dec_u64(&mut out, m.duration_seconds);
    out.append(",\n  \"participants\": ");
    push_participants(&mut out, &m.participants);
    out.append(",\n  \"output_directory\": ");
    push_quoted(&mut out, m.output_directory.as_str());
    out.append("\n}");
    proof {
        assert(out@ =~= json_metadata(m.model()));
    }
    out
}


// ---------------------------------------------------------------------
// Executable decimal parsing
// ---------------------------------------------------------------------

/// `s` is the decimal form of the value `v`.
pub open spec fn is_dec_u64(s: Seq<char>, v: u64) -> bool {
    &&& s.len() > 0
    &&& forall|i: int| 0 <= i < s.len() ==> is_digit(#[trigger] s[i])
    &&& digits_val(s) == v
}

/// `s` is the decimal form of the value `v`, with an optional minus sign.
pub open spec fn is_dec_i64(s: Seq<char>, v: i64) -> bool {
    &&& s.len() > 0
    &&& if s[0] == '-' {
        &&& s.len() > 1
        &&& (forall|i: int| 1 <= i < s.len() ==> is_digit(#[trigger] s[i]))
        &&& v as int == -(digits_val(s.skip(1)) as int)
    } else {
        &&& (forall|i: int| 0 <= i < s.len() ==> is_digit(#[trigger] s[i]))
        &&& v as int == digits_val(s) as int
    }
}

proof fn lemma_digits_val_stays_large(s: Seq<char>, i: int)
    requires
        0 <= i <= s.len(),
        digits_val(s.take(i)) > u64::MAX,
    ensures
        digits_val(s) > u64::MAX,
    decreases s.len() - i,
{
    if i == s.len() {
        assert(s.take(i) =~= s);
    } else {
        let t1 = s.take(i + 1);
        assert(t1.drop_last() =~= s.take(i));
        assert(t1.last() == s[i]);
        assert(digit_val(s[i]) >= -48) by {
            assert(s[i] as u32 >= 0);
        }
        assert(digits_val(t1) == digits_val(s.take(i)) * 10 + digit_val(t1.last()) as nat);
        assert(digits_val(t1) > u64::MAX);
        lemma_digits_val_stays_large(s, i + 1);
    }
}

/// Parses a whole string as a decimal `u64`; `None` exactly when the
/// string is not the decimal form of any `u64` value.
pub fn parse_u64(s: &str) -> (r: Option<u64>)
    ensures
        r matches Some(v) ==> is_dec_u64(s@, v),
        r is None ==> forall|v: u64| !is_dec_u64(s@, v),
{
    let n = s.unicode_len();
    if n == 0 {
        return None;
    }
    let mut acc: u64 = 0;
    let mut i: usize = 0;
    while i < n
        invariant
            0 < n == s@.len(),
            i <= n,
            forall|j: int| 0 <= j < i ==> is_digit(#[trigger] s@[j]),
            acc as nat == digits_val(s@.take(i as int)),
        decreases n - i,
    {
        let c = s.get_char(i);
        let u = c as u32;
        if u < 48 || u > 57 {
            proof {
                assert(!is_digit(s@[i as int]));
            }
            return None;
        }
        let d = (u - 48) as u64;
        let ghost t1 = s@.take((i + 1) as int);
        proof {
            assert(t1.drop_last() =~= s@.take(i as int));
            assert(t1.last() == s@[i as int]);
            assert(digit_val(s@[i as int]) == d);
            assert(digits_val(t1) == digits_val(s@.take(i as int)) * 10 + d);
        }
        if acc > (u64::MAX - d) / 10 {
            proof {
                assert((u64::MAX - d) / 10 * 10 + 9 >= u64::MAX - d || (u64::MAX - d) / 10 * 10
                    >= u64::MAX - d - 9);
                assert(acc as nat * 10 + d > u64::MAX) by {
                    assert(acc >= (u64::MAX - d) / 10 + 1);
                    assert(acc as nat * 10 >= ((u64::MAX - d) / 10 + 1) * 10);
                    assert(((u64::MAX - d) / 10) * 10 >= u64::MAX - d - 9);
                }
                assert(digits_val(t1) > u64::MAX);
                lemma_digits_val_stays_large(s@, i + 1 as int);
            }
            return None;
        }
        proof {
            assert(acc * 10 + d <= u64::MAX) by {
                assert(acc <= (u64::MAX - d) / 10);
                assert(acc as nat * 10 <= ((u64::MAX - d) / 10) * 10);
                assert(((u64::MAX - d) / 10) * 10 <= u64::MAX - d);
            }
        }
        acc = acc * 10 + d;
        i += 1;
    }
    proof {
        assert(s@.take(n as int) =~= s@);
    }
    Some(acc)
}

/// Parses a whole string as a decimal `i64` with an optional minus sign;
/// `None` exactly when the string is not the decimal form of any `i64`
/// value.
pub fn parse_i64(s: &str) -> (r: Option<i64>)
    ensures
        r matches Some(v) ==> is_dec_i64(s@, v),
        r is None ==> forall|v: i64| !is_dec_i64(s@, v),
{
    let n = s.unicode_len();
    if n == 0 {
        return None;
    }
    let c0 = s.get_char(0);
    if c0 == '-' {
        let body = s.substring_char(1, n);
        proof {
            assert(body@ =~= s@.skip(1));
        }
        let v = match parse_u64(body) {
            Some(v) => v,
            None => {
                proof {
                    assert forall|w: i64| !is_dec_i64(s@, w) by {
                        if is_dec_i64(s@, w) {
                            let mag = digits_val(s@.skip(1));
                            if mag <= u64::MAX {
                                assert(is_dec_u64(s@.skip(1), mag as u64));
                            }
                        }
                    }
                }
                return None;
            },
        };
        proof {
            assert(s@[0] == '-');
            assert(s@.len() > 1);
            assert forall|k: int| 1 <= k < s@.len() implies is_digit(#[trigger] s@[k]) by {
                assert(s@[k] == s@.skip(1)[k - 1]);
                assert(is_digit(s@.skip(1)[k - 1]));
            }
            assert(digits_val(s@.skip(1)) == v);
        }
        if v > 9223372036854775808u64 {
            proof {
                assert forall|w: i64| !is_dec_i64(s@, w) by {
                    if is_dec_i64(s@, w) {
                        assert(w as int == -(digits_val(s@.skip(1)) as int));
                        assert(digits_val(s@.skip(1)) == v);
                    }
                }
            }
            return None;
        }
        if v == 9223372036854775808u64 {
            return Some(i64::MIN);
        }
        Some(-(v as i64))
    } else {
        let v = match parse_u64(s) {
            Some(v) => v,
            None => {
                proof {
                    assert forall|w: i64| !is_dec_i64(s@, w) by {
                        if is_dec_i64(s@, w) {
                            assert(digits_val(s@) <= u64::MAX);
                            assert(is_dec_u64(s@, digits_val(s@) as u64));
                        }
                    }
                }
                return None;
            },
        };
        if v > i64::MAX as u64 {
            proof {
                assert forall|w: i64| !is_dec_i64(s@, w) by {
                    if is_dec_i64(s@, w) {
                        assert(w as int == digits_val(s@) as int);
                        assert(digits_val(s@) == v);
                    }
                }
            }
            return None;
        }
        Some(v as i64)
    }
}


// ---------------------------------------------------------------------
// The executable parser
// ---------------------------------------------------------------------

/// Consumes the exact literal `lit` at position `i`.
fn expect_lit(s: &str, i: usize, lit: &str) -> (r: Option<usize>)
    requires
        i <= s@.len(),
    ensures
        match expect(s@.skip(i as int), lit@) {
            Some(rest) => r matches Some(j) && i <= j <= s@.len() && s@.skip(j as int) == rest,
            None => r is None,
        },
{
    let m = lit.unicode_len();
    let n = s.unicode_len();
    if n - i < m {
        return None;
    }
    let mut k: usize = 0;
    while k < m
        invariant
            k <= m,
            m == lit@.len(),
            n == s@.len(),
            i + m <= n,
            forall|q: int| 0 <= q < k ==> s@.skip(i as int)[q] == lit@[q],
        decreases m - k,
    {
        let cs = s.get_char(i + k);
        let cl = lit.get_char(k);
        proof {
            assert(s@.skip(i as int)[k as int] == s@[(i + k) as int]);
        }
        if cs != cl {
            proof {
                if s@.skip(i as int).take(m as int) == lit@ {
                    assert(s@.skip(i as int).take(m as int)[k as int] == lit@[k as int]);
                }
            }
            return None;
        }
        k += 1;
    }
    proof {
        assert(s@.skip(i as int).take(m as int) =~= lit@);
        assert(s@.skip(i as int).skip(m as int) =~= s@.skip((i + m) as int));
    }
    Some(i + m)
}

/// Decodes a string literal body from position `i` up to and over its
/// closing quote.
fn p_string_body(s: &str, i: usize) -> (r: Option<(String, usize)>)
    requires
        i <= s@.len(),
    ensures
        match spec_parse_string_body(s@.skip(i as int)) {
            Some((content, rest)) => r matches Some((out, j)) && out@ == content && i <= j
                <= s@.len() && s@.skip(j as int) == rest,
            None => r is None,
        },
    decreases s@.len() - i,
{
    let ghost t = s@.skip(i as int);
    let n = s.unicode_len();
    if i >= n {
        return None;
    }
    let c = s.get_char(i);
    proof {
        assert(t[0] == c);
    }
    if c == '"' {
        proof {
            assert(t.drop_first() =~= s@.skip((i + 1) as int));
        }
        return Some((String::new(), i + 1));
    }
    if c == '\\' {
        if n - i < 2 {
            return None;
        }
        let e = s.get_char(i + 1);
        proof {
            assert(t[1] == e);
        }
        if e == 'u' {
            if n - i < 6 {
                return None;
            }
            let d2 = s.get_char(i + 2);
            let d3 = s.get_char(i + 3);
            let h1 = s.get_char(i + 4);
            let h2 = s.get_char(i + 5);
            proof {
                assert(t[2] == d2 && t[3] == d3 && t[4] == h1 && t[5] == h2);
            }
            let u1 = h1 as u32;
            let u2 = h2 as u32;
            let hex1 = (48 <= u1 && u1 <= 57) || (97 <= u1 && u1 <= 102);
            let hex2 = (48 <= u2 && u2 <= 57) || (97 <= u2 && u2 <= 102);
            if !(d2 == '0' && d3 == '0' && hex1 && hex2) {
                proof {
                    assert(!(t[2] == '0' && t[3] == '0' && is_hex(t[4]) && is_hex(t[5])));
                }
                return None;
            }
            let v1: u32 = if u1 <= 57 {
                u1 - 48
            } else {
                u1 - 97 + 10
            };
            let v2: u32 = if u2 <= 57 {
                u2 - 48
            } else {
                u2 - 97 + 10
            };
            let code = v1 * 16 + v2;
            let decoded = (code as u8) as char;
            proof {
                assert(v1 == hex_val(t[4]) && v2 == hex_val(t[5]));
                assert(code == hex_val(t[4]) * 16 + hex_val(t[5]));
                assert(t.skip(6) =~= s@.skip((i + 6) as int));
            }
            match p_string_body(s, i + 6) {
                Some((tail, j)) => {
                    let mut out = String::new();
                    out.push(decoded);
                    out.append(tail.as_str());
                    proof {
                        assert(out@ =~= seq![decoded] + tail@);
                    }
                    Some((out, j))
                },
                None => None,
            }
        } else if e == '"' || e == '\\' || e == 'n' || e == 'r' || e == 't' {
            let decoded = if e == '"' {
                '"'
            } else if e == '\\' {
                '\\'
            } else if e == 'n' {
                '\n'
            } else if e == 'r' {
                '\r'
            } else {
                '\t'
            };
            proof {
                assert(t.skip(2) =~= s@.skip((i + 2) as int));
            }
            match p_string_body(s, i + 2) {
                Some((tail, j)) => {
                    let mut out = String::new();
                    out.push(decoded);
                    out.append(tail.as_str());
                    proof {
                        assert(out@ =~= seq![decoded] + tail@);
                    }
                    Some((out, j))
                },
                None => None,
            }
        } else {
            None
        }
    } else {
        proof {
            assert(t.drop_first() =~= s@.skip((i + 1) as int));
        }
        match p_string_body(s, i + 1) {
            Some((tail, j)) => {
                let mut out = String::new();
                out.push(c);
                out.append(tail.as_str());
                proof {
                    assert(out@ =~= seq![c] + tail@);
                }
                Some((out, j))
            },
            None => None,
        }
    }
}

/// Decodes a quoted string literal from position `i`.
fn p_quoted(s: &str, i: usize) -> (r: Option<(String, usize)>)
    requires
        i <= s@.len(),
    ensures
        match spec_parse_quoted(s@.skip(i as int)) {
            Some((content, rest)) => r matches Some((out, j)) && out@ == content && i <= j
                <= s@.len() && s@.skip(j as int) == rest,
            None => r is None,
        },
{
    match expect_lit(s, i, "\"") {
        Some(j) => p_string_body(s, j),
        None => None,
    }
}


proof fn lemma_num_digits_ge(t: Seq<char>, m: int)
    requires
        0 <= m <= t.len(),
        forall|k: int| 0 <= k < m ==> is_digit(#[trigger] t[k]),
    ensures
        num_digits(t) >= m,
    decreases m,
{
    if m > 0 {
        assert(is_digit(t[0]));
        assert forall|k: int| 0 <= k < m - 1 implies is_digit(#[trigger] t.drop_first()[k]) by {
            assert(t.drop_first()[k] == t[k + 1]);
        }
        lemma_num_digits_ge(t.drop_first(), m - 1);
        assert(num_digits(t) == 1 + num_digits(t.drop_first()));
    }
}

proof fn lemma_num_digits_exact(t: Seq<char>, m: int)
    requires
        0 <= m <= t.len(),
        forall|k: int| 0 <= k < m ==> is_digit(#[trigger] t[k]),
        m == t.len() || !is_digit(t[m]),
    ensures
        num_digits(t) == m,
    decreases m,
{
    if m == 0 {
    } else {
        assert(is_digit(t[0]));
        assert forall|k: int| 0 <= k < m - 1 implies is_digit(#[trigger] t.drop_first()[k]) by {
            assert(t.drop_first()[k] == t[k + 1]);
        }
        if m < t.len() {
            assert(t.drop_first()[m - 1] == t[m]);
        }
        lemma_num_digits_exact(t.drop_first(), m - 1);
    }
}

/// Whether position `j` holds a decimal digit.
fn digit_at(s: &str, j: usize, n: usize) -> (r: bool)
    requires
        n == s@.len(),
    ensures
        r == (j < s@.len() && is_digit(s@[j as int])),
{
    if j < n {
        let u = s.get_char(j) as u32;
        48 <= u && u <= 57
    } else {
        false
    }
}

/// Parses a leading decimal number from position `i`, bounded by `u64`.
fn p_nat(s: &str, i: usize) -> (r: Option<(u64, usize)>)
    requires
        i <= s@.len(),
    ensures
        match spec_parse_nat(s@.skip(i as int)) {
            Some((v, rest)) => if v <= u64::MAX {
                r matches Some((w, j)) && w == v && i <= j <= s@.len() && s@.skip(j as int) == rest
            } else {
                r is None
            },
            None => r is None,
        },
{
    let ghost t = s@.skip(i as int);
    let n = s.unicode_len();
    let mut j: usize = i;
    let mut acc: u64 = 0;
    while digit_at(s, j, n)
        invariant
            i <= j <= n,
            n == s@.len(),
            t == s@.skip(i as int),
            forall|k: int| 0 <= k < j - i ==> is_digit(#[trigger] t[k]),
            acc as nat == digits_val(t.take((j - i) as int)),
        decreases n - j,
    {
        let c = s.get_char(j);
        let d = ((c as u32) - 48) as u64;
        let ghost t1 = t.take((j + 1 - i) as int);
        proof {
            assert(t[(j - i) as int] == s@[j as int]);
            assert(is_digit(t[(j - i) as int]));
            assert(t1.drop_last() =~= t.take((j - i) as int));
            assert(t1.last() == t[(j - i) as int]);
            assert(digit_val(t1.last()) == d);
            assert(digits_val(t1) == digits_val(t.take((j - i) as int)) * 10 + d);
        }
        if acc > (u64::MAX - d) / 10 {
            proof {
                assert(acc as nat * 10 + d > u64::MAX) by {
                    assert(acc >= (u64::MAX - d) / 10 + 1);
                    assert(acc as nat * 10 >= ((u64::MAX - d) / 10 + 1) * 10);
                    assert(((u64::MAX - d) / 10) * 10 >= u64::MAX - d - 9);
                }
                assert(digits_val(t1) > u64::MAX);
                lemma_num_digits_ge(t, j + 1 - i);
                let num = num_digits(t);
                assert(num >= j + 1 - i);
                assert(num <= t.len()) by {
                    lemma_num_digits_le(t);
                }
                assert(t.take(num as int).take((j + 1 - i) as int) =~= t1);
                lemma_digits_val_stays_large(t.take(num as int), j + 1 - i);
                assert(digits_val(t.take(num as int)) > u64::MAX);
            }
            return None;
        }
        proof {
            assert(acc * 10 + d <= u64::MAX) by {
                assert(acc <= (u64::MAX - d) / 10);
                assert(acc as nat * 10 <= ((u64::MAX - d) / 10) * 10);
                assert(((u64::MAX - d) / 10) * 10 <= u64::MAX - d);
            }
        }
        acc = acc * 10 + d;
        j += 1;
    }
    if j == i {
        proof {
            if t.len() > 0 && is_digit(t[0]) {
                assert(j < s@.len() && is_digit(s@[j as int]));
            }
            assert(num_digits(t) == 0);
        }
        return None;
    }
    proof {
        lemma_num_digits_exact(t, j - i);
        assert(t.skip((j - i) as int) =~= s@.skip(j as int));
    }
    Some((acc, j))
}

proof fn lemma_num_digits_le(t: Seq<char>)
    ensures
        num_digits(t) <= t.len(),
    decreases t.len(),
{
    if t.len() > 0 && is_digit(t[0]) {
        lemma_num_digits_le(t.drop_first());
    }
}

/// Parses a leading decimal integer from position `i`, bounded by `i64`.
fn p_i64(s: &str, i: usize) -> (r: Option<(i64, usize)>)
    requires
        i <= s@.len(),
    ensures
        match spec_parse_int(s@.skip(i as int)) {
            Some((v, rest)) => if i64::MIN <= v <= i64::MAX {
                r matches Some((w, j)) && w as int == v && i <= j <= s@.len() && s@.skip(j as int)
                    == rest
            } else {
                r is None
            },
            None => r is None,
        },
{
    let ghost t = s@.skip(i as int);
    let n = s.unicode_len();
    if i < n && s.get_char(i) == '-' {
        proof {
            assert(t[0] == '-');
            assert(t.drop_first() =~= s@.skip((i + 1) as int));
        }
        match p_nat(s, i + 1) {
            Some((mag, j)) => {
                if mag > 9223372036854775808u64 {
                    return None;
                }
                if mag == 9223372036854775808u64 {
                    return Some((i64::MIN, j));
                }
                Some((-(mag as i64), j))
            },
            None => None,
        }
    } else {
        proof {
            if t.len() > 0 {
                assert(t[0] == s@[i as int]);
            }
        }
        match p_nat(s, i) {
            Some((v, j)) => {
                if v > 9223372036854775807u64 {
                    return None;
                }
                Some((v as i64, j))
            },
            None => None,
        }
    }
}

/// Parses `null` or a quoted string from position `i`.
fn p_opt_str(s: &str, i: usize) -> (r: Option<(Option<String>, usize)>)
    requires
        i <= s@.len(),
    ensures
        match spec_parse_opt_str(s@.skip(i as int)) {
            Some((v, rest)) => r matches Some((w, j)) && view_opt_str(w) == v && i <= j <= s@.len()
                && s@.skip(j as int) == rest,
            None => r is None,
        },
{
    let ghost t = s@.skip(i as int);
    let n = s.unicode_len();
    if i < n && s.get_char(i) == '"' {
        proof {
            assert(t.len() > 0 && t[0] == '"');
        }
        match p_quoted(s, i) {
            Some((v, j)) => Some((Some(v), j)),
            None => None,
        }
    } else {
        proof {
            if t.len() > 0 {
                assert(t[0] == s@[i as int]);
            }
        }
        match expect_lit(s, i, "null") {
            Some(j) => Some((None, j)),
            None => None,
        }
    }
}

/// Parses `null` or a decimal integer from position `i`, bounded by
/// `i64`.
fn p_opt_i64(s: &str, i: usize) -> (r: Option<(Option<i64>, usize)>)
    requires
        i <= s@.len(),
    ensures
        match spec_parse_opt_int(s@.skip(i as int)) {
            Some((v, rest)) => match v {
                None => r matches Some((w, j)) && w is None && i <= j <= s@.len() && s@.skip(
                    j as int,
                ) == rest,
                Some(value) => if i64::MIN <= value <= i64::MAX {
                    r matches Some((w, j)) && w matches Some(x) && x as int == value && i <= j
                        <= s@.len() && s@.skip(j as int) == rest
                } else {
                    r is None
                },
            },
            None => r is None,
        },
{
    let ghost t = s@.skip(i as int);
    let n = s.unicode_len();
    if i < n && s.get_char(i) == 'n' {
        proof {
            assert(t.len() > 0 && t[0] == 'n');
        }
        match expect_lit(s, i, "null") {
            Some(j) => Some((None, j)),
            None => None,
        }
    } else {
        proof {
            if t.len() > 0 {
                assert(t[0] == s@[i as int]);
            }
        }
        match p_i64(s, i) {
            Some((v, j)) => Some((Some(v), j)),
            None => None,
        }
    }
}


/// The entry's timestamps fit the machine integer types.
pub open spec fn part_in_range(p: PartModel) -> bool {
    &&& i64::MIN <= p.joined_at <= i64::MAX
    &&& (p.left_at matches Some(v) ==> i64::MIN <= v <= i64::MAX)
}

pub open spec fn parts_in_range(ps: Seq<PartModel>) -> bool {
    forall|k: int| 0 <= k < ps.len() ==> part_in_range(#[trigger] ps[k])
}

/// The document's numbers fit the machine integer types.
pub open spec fn meta_in_range(m: MetaModel) -> bool {
    &&& i64::MIN <= m.started_at <= i64::MAX
    &&& (m.stopped_at matches Some(v) ==> i64::MIN <= v <= i64::MAX)
    &&& m.duration_seconds <= u64::MAX
    &&& parts_in_range(m.participants)
}

/// Parses one participant entry from position `i`.
#[verifier::spinoff_prover]
#[verifier::rlimit(100)]
fn p_entry(s: &str, i: usize) -> (r: Option<(ParticipantMetadata, usize)>)
    requires
        i <= s@.len(),
    ensures
        match spec_parse_entry(s@.skip(i as int)) {
            Some((p, rest)) => if part_in_range(p) {
                r matches Some((pm, j)) && pm.model() == p && i <= j <= s@.len() && s@.skip(
                    j as int,
                ) == rest
            } else {
                r is None
            },
            None => r is None,
        },
{
    let (_key, i1) = match p_quoted(s, i) {
        Some(x) => x,
        None => {
            return None;
        },
    };
    let i2 = match expect_lit(s, i1, ": {\n      \"id\": ") {
        Some(x) => x,
        None => {
            return None;
        },
    };
    let (id, i3) = match p_quoted(s, i2) {
        Some(x) => x,
        None => {
            return None;
        },
    };
    let i4 = match expect_lit(s, i3, ",\n      \"name\": ") {
        Some(x) => x,
        None => {
            return None;
        },
    };
    let (name, i5) = match p_quoted(s, i4) {
        Some(x) => x,
        None => {
            return None;
        },
    };
    let i6 = match expect_lit(s, i5, ",\n      \"audio_file\": ") {
        Some(x) => x,
        None => {
            return None;
        },
    };
    let (audio_file, i7) = match p_opt_str(s, i6) {
        Some(x) => x,
        None => {
            return None;
        },
    };
    let i8 = match expect_lit(s, i7, ",\n      \"video_file\": ") {
        Some(x) => x,
        None => {
            return None;
        },
    };
    let (video_file, i9) = match p_opt_str(s, i8) {
        Some(x) => x,
        None => {
            return None;
        },
    };
    let i10 = match expect_lit(s, i9, ",\n      \"joined_at\": ") {
        Some(x) => x,
        None => {
            return None;
        },
    };
    let (joined_at, i11) = match p_i64(s, i10) {
        Some(x) => x,
        None => {
            return None;
        },
    };
    let i12 = match expect_lit(s, i11, ",\n      \"left_at\": ") {
        Some(x) => x,
        None => {
            return None;
        },
    };
    let (left_at, i13) = match p_opt_i64(s, i12) {
        Some(x) => x,
        None => {
            return None;
        },
    };
    let i14 = match expect_lit(s, i13, "\n    }") {
        Some(x) => x,
        None => {
            return None;
        },
    };
    Some((ParticipantMetadata { id, name, audio_file, video_file, joined_at, left_at }, i14))
}

/// Parses a non-empty run of entries from position `i`, stopping before
/// the closing of the participants object.
#[verifier::spinoff_prover]
#[verifier::rlimit(100)]
fn p_entries(s: &str, i: usize) -> (r: Option<(Vec<ParticipantMetadata>, usize)>)
    requires
        i <= s@.len(),
    ensures
        match spec_parse_entries(s@.skip(i as int)) {
            Some((ps, rest)) => if parts_in_range(ps) {
                r matches Some((v, j)) && v@.map_values(|p: ParticipantMetadata| p.model()) == ps
                    && i <= j <= s@.len() && s@.skip(j as int) == rest
            } else {
                r is None
            },
            None => r is None,
        },
    decreases s@.len() - i,
{
    let ghost t = s@.skip(i as int);
    let (pm, j) = match p_entry(s, i) {
        Some(x) => x,
        None => {
            proof {
                if spec_parse_entry(t) is Some {
                    let (p, rest) = spec_parse_entry(t)->Some_0;
                    assert(!part_in_range(p));
                    if spec_parse_entries(t) is Some {
                        let (ps, rest2) = spec_parse_entries(t)->Some_0;
                        assert(ps[0] == p);
                        assert(!parts_in_range(ps));
                    }
                }
            }
            return None;
        },
    };
    proof {
        assert(spec_parse_entry(t) is Some);
    }
    if j == i {
        proof {
            let (p, rest) = spec_parse_entry(t)->Some_0;
            assert(rest.len() == t.len());
        }
        return None;
    }
    let n = s.unicode_len();
    let has_comma = j < n && s.get_char(j) == ',';
    proof {
        let rest = spec_parse_entry(t)->Some_0.1;
        assert(rest.len() == s@.len() - j);
        if j < s@.len() {
            assert(rest[0] == s@[j as int]);
        }
        assert(has_comma == (rest.len() > 0 && rest[0] == ','));
    }
    if !has_comma {
        let mut v: Vec<ParticipantMetadata> = Vec::new();
        v.push(pm);
        proof {
            let p = spec_parse_entry(t)->Some_0.0;
            assert(v@.map_values(|q: ParticipantMetadata| q.model()) =~= seq![p]);
        }
        return Some((v, j));
    }
    let j2 = match expect_lit(s, j, ",\n    ") {
        Some(x) => x,
        None => {
            proof {
                reveal_strlit(",\n    ");
                let rest = spec_parse_entry(t)->Some_0.1;
                if rest.len() >= 6 && rest.take(6) == ",\n    "@ {
                    assert(expect(rest, ",\n    "@) is Some);
                }
            }
            return None;
        },
    };
    proof {
        reveal_strlit(",\n    ");
        let rest = spec_parse_entry(t)->Some_0.1;
        assert(rest.len() >= 6 && rest.take(6) == ",\n    "@);
        assert(expect(rest, ",\n    "@) matches Some(r2) && r2 == rest.skip(6));
        assert(s@.skip(j2 as int) == rest.skip(6));
    }
    match p_entries(s, j2) {
        Some((mut v, j3)) => {
            v.insert(0, pm);
            proof {
                let p = spec_parse_entry(t)->Some_0.0;
                let tailps = spec_parse_entries(s@.skip(j2 as int))->Some_0.0;
                assert(v@.map_values(|q: ParticipantMetadata| q.model()) =~= seq![p] + tailps);
            }
            Some((v, j3))
        },
        None => {
            proof {
                let p = spec_parse_entry(t)->Some_0.0;
                if spec_parse_entries(s@.skip(j2 as int)) is Some {
                    let (tailps, r3) = spec_parse_entries(s@.skip(j2 as int))->Some_0;
                    assert(!parts_in_range(tailps));
                    if spec_parse_entries(t) is Some {
                        let (ps, r4) = spec_parse_entries(t)->Some_0;
                        assert(ps =~= seq![p] + tailps);
                        let bad = choose|k: int|
                            0 <= k < tailps.len() && !part_in_range(#[trigger] tailps[k]);
                        assert(!part_in_range(tailps[bad]));
                        assert(ps[bad + 1] == tailps[bad]);
                        assert(!parts_in_range(ps));
                    }
                }
            }
            None
        },
    }
}


/// Parses the participants object from position `i`.
#[verifier::spinoff_prover]
#[verifier::rlimit(100)]
fn p_participants(s: &str, i: usize) -> (r: Option<(Vec<ParticipantMetadata>, usize)>)
    requires
        i <= s@.len(),
    ensures
        match spec_parse_participants(s@.skip(i as int)) {
            Some((ps, rest)) => if parts_in_range(ps) {
                r matches Some((v, j)) && v@.map_values(|p: ParticipantMetadata| p.model()) == ps
                    && i <= j <= s@.len() && s@.skip(j as int) == rest
            } else {
                r is None
            },
            None => r is None,
        },
{
    let ghost t = s@.skip(i as int);
    let i1 = match expect_lit(s, i, "{") {
        Some(x) => x,
        None => {
            return None;
        },
    };
    let ghost r1 = expect(t, "{"@)->Some_0;
    let n = s.unicode_len();
    let is_close = i1 < n && s.get_char(i1) == '}';
    proof {
        assert(r1.len() == s@.len() - i1);
        if i1 < s@.len() {
            assert(r1[0] == s@[i1 as int]);
        }
        assert(is_close == (r1.len() > 0 && r1[0] == '}'));
    }
    if is_close {
        match expect_lit(s, i1, "}") {
            Some(j) => {
                let v: Vec<ParticipantMetadata> = Vec::new();
                proof {
                    assert(v@.map_values(|p: ParticipantMetadata| p.model())
                        =~= Seq::<PartModel>::empty());
                }
                Some((v, j))
            },
            None => None,
        }
    } else {
        let i2 = match expect_lit(s, i1, "\n    ") {
            Some(x) => x,
            None => {
                return None;
            },
        };
        let (v, i3) = match p_entries(s, i2) {
            Some(x) => x,
            None => {
                return None;
            },
        };
        match expect_lit(s, i3, "\n  }") {
            Some(j) => Some((v, j)),
            None => None,
        }
    }
}

/// Parses a whole canonical metadata document. Returns the metadata
/// exactly when the text is a canonical document, with nothing after it,
/// whose numbers fit the machine integer types.
#[verifier::spinoff_prover]
#[verifier::rlimit(100)]
pub fn parse_metadata(s: &str) -> (r: Option<RecordingMetadata>)
    ensures
        r matches Some(m) ==> (spec_parse_metadata(s@) matches Some((mm, rest)) && rest.len() == 0
            && m.model() == mm),
        r is None ==> !(spec_parse_metadata(s@) matches Some((mm, rest)) && rest.len() == 0
            && meta_in_range(mm)),
{
    proof {
        assert(s@.skip(0) =~= s@);
    }
    let i1 = match expect_lit(s, 0, "{\n  \"id\": ") {
        Some(x) => x,
        None => {
            return None;
        },
    };
    let (id, i2) = match p_quoted(s, i1) {
        Some(x) => x,
        None => {
            return None;
        },
    };
    let i3 = match expect_lit(s, i2, ",\n  \"room_id\": ") {
        Some(x) => x,
        None => {
            return None;
        },
    };
    let (room_id, i4) = match p_quoted(s, i3) {
        Some(x) => x,
        None => {
            return None;
        },
    };
    let i5 = match expect_lit(s, i4, ",\n  \"started_at\": ") {
        Some(x) => x,
        None => {
            return None;
        },
    };
    let (started_at, i6) = match p_i64(s, i5) {
        Some(x) => x,
        None => {
            return None;
        },
    };
    let i7 = match expect_lit(s, i6, ",\n  \"stopped_at\": ") {
        Some(x) => x,
        None => {
            return None;
        },
    };
    let (stopped_at, i8) = match p_opt_i64(s, i7) {
        Some(x) => x,
        None => {
            return None;
        },
    };
    let i9 = match expect_lit(s, i8, ",\n  \"duration_seconds\": ") {
        Some(x) => x,
        None => {
            return None;
        },
    };
    let (duration_seconds, i10) = match p_nat(s, i9) {
        Some(x) => x,
        None => {
            return None;
        },
    };
    let i11 = match expect_lit(s, i10, ",\n  \"participants\": ") {
        Some(x) => x,
        None => {
            return None;
        },
    };
    let (participants, i12) = match p_participants(s, i11) {
        Some(x) => x,
        None => {
            return None;
        },
    };
    let i13 = match expect_lit(s, i12, ",\n  \"output_directory\": ") {
        Some(x) => x,
        None => {
            return None;
        },
    };
    let (output_directory, i14) = match p_quoted(s, i13) {
        Some(x) => x,
        None => {
            return None;
        },
    };
    let i15 = match expect_lit(s, i14, "\n}") {
        Some(x) => x,
        None => {
            return None;
        },
    };
    if i15 != s.unicode_len() {
        return None;
    }
    Some(
        RecordingMetadata {
            id,
            room_id,
            started_at,
            stopped_at,
            duration_seconds,
            participants,
            output_directory,
        },
    )
}


} // verus!
