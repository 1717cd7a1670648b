//! The storage format of the note collection, with a verified encoder and
//! decoder.
//!
//! A note list is stored as a compact JSON array of records, one per note,
//! with the fields `title`, `state`, `category`, `created_at` and
//! `updated_at`. Strings escape the quote and the backslash as `"` and
//! `\`, newline, carriage return and tab as `\n`, `\r` and `\t`, and any
//! other control character as `\u00` plus two lowercase hex digits; every
//! other character stands for itself. The decoder accepts exactly this
//! canonical form; on any other input it yields the empty collection, so a
//! missing, empty or corrupt file degrades to an empty note list instead of
//! an error.

use vstd::prelude::*;

use crate::note::{spec_label, Note, NoteView, State};
use crate::text::{chars_of, push_char, string_of};

verus! {

/// The sequence of views of a sequence of notes.
pub open spec fn notes_view(s: Seq<Note>) -> Seq<NoteView> {
    s.map_values(|n: Note| n@)
}

/// The lowercase hex digit with value `d`.
pub open spec fn hex_digit(d: int) -> char {
    if d == 0 { '0' }
    else if d == 1 { '1' }
    else if d == 2 { '2' }
    else if d == 3 { '3' }
    else if d == 4 { '4' }
    else if d == 5 { '5' }
    else if d == 6 { '6' }
    else if d == 7 { '7' }
    else if d == 8 { '8' }
    else if d == 9 { '9' }
    else if d == 10 { 'a' }
    else if d == 11 { 'b' }
    else if d == 12 { 'c' }
    else if d == 13 { 'd' }
    else if d == 14 { 'e' }
    else { 'f' }
}

/// The value of a lowercase hex digit, or 16 for any other character.
pub open spec fn digit_val(c: char) -> int {
    if c == '0' { 0 }
    else if c == '1' { 1 }
    else if c == '2' { 2 }
    else if c == '3' { 3 }
    else if c == '4' { 4 }
    else if c == '5' { 5 }
    else if c == '6' { 6 }
    else if c == '7' { 7 }
    else if c == '8' { 8 }
    else if c == '9' { 9 }
    else if c == 'a' { 10 }
    else if c == 'b' { 11 }
    else if c == 'c' { 12 }
    else if c == 'd' { 13 }
    else if c == 'e' { 14 }
    else if c == 'f' { 15 }
    else { 16 }
}

/// The escape sequence that stands for `c` inside a stored string.
pub open spec fn esc_char(c: char) -> Seq<char> {
    if c == '"' { seq!['\\', 'u', '0', '0', '2', '2'] }
    else if c == '\\' { seq!['\\', 'u', '0', '0', '5', 'c'] }
    else if c == '\n' { seq!['\\', 'n'] }
    else if c == '\r' { seq!['\\', 'r'] }
    else if c == '\t' { seq!['\\', 't'] }
    else if (c as u32) < 0x20 {
        seq!['\\', 'u', '0', '0', hex_digit((c as int) / 16), hex_digit((c as int) % 16)]
    } else {
        seq![c]
    }
}

/// The escaped form of a whole string.
pub open spec fn esc_str(t: Seq<char>) -> Seq<char>
    decreases t.len(),
{
    if t.len() == 0 {
        Seq::empty()
    } else {
        esc_char(t[0]) + esc_str(t.skip(1))
    }
}

/// The stored form of a string: its escaped characters between quotes.
pub open spec fn enc_string(t: Seq<char>) -> Seq<char> {
    seq!['"'] + esc_str(t) + seq!['"']
}

/// The stored form of one note record.
pub open spec fn enc_note(n: NoteView) -> Seq<char> {
    "{\"title\":"@ + enc_string(n.title)
        + ",\"state\":"@ + enc_string(spec_label(n.state))
        + ",\"category\":"@ + enc_string(n.category)
        + ",\"created_at\":"@ + enc_string(n.created_at)
        + ",\"updated_at\":"@ + enc_string(n.updated_at)
        + "}"@
}

/// The stored form of one or more note records, separated by commas.
pub open spec fn enc_items(ns: Seq<NoteView>) -> Seq<char>
    decreases ns.len(),
{
    if ns.len() <= 1 {
        if ns.len() == 0 { Seq::empty() } else { enc_note(ns[0]) }
    } else {
        enc_note(ns[0]) + seq![','] + enc_items(ns.skip(1))
    }
}

/// The stored form of a whole note collection.
pub open spec fn spec_encode(ns: Seq<NoteView>) -> Seq<char> {
    seq!['['] + enc_items(ns) + seq![']']
}

// ---------------------------------------------------------------------------
// The parse of the canonical form, defined from the front of the input.
// ---------------------------------------------------------------------------

/// Prepend a character to the value of a successful string parse.
pub open spec fn sp_cons(c: char, r: Option<(Seq<char>, Seq<char>)>) -> Option<
    (Seq<char>, Seq<char>),
> {
    match r {
        Some((t, rem)) => Some((seq![c] + t, rem)),
        Option::None => Option::None,
    }
}

/// Parse escaped string content up to and including its closing quote,
/// yielding the decoded text and the remainder of the input.
pub open spec fn sp_content(s: Seq<char>) -> Option<(Seq<char>, Seq<char>)>
    decreases s.len(),
{
    if s.len() == 0 {
        Option::None
    } else if s[0] == '"' {
        Some((Seq::empty(), s.skip(1)))
    } else if s[0] == '\\' {
        if s.len() < 2 {
            Option::None
        } else if s[1] == 'n' {
            sp_cons('\n', sp_content(s.skip(2)))
        } else if s[1] == 'r' {
            sp_cons('\r', sp_content(s.skip(2)))
        } else if s[1] == 't' {
            sp_cons('\t', sp_content(s.skip(2)))
        } else if s[1] == 'u' {
            if s.len() < 6 {
                Option::None
            } else if s[2] == '0' && s[3] == '0' && digit_val(s[4]) < 16 && digit_val(s[5]) < 16 {
                let v = 16 * digit_val(s[4]) + digit_val(s[5]);
                if v == 0x22 || v == 0x5c || (v < 0x20 && v != 0x0a && v != 0x0d && v != 0x09) {
                    sp_cons(v as char, sp_content(s.skip(6)))
                } else {
                    Option::None
                }
            } else {
                Option::None
            }
        } else {
            Option::None
        }
    } else if (s[0] as u32) >= 0x20 {
        sp_cons(s[0], sp_content(s.skip(1)))
    } else {
        Option::None
    }
}

/// Parse a quoted string, yielding the decoded text and the remainder.
pub open spec fn sp_string(s: Seq<char>) -> Option<(Seq<char>, Seq<char>)> {
    if s.len() >= 1 && s[0] == '"' {
        sp_content(s.skip(1))
    } else {
        Option::None
    }
}

/// Strip an expected literal prefix from the input.
pub open spec fn strip(s: Seq<char>, p: Seq<char>) -> Option<Seq<char>> {
    if p.len() <= s.len() && s.take(p.len() as int) == p {
        Some(s.skip(p.len() as int))
    } else {
        Option::None
    }
}

/// The state whose text tag is `t`, if any.
pub open spec fn spec_state_of(t: Seq<char>) -> Option<State> {
    if t == spec_label(State::Unset) { Some(State::Unset) }
    else if t == spec_label(State::Todo) { Some(State::Todo) }
    else if t == spec_label(State::InProgress) { Some(State::InProgress) }
    else if t == spec_label(State::Done) { Some(State::Done) }
    else if t == spec_label(State::Expired) { Some(State::Expired) }
    else { Option::None }
}

/// Parse one note record, yielding its value and the remainder.
pub open spec fn sp_note(s: Seq<char>) -> Option<(NoteView, Seq<char>)> {
    match strip(s, "{\"title\":"@) {
        Some(s1) => match sp_string(s1) {
            Some((title, s2)) => match strip(s2, ",\"state\":"@) {
                Some(s3) => match sp_string(s3) {
                    Some((tag, s4)) => match spec_state_of(tag) {
                        Some(st) => match strip(s4, ",\"category\":"@) {
                            Some(s5) => match sp_string(s5) {
                                Some((category, s6)) => match strip(s6, ",\"created_at\":"@) {
                                    Some(s7) => match sp_string(s7) {
                                        Some((created, s8)) => match strip(s8, ",\"updated_at\":"@) {
                                            Some(s9) => match sp_string(s9) {
                                                Some((updated, s10)) => match strip(s10, "}"@) {
                                                    Some(s11) => Some(
                                                        (
                                                            NoteView {
                                                                title,
                                                                state: st,
                                                                category,
                                                                created_at: created,
                                                                updated_at: updated,
                                                            },
                                                            s11,
                                                        ),
                                                    ),
                                                    Option::None => Option::None,
                                                },
                                                Option::None => Option::None,
                                            },
                                            Option::None => Option::None,
                                        },
                                        Option::None => Option::None,
                                    },
                                    Option::None => Option::None,
                                },
                                Option::None => Option::None,
                            },
                            Option::None => Option::None,
                        },
                        Option::None => Option::None,
                    },
                    Option::None => Option::None,
                },
                Option::None => Option::None,
            },
            Option::None => Option::None,
        },
        Option::None => Option::None,
    }
}

/// Parse one or more comma-separated note records followed by the closing
/// bracket, consuming the bracket.
pub open spec fn sp_items(s: Seq<char>) -> Option<(Seq<NoteView>, Seq<char>)>
    decreases s.len(),
{
    match sp_note(s) {
        Some((nv, rem)) => {
            if rem.len() >= 1 && rem[0] == ',' {
                if rem.skip(1).len() < s.len() {
                    match sp_items(rem.skip(1)) {
                        Some((ns, rem2)) => Some((seq![nv] + ns, rem2)),
                        Option::None => Option::None,
                    }
                } else {
                    Option::None
                }
            } else if rem.len() >= 1 && rem[0] == ']' {
                Some((seq![nv], rem.skip(1)))
            } else {
                Option::None
            }
        },
        Option::None => Option::None,
    }
}

/// The note collection stored in `s`: the canonical parse of `s`, or the
/// empty collection if `s` is not the canonical encoding of any collection.
pub open spec fn spec_decode(s: Seq<char>) -> Seq<NoteView> {
    if s.len() == 2 && s[0] == '[' && s[1] == ']' {
        Seq::empty()
    } else if s.len() >= 1 && s[0] == '[' {
        match sp_items(s.skip(1)) {
            Some((ns, rem)) => if rem.len() == 0 { ns } else { Seq::empty() },
            Option::None => Seq::empty(),
        }
    } else {
        Seq::empty()
    }
}

// ---------------------------------------------------------------------------
// The parse inverts the encoding.
// ---------------------------------------------------------------------------

/// Every character value lies in the Unicode scalar range.
proof fn lemma_char_val(c: char)
    ensures
        0 <= c as int <= 0x10FFFF,
        (c as u32) as int == c as int,
{
}

/// A hex digit made from a value decodes back to that value.
proof fn lemma_hex_rt(d: int)
    requires
        0 <= d < 16,
    ensures
        digit_val(hex_digit(d)) == d,
{
}

/// Parsing escaped content inverts escaping, whatever input follows the
/// closing quote.
#[verifier::rlimit(100)]
proof fn lemma_content_rt(t: Seq<char>, rest: Seq<char>)
    ensures
        sp_content(esc_str(t) + seq!['"'] + rest) == Some((t, rest)),
    decreases t.len(),
{
    let s = esc_str(t) + seq!['"'] + rest;
    if t.len() == 0 {
        assert(s =~= seq!['"'] + rest);
        assert(s[0] == '"');
        assert(s.skip(1) =~= rest);
    } else {
        let c = t[0];
        let e = esc_char(c);
        let s2 = esc_str(t.skip(1)) + seq!['"'] + rest;
        assert(esc_str(t) == e + esc_str(t.skip(1)));
        assert(s =~= e + s2);
        lemma_content_rt(t.skip(1), rest);
        assert(sp_content(s2) == Some((t.skip(1), rest)));
        if c == '"' {
            assert(s[0] == '\\' && s[1] == 'u' && s[2] == '0' && s[3] == '0' && s[4] == '2'
                && s[5] == '2');
            assert(16 * digit_val(s[4]) + digit_val(s[5]) == 0x22);
            assert((0x22 as char) == '"');
            assert(s.skip(6) =~= s2);
            assert(seq![c] + t.skip(1) =~= t);
        } else if c == '\\' {
            assert(s[0] == '\\' && s[1] == 'u' && s[2] == '0' && s[3] == '0' && s[4] == '5'
                && s[5] == 'c');
            assert(16 * digit_val(s[4]) + digit_val(s[5]) == 0x5c);
            assert((0x5c as char) == '\\');
            assert(s.skip(6) =~= s2);
            assert(seq![c] + t.skip(1) =~= t);
        } else if c == '\n' {
            assert(s[0] == '\\' && s[1] == 'n');
            assert(s.skip(2) =~= s2);
            assert(seq![c] + t.skip(1) =~= t);
        } else if c == '\r' {
            assert(s[0] == '\\' && s[1] == 'r');
            assert(s.skip(2) =~= s2);
            assert(seq![c] + t.skip(1) =~= t);
        } else if c == '\t' {
            assert(s[0] == '\\' && s[1] == 't');
            assert(s.skip(2) =~= s2);
            assert(seq![c] + t.skip(1) =~= t);
        } else if (c as u32) < 0x20 {
            lemma_char_val(c);
            let ci = c as int;
            let hi = ci / 16;
            let lo = ci % 16;
            assert(0 <= ci < 0x20);
            assert(0 <= hi < 16 && 0 <= lo < 16 && 16 * hi + lo == ci) by (nonlinear_arith)
                requires
                    0 <= ci < 0x20,
                    hi == ci / 16,
                    lo == ci % 16,
            ;
            assert(s[0] == '\\' && s[1] == 'u' && s[2] == '0' && s[3] == '0');
            assert(s[4] == hex_digit(hi) && s[5] == hex_digit(lo));
            lemma_hex_rt(hi);
            lemma_hex_rt(lo);
            let v = 16 * digit_val(s[4]) + digit_val(s[5]);
            assert(v == c as int);
            assert(v < 0x20 && v != 0x0a && v != 0x0d && v != 0x09);
            assert((v as char) == c);
            assert(s.skip(6) =~= s2);
            assert(seq![c] + t.skip(1) =~= t);
        } else {
            assert(s[0] == c);
            assert(c != '"' && c != '\\' && (c as u32) >= 0x20);
            assert(s.skip(1) =~= s2);
            assert(seq![c] + t.skip(1) =~= t);
        }
    }
}

/// Parsing a quoted string inverts the string encoding.
proof fn lemma_string_rt(t: Seq<char>, rest: Seq<char>)
    ensures
        sp_string(enc_string(t) + rest) == Some((t, rest)),
{
    let s = enc_string(t) + rest;
    assert(s[0] == '"');
    assert(s.skip(1) =~= esc_str(t) + seq!['"'] + rest);
    lemma_content_rt(t, rest);
}

/// Stripping a literal prefix from itself leaves the remainder.
proof fn lemma_strip_rt(p: Seq<char>, rest: Seq<char>)
    ensures
        strip(p + rest, p) == Some(rest),
{
    assert((p + rest).take(p.len() as int) =~= p);
    assert((p + rest).skip(p.len() as int) =~= rest);
}

/// The five state tags are pairwise distinct, so the tag of a state maps
/// back to that state.
proof fn lemma_state_of_label(st: State)
    ensures
        spec_state_of(spec_label(st)) == Some(st),
{
    reveal_strlit("");
    reveal_strlit("Todo");
    reveal_strlit("In progress");
    reveal_strlit("Done");
    reveal_strlit("Expired");
    assert(spec_label(State::Unset).len() == 0);
    assert(spec_label(State::Todo).len() == 4);
    assert(spec_label(State::InProgress).len() == 11);
    assert(spec_label(State::Done).len() == 4);
    assert(spec_label(State::Expired).len() == 7);
    assert(spec_label(State::Todo)[0] == 'T');
    assert(spec_label(State::Done)[0] == 'D');
}

/// An encoded note is never empty.
proof fn lemma_enc_note_len(nv: NoteView)
    ensures
        enc_note(nv).len() >= 1,
{
    reveal_strlit("{\"title\":");
}

/// Parsing one note record inverts the note encoding.
#[verifier::rlimit(100)]
#[verifier::spinoff_prover]
proof fn lemma_note_rt(nv: NoteView, rest: Seq<char>)
    ensures
        sp_note(enc_note(nv) + rest) == Some((nv, rest)),
{
    let t10 = "}"@ + rest;
    let t9 = enc_string(nv.updated_at) + t10;
    let t8 = ",\"updated_at\":"@ + t9;
    let t7 = enc_string(nv.created_at) + t8;
    let t6 = ",\"created_at\":"@ + t7;
    let t5 = enc_string(nv.category) + t6;
    let t4 = ",\"category\":"@ + t5;
    let t3 = enc_string(spec_label(nv.state)) + t4;
    let t2 = ",\"state\":"@ + t3;
    let t1 = enc_string(nv.title) + t2;
    let t0 = "{\"title\":"@ + t1;
    assert(enc_note(nv) + rest =~= t0);
    lemma_strip_rt("{\"title\":"@, t1);
    lemma_string_rt(nv.title, t2);
    lemma_strip_rt(",\"state\":"@, t3);
    lemma_string_rt(spec_label(nv.state), t4);
    lemma_state_of_label(nv.state);
    lemma_strip_rt(",\"category\":"@, t5);
    lemma_string_rt(nv.category, t6);
    lemma_strip_rt(",\"created_at\":"@, t7);
    lemma_string_rt(nv.created_at, t8);
    lemma_strip_rt(",\"updated_at\":"@, t9);
    lemma_string_rt(nv.updated_at, t10);
    lemma_strip_rt("}"@, rest);
}

/// Parsing a comma-separated run of records inverts the list encoding.
#[verifier::rlimit(100)]
#[verifier::spinoff_prover]
proof fn lemma_items_rt(ns: Seq<NoteView>, rest: Seq<char>)
    requires
        ns.len() >= 1,
    ensures
        sp_items(enc_items(ns) + seq![']'] + rest) == Some((ns, rest)),
    decreases ns.len(),
{
    let s = enc_items(ns) + seq![']'] + rest;
    if ns.len() == 1 {
        let tail = seq![']'] + rest;
        assert(s =~= enc_note(ns[0]) + tail);
        lemma_note_rt(ns[0], tail);
        assert(tail[0] == ']');
        assert(tail.skip(1) =~= rest);
        assert(seq![ns[0]] =~= ns);
    } else {
        let tail = seq![','] + enc_items(ns.skip(1)) + seq![']'] + rest;
        assert(s =~= enc_note(ns[0]) + tail);
        lemma_note_rt(ns[0], tail);
        assert(tail[0] == ',');
        lemma_enc_note_len(ns[0]);
        assert(tail.skip(1) =~= enc_items(ns.skip(1)) + seq![']'] + rest);
        assert(tail.skip(1).len() < s.len());
        lemma_items_rt(ns.skip(1), rest);
        assert(seq![ns[0]] + ns.skip(1) =~= ns);
    }
}

/// Decoding inverts encoding: the stored form of any note collection parses
/// back to exactly that collection.
pub proof fn lemma_round_trip(ns: Seq<NoteView>)
    ensures
        spec_decode(spec_encode(ns)) == ns,
{
    let s = spec_encode(ns);
    if ns.len() == 0 {
        assert(s =~= seq!['[', ']']);
        assert(s.len() == 2 && s[0] == '[' && s[1] == ']');
    } else {
        lemma_enc_note_len(ns[0]);
        assert(enc_items(ns).len() >= 1);
        assert(s[0] == '[');
        assert(s.len() >= 3);
        assert(s.skip(1) =~= enc_items(ns) + seq![']'] + Seq::<char>::empty());
        lemma_items_rt(ns, Seq::empty());
        assert(spec_decode(s) == ns);
    }
}

// ---------------------------------------------------------------------------
// Only canonical text parses: a successful parse re-encodes to its input.
// ---------------------------------------------------------------------------

/// A hex digit character decodes to the value it was made from.
proof fn lemma_hex_inj(c: char)
    requires
        digit_val(c) < 16,
    ensures
        hex_digit(digit_val(c)) == c,
{
}

/// Whatever escaped content the parse accepted is the escape of its value.
#[verifier::rlimit(100)]
proof fn lemma_content_sound(s: Seq<char>)
    requires
        sp_content(s) is Some,
    ensures
        sp_content(s) matches Some((t, rem)) ==> s == esc_str(t) + seq!['"'] + rem,
    decreases s.len(),
{
    let (t, rem) = sp_content(s)->0;
    if s[0] == '"' {
        assert(s =~= esc_str(t) + seq!['"'] + rem);
    } else if s[0] == '\\' {
        if s[1] == 'n' || s[1] == 'r' || s[1] == 't' {
            let dc = if s[1] == 'n' { '\n' } else if s[1] == 'r' { '\r' } else { '\t' };
            let (t2, _) = sp_content(s.skip(2))->0;
            lemma_content_sound(s.skip(2));
            assert(t == seq![dc] + t2);
            assert(t[0] == dc && t.skip(1) =~= t2);
            assert(esc_char(dc) =~= s.take(2));
            assert(s =~= s.take(2) + s.skip(2));
            assert(s =~= esc_str(t) + seq!['"'] + rem);
        } else {
            let d4 = digit_val(s[4]);
            let d5 = digit_val(s[5]);
            let v = 16 * d4 + d5;
            let dc = v as char;
            let (t2, _) = sp_content(s.skip(6))->0;
            lemma_content_sound(s.skip(6));
            assert(t == seq![dc] + t2);
            assert(t[0] == dc && t.skip(1) =~= t2);
            lemma_char_val(dc);
            assert(dc as int == v);
            assert(d4 == v / 16 && d5 == v % 16) by (nonlinear_arith)
                requires
                    0 <= d4 < 16,
                    0 <= d5 < 16,
                    v == 16 * d4 + d5,
            ;
            lemma_hex_inj(s[4]);
            lemma_hex_inj(s[5]);
            if v == 0x22 {
                assert(dc == '"');
                assert(esc_char(dc) =~= s.take(6));
            } else if v == 0x5c {
                assert(dc == '\\');
                assert(esc_char(dc) =~= s.take(6));
            } else {
                assert(dc != '"' && dc != '\\' && dc != '\n' && dc != '\r' && dc != '\t');
                assert((dc as u32) < 0x20);
                assert(esc_char(dc) =~= s.take(6));
            }
            assert(s =~= s.take(6) + s.skip(6));
            assert(s =~= esc_str(t) + seq!['"'] + rem);
        }
    } else {
        let c = s[0];
        let (t2, _) = sp_content(s.skip(1))->0;
        lemma_content_sound(s.skip(1));
        assert(t == seq![c] + t2);
        assert(t[0] == c && t.skip(1) =~= t2);
        assert(esc_char(c) =~= seq![c]);
        assert(s =~= seq![c] + s.skip(1));
        assert(s =~= esc_str(t) + seq!['"'] + rem);
    }
}

/// Whatever quoted string the parse accepted is the encoding of its value.
proof fn lemma_string_sound(s: Seq<char>)
    requires
        sp_string(s) is Some,
    ensures
        sp_string(s) matches Some((t, rem)) ==> s == enc_string(t) + rem,
{
    let (t, rem) = sp_string(s)->0;
    lemma_content_sound(s.skip(1));
    assert(s =~= seq![s[0]] + s.skip(1));
    assert(s =~= enc_string(t) + rem);
}

/// Whatever record the parse accepted is the encoding of its note.
#[verifier::rlimit(100)]
#[verifier::spinoff_prover]
proof fn lemma_note_sound(s: Seq<char>)
    requires
        sp_note(s) is Some,
    ensures
        sp_note(s) matches Some((nv, rem)) ==> s == enc_note(nv) + rem,
{
    let (nv, remf) = sp_note(s)->0;
    let s1 = strip(s, "{\"title\":"@)->0;
    assert(s =~= "{\"title\":"@ + s1);
    lemma_string_sound(s1);
    let (title, s2) = sp_string(s1)->0;
    let s3 = strip(s2, ",\"state\":"@)->0;
    assert(s2 =~= ",\"state\":"@ + s3);
    lemma_string_sound(s3);
    let (tag, s4) = sp_string(s3)->0;
    let st = spec_state_of(tag)->0;
    assert(tag == spec_label(st));
    let s5 = strip(s4, ",\"category\":"@)->0;
    assert(s4 =~= ",\"category\":"@ + s5);
    lemma_string_sound(s5);
    let (category, s6) = sp_string(s5)->0;
    let s7 = strip(s6, ",\"created_at\":"@)->0;
    assert(s6 =~= ",\"created_at\":"@ + s7);
    lemma_string_sound(s7);
    let (created, s8) = sp_string(s7)->0;
    let s9 = strip(s8, ",\"updated_at\":"@)->0;
    assert(s8 =~= ",\"updated_at\":"@ + s9);
    lemma_string_sound(s9);
    let (updated, s10) = sp_string(s9)->0;
    let s11 = strip(s10, "}"@)->0;
    assert(s10 =~= "}"@ + s11);
    assert(remf == s11);
    assert(s =~= enc_note(nv) + s11);
}

/// Whatever record run the parse accepted is the encoding of its notes,
/// closing bracket included.
proof fn lemma_items_sound(s: Seq<char>)
    requires
        sp_items(s) is Some,
    ensures
        sp_items(s) matches Some((ns, rem2)) ==> ns.len() >= 1 && s == enc_items(ns) + seq![']']
            + rem2,
    decreases s.len(),
{
    let (ns, rem2) = sp_items(s)->0;
    let (nv, rem) = sp_note(s)->0;
    lemma_note_sound(s);
    if rem.len() >= 1 && rem[0] == ',' {
        lemma_items_sound(rem.skip(1));
        let (ns2, _) = sp_items(rem.skip(1))->0;
        assert(ns == seq![nv] + ns2);
        assert(ns[0] == nv && ns.skip(1) =~= ns2);
        assert(rem =~= seq![','] + rem.skip(1));
        assert(s =~= enc_items(ns) + seq![']'] + rem2);
    } else {
        assert(ns =~= seq![nv]);
        assert(rem =~= seq![']'] + rem.skip(1));
        assert(s =~= enc_items(ns) + seq![']'] + rem2);
    }
}

/// Strict parsing: text that decodes to a non-empty collection is exactly
/// that collection's canonical encoding. Together with `lemma_round_trip`
/// this pins the decoder completely: canonical text parses back to what was
/// encoded, and everything else loads as the empty collection.
pub proof fn lemma_decode_canonical(s: Seq<char>)
    requires
        spec_decode(s).len() != 0,
    ensures
        s == spec_encode(spec_decode(s)),
{
    let ns = spec_decode(s);
    lemma_items_sound(s.skip(1));
    assert(s.skip(1) =~= enc_items(ns) + seq![']']);
    assert(s =~= seq![s[0]] + s.skip(1));
    assert(s =~= spec_encode(ns));
}

/// No two different collections share a stored form.
pub proof fn lemma_encode_injective(a: Seq<NoteView>, b: Seq<NoteView>)
    requires
        spec_encode(a) == spec_encode(b),
    ensures
        a == b,
{
    lemma_round_trip(a);
    lemma_round_trip(b);
}

// ---------------------------------------------------------------------------
// The encoder.
// ---------------------------------------------------------------------------

/// Escaping a string one character longer appends that character's escape.
proof fn lemma_esc_str_snoc(a: Seq<char>, c: char)
    ensures
        esc_str(a.push(c)) == esc_str(a) + esc_char(c),
    decreases a.len(),
{
    if a.len() == 0 {
        assert(a.push(c)[0] == c);
        assert(a.push(c).skip(1) =~= Seq::<char>::empty());
        assert(esc_str(a.push(c)) == esc_char(c) + esc_str(Seq::<char>::empty()));
        assert(esc_str(a.push(c)) =~= esc_char(c));
        assert(esc_str(a) + esc_char(c) =~= esc_char(c));
    } else {
        assert(a.push(c)[0] == a[0]);
        assert(a.push(c).skip(1) =~= a.skip(1).push(c));
        lemma_esc_str_snoc(a.skip(1), c);
        assert(esc_str(a.push(c)) =~= esc_str(a) + esc_char(c));
    }
}

/// Encoding a list one note longer appends a comma and that note's record.
proof fn lemma_enc_items_snoc(ns: Seq<NoteView>, nv: NoteView)
    requires
        ns.len() >= 1,
    ensures
        enc_items(ns.push(nv)) == enc_items(ns) + seq![','] + enc_note(nv),
    decreases ns.len(),
{
    if ns.len() == 1 {
        assert(ns.push(nv)[0] == ns[0]);
        assert(ns.push(nv).skip(1) =~= seq![nv]);
        assert(enc_items(seq![nv]) == enc_note(nv));
        assert(enc_items(ns.push(nv)) =~= enc_items(ns) + seq![','] + enc_note(nv));
    } else {
        assert(ns.push(nv)[0] == ns[0]);
        assert(ns.push(nv).skip(1) =~= ns.skip(1).push(nv));
        lemma_enc_items_snoc(ns.skip(1), nv);
        assert(enc_items(ns.push(nv)) =~= enc_items(ns) + seq![','] + enc_note(nv));
    }
}

/// The lowercase hex digit character for a value below 16.
fn hex_char(d: u32) -> (r: char)
    requires
        d < 16,
    ensures
        r == hex_digit(d as int),
{
    match d {
        0 => '0',
        1 => '1',
        2 => '2',
        3 => '3',
        4 => '4',
        5 => '5',
        6 => '6',
        7 => '7',
        8 => '8',
        9 => '9',
        10 => 'a',
        11 => 'b',
        12 => 'c',
        13 => 'd',
        14 => 'e',
        _ => 'f',
    }
}

/// Append the escaped form of `t` to `out`.
fn append_escaped(out: &mut String, t: &str)
    ensures
        final(out)@ == old(out)@ + esc_str(t@),
{
    let n = t.unicode_len();
    let ghost init = out@;
    let mut k: usize = 0;
    while k < n
        invariant
            k <= n,
            n == t@.len(),
            out@ == init + esc_str(t@.take(k as int)),
        decreases n - k,
    {
        let c = t.get_char(k);
        proof {
            assert(t@.take(k + 1) =~= t@.take(k as int).push(t@[k as int]));
            lemma_esc_str_snoc(t@.take(k as int), t@[k as int]);
        }
        if c == '"' {
            out.append("\\u0022");
            proof {
                reveal_strlit("\\u0022");
                assert("\\u0022"@ =~= esc_char(c));
            }
        } else if c == '\\' {
            out.append("\\u005c");
            proof {
                reveal_strlit("\\u005c");
                assert("\\u005c"@ =~= esc_char(c));
            }
        } else if c == '\n' {
            out.append("\\n");
            proof {
                reveal_strlit("\\n");
                assert("\\n"@ =~= esc_char(c));
            }
        } else if c == '\r' {
            out.append("\\r");
            proof {
                reveal_strlit("\\r");
                assert("\\r"@ =~= esc_char(c));
            }
        } else if c == '\t' {
            out.append("\\t");
            proof {
                reveal_strlit("\\t");
                assert("\\t"@ =~= esc_char(c));
            }
        } else {
            let cu = c as u32;
            if cu < 0x20 {
                let hi = cu / 16;
                let lo = cu % 16;
                proof {
                    lemma_char_val(c);
                    assert(hi < 16 && lo < 16 && hi as int == (c as int) / 16 && lo as int == (
                    c as int) % 16) by (nonlinear_arith)
                        requires
                            cu < 0x20,
                            cu as int == c as int,
                            hi == cu / 16,
                            lo == cu % 16,
                    ;
                }
                out.append("\\u00");
                push_char(out, hex_char(hi));
                push_char(out, hex_char(lo));
                proof {
                    reveal_strlit("\\u00");
                    assert("\\u00"@.push(hex_digit(hi as int)).push(hex_digit(lo as int)) =~= esc_char(c));
                }
            } else {
                push_char(out, c);
                proof {
                    assert(out@ =~= init + esc_str(t@.take(k as int)) + esc_char(c));
                }
            }
        }
        proof {
            assert(out@ =~= init + esc_str(t@.take(k + 1)));
        }
        k = k + 1;
    }
    proof {
        assert(t@.take(n as int) =~= t@);
    }
}

/// Append the stored form of the string `t` to `out`.
fn append_string(out: &mut String, t: &str)
    ensures
        final(out)@ == old(out)@ + enc_string(t@),
{
    let ghost init = out@;
    out.append("\"");
    proof {
        reveal_strlit("\"");
        assert("\""@ =~= seq!['"']);
    }
    append_escaped(out, t);
    out.append("\"");
    proof {
        assert(out@ =~= init + enc_string(t@));
    }
}

/// Append the stored record of the note `n` to `out`.
fn append_note(out: &mut String, n: &Note)
    ensures
        final(out)@ == old(out)@ + enc_note(n@),
{
    let ghost init = out@;
    out.append("{\"title\":");
    append_string(out, n.title.as_str());
    out.append(",\"state\":");
    append_string(out, n.state.label());
    out.append(",\"category\":");
    append_string(out, n.category.as_str());
    out.append(",\"created_at\":");
    append_string(out, n.created_at.as_str());
    out.append(",\"updated_at\":");
    append_string(out, n.updated_at.as_str());
    out.append("}");
    proof {
        assert(out@ =~= init + enc_note(n@));
    }
}

/// The stored form of a whole note collection, as text.
pub fn encode_notes(notes: &Vec<Note>) -> (r: String)
    ensures
        r@ == spec_encode(notes_view(notes@)),
{
    let mut out = String::new();
    out.append("[");
    proof {
        reveal_strlit("[");
        assert(out@ =~= seq!['[']);
    }
    let mut k: usize = 0;
    while k < notes.len()
        invariant
            k <= notes@.len(),
            out@ == seq!['['] + enc_items(notes_view(notes@).take(k as int)),
        decreases notes@.len() - k,
    {
        proof {
            assert(notes_view(notes@).take(k + 1) =~= notes_view(notes@).take(k as int).push(
                notes@[k as int]@,
            ));
        }
        if k > 0 {
            out.append(",");
            proof {
                reveal_strlit(",");
                assert(","@ =~= seq![',']);
            }
            append_note(&mut out, &notes[k]);
            proof {
                lemma_enc_items_snoc(notes_view(notes@).take(k as int), notes@[k as int]@);
                assert(out@ =~= seq!['['] + enc_items(notes_view(notes@).take(k + 1)));
            }
        } else {
            append_note(&mut out, &notes[k]);
            proof {
                assert(notes_view(notes@).take(1) =~= seq![notes@[0]@]);
                assert(enc_items(seq![notes@[0]@]) == enc_note(notes@[0]@));
                assert(out@ =~= seq!['['] + enc_items(notes_view(notes@).take(k + 1)));
            }
        }
        k = k + 1;
    }
    out.append("]");
    proof {
        reveal_strlit("]");
        assert(notes_view(notes@).take(notes@.len() as int) =~= notes_view(notes@));
        assert(out@ =~= spec_encode(notes_view(notes@)));
    }
    out
}

// ---------------------------------------------------------------------------
// The decoder.
// ---------------------------------------------------------------------------

/// The value of a lowercase hex digit character, or 16 for any other.
fn hex_val(c: char) -> (r: u8)
    ensures
        r as int == digit_val(c),
{
    match c {
        '0' => 0,
        '1' => 1,
        '2' => 2,
        '3' => 3,
        '4' => 4,
        '5' => 5,
        '6' => 6,
        '7' => 7,
        '8' => 8,
        '9' => 9,
        'a' => 10,
        'b' => 11,
        'c' => 12,
        'd' => 13,
        'e' => 14,
        'f' => 15,
        _ => 16,
    }
}

/// Parse escaped string content from position `i`, consuming the closing
/// quote, exactly as `sp_content` reads the tail of the input.
#[verifier::rlimit(100)]
fn parse_content(s: &Vec<char>, i: usize) -> (r: Option<(Vec<char>, usize)>)
    requires
        i <= s@.len(),
    ensures
        match r {
            Some((t, j)) => i <= j <= s@.len() && sp_content(s@.skip(i as int)) == Some(
                (t@, s@.skip(j as int)),
            ),
            Option::None => sp_content(s@.skip(i as int)) is None,
        },
    decreases s@.len() - i,
{
    let ghost ss = s@.skip(i as int);
    let n = s.len();
    if i == n {
        return Option::None;
    }
    let c = s[i];
    proof {
        assert(ss[0] == s@[i as int]);
    }
    if c == '"' {
        proof {
            assert(ss.skip(1) =~= s@.skip(i + 1));
        }
        Some((Vec::new(), i + 1))
    } else if c == '\\' {
        if i + 1 == n {
            return Option::None;
        }
        let e = s[i + 1];
        proof {
            assert(ss[1] == s@[i as int + 1]);
        }
        if e == 'n' || e == 'r' || e == 't' {
            let dc = if e == 'n' { '\n' } else if e == 'r' { '\r' } else { '\t' };
            proof {
                assert(ss.skip(2) =~= s@.skip(i + 2));
            }
            match parse_content(s, i + 2) {
                Some((t, j)) => {
                    let ghost tv = t@;
                    let mut t = t;
                    t.insert(0, dc);
                    proof {
                        assert(t@ =~= seq![dc] + tv);
                    }
                    Some((t, j))
                },
                Option::None => Option::None,
            }
        } else if e == 'u' {
            if n - i < 6 {
                return Option::None;
            }
            proof {
                assert(ss[2] == s@[i + 2] && ss[3] == s@[i + 3] && ss[4] == s@[i + 4] && ss[5]
                    == s@[i + 5]);
            }
            if s[i + 2] != '0' || s[i + 3] != '0' {
                return Option::None;
            }
            let h1 = hex_val(s[i + 4]);
            let h2 = hex_val(s[i + 5]);
            if h1 >= 16 || h2 >= 16 {
                return Option::None;
            }
            let v: u8 = 16 * h1 + h2;
            if !(v == 0x22 || v == 0x5c || (v < 0x20 && v != 0x0a && v != 0x0d && v != 0x09)) {
                return Option::None;
            }
            let dc = v as char;
            proof {
                assert(v as int == 16 * digit_val(ss[4]) + digit_val(ss[5]));
                assert(ss.skip(6) =~= s@.skip(i + 6));
            }
            match parse_content(s, i + 6) {
                Some((t, j)) => {
                    let ghost tv = t@;
                    let mut t = t;
                    t.insert(0, dc);
                    proof {
                        assert(t@ =~= seq![dc] + tv);
                    }
                    Some((t, j))
                },
                Option::None => Option::None,
            }
        } else {
            Option::None
        }
    } else {
        let cu = c as u32;
        if cu >= 0x20 {
            proof {
                assert(ss.skip(1) =~= s@.skip(i + 1));
            }
            match parse_content(s, i + 1) {
                Some((t, j)) => {
                    let ghost tv = t@;
                    let mut t = t;
                    t.insert(0, c);
                    proof {
                        assert(t@ =~= seq![c] + tv);
                    }
                    Some((t, j))
                },
                Option::None => Option::None,
            }
        } else {
            Option::None
        }
    }
}

/// Parse a quoted string from position `i`, exactly as `sp_string` does.
fn parse_string(s: &Vec<char>, i: usize) -> (r: Option<(Vec<char>, usize)>)
    requires
        i <= s@.len(),
    ensures
        match r {
            Some((t, j)) => i <= j <= s@.len() && sp_string(s@.skip(i as int)) == Some(
                (t@, s@.skip(j as int)),
            ),
            Option::None => sp_string(s@.skip(i as int)) is None,
        },
{
    let n = s.len();
    if i == n {
        return Option::None;
    }
    proof {
        assert(s@.skip(i as int)[0] == s@[i as int]);
    }
    if s[i] != '"' {
        return Option::None;
    }
    proof {
        assert(s@.skip(i as int).skip(1) =~= s@.skip(i + 1));
    }
    parse_content(s, i + 1)
}

/// Check that the literal `p` stands at position `i`, exactly as `strip`
/// does on the tail of the input.
fn expect_lit(s: &Vec<char>, i: usize, p: &str) -> (r: Option<usize>)
    requires
        i <= s@.len(),
    ensures
        match r {
            Some(j) => i <= j <= s@.len() && strip(s@.skip(i as int), p@) == Some(
                s@.skip(j as int),
            ),
            Option::None => strip(s@.skip(i as int), p@) is None,
        },
{
    let pn = p.unicode_len();
    let n = s.len();
    if n - i < pn {
        return Option::None;
    }
    let mut k: usize = 0;
    while k < pn
        invariant
            k <= pn,
            i + pn <= n,
            n == s@.len(),
            pn == p@.len(),
            forall|m: int| 0 <= m < k ==> s@[i + m] == p@[m],
        decreases pn - k,
    {
        if s[i + k] != p.get_char(k) {
            proof {
                let ss = s@.skip(i as int);
                assert(ss[k as int] == s@[i + k]);
                assert(!(ss.take(pn as int) == p@)) by {
                    if ss.take(pn as int) == p@ {
                        assert(ss.take(pn as int)[k as int] == p@[k as int]);
                    }
                }
            }
            return Option::None;
        }
        k = k + 1;
    }
    proof {
        let ss = s@.skip(i as int);
        assert(ss.take(pn as int) =~= p@);
        assert(ss.skip(pn as int) =~= s@.skip(i + pn));
    }
    Some(i + pn)
}

/// Whether a character vector holds exactly the text of `p`.
fn chars_eq_str(v: &Vec<char>, p: &str) -> (r: bool)
    ensures
        r == (v@ == p@),
{
    let pn = p.unicode_len();
    if v.len() != pn {
        return false;
    }
    let mut k: usize = 0;
    while k < pn
        invariant
            k <= pn,
            pn == p@.len(),
            v@.len() == pn,
            forall|m: int| 0 <= m < k ==> v@[m] == p@[m],
        decreases pn - k,
    {
        if v[k] != p.get_char(k) {
            proof {
                assert(!(v@ == p@)) by {
                    if v@ == p@ {
                        assert(v@[k as int] == p@[k as int]);
                    }
                }
            }
            return false;
        }
        k = k + 1;
    }
    proof {
        assert(v@ =~= p@);
    }
    true
}

/// The state whose text tag is held in `t`, if any.
fn state_of_chars(t: &Vec<char>) -> (r: Option<State>)
    ensures
        r == spec_state_of(t@),
{
    if chars_eq_str(t, "") {
        Some(State::Unset)
    } else if chars_eq_str(t, "Todo") {
        Some(State::Todo)
    } else if chars_eq_str(t, "In progress") {
        Some(State::InProgress)
    } else if chars_eq_str(t, "Done") {
        Some(State::Done)
    } else if chars_eq_str(t, "Expired") {
        Some(State::Expired)
    } else {
        Option::None
    }
}

/// Parse one note record from position `i`, exactly as `sp_note` does.
#[verifier::rlimit(100)]
#[verifier::spinoff_prover]
fn parse_note(s: &Vec<char>, i: usize) -> (r: Option<(Note, usize)>)
    requires
        i <= s@.len(),
    ensures
        match r {
            Some((note, j)) => i <= j <= s@.len() && sp_note(s@.skip(i as int)) == Some(
                (note@, s@.skip(j as int)),
            ),
            Option::None => sp_note(s@.skip(i as int)) is None,
        },
{
    let j0 = match expect_lit(s, i, "{\"title\":") {
        Some(j) => j,
        Option::None => { return Option::None; },
    };
    let (title, j1) = match parse_string(s, j0) {
        Some(x) => x,
        Option::None => { return Option::None; },
    };
    let j2 = match expect_lit(s, j1, ",\"state\":") {
        Some(j) => j,
        Option::None => { return Option::None; },
    };
    let (tag, j3) = match parse_string(s, j2) {
        Some(x) => x,
        Option::None => { return Option::None; },
    };
    let st = match state_of_chars(&tag) {
        Some(x) => x,
        Option::None => { return Option::None; },
    };
    let j4 = match expect_lit(s, j3, ",\"category\":") {
        Some(j) => j,
        Option::None => { return Option::None; },
    };
    let (category, j5) = match parse_string(s, j4) {
        Some(x) => x,
        Option::None => { return Option::None; },
    };
    let j6 = match expect_lit(s, j5, ",\"created_at\":") {
        Some(j) => j,
        Option::None => { return Option::None; },
    };
    let (created, j7) = match parse_string(s, j6) {
        Some(x) => x,
        Option::None => { return Option::None; },
    };
    let j8 = match expect_lit(s, j7, ",\"updated_at\":") {
        Some(j) => j,
        Option::None => { return Option::None; },
    };
    let (updated, j9) = match parse_string(s, j8) {
        Some(x) => x,
        Option::None => { return Option::None; },
    };
    let j10 = match expect_lit(s, j9, "}") {
        Some(j) => j,
        Option::None => { return Option::None; },
    };
    let note = Note {
        title: string_of(&title),
        state: st,
        category: string_of(&category),
        created_at: string_of(&created),
        updated_at: string_of(&updated),
    };
    Some((note, j10))
}

/// Parse one or more comma-separated records and the closing bracket from
/// position `i`, exactly as `sp_items` does.
#[verifier::rlimit(100)]
fn parse_items(s: &Vec<char>, i: usize) -> (r: Option<(Vec<Note>, usize)>)
    requires
        i <= s@.len(),
    ensures
        match r {
            Some((v, j)) => i <= j <= s@.len() && sp_items(s@.skip(i as int)) == Some(
                (notes_view(v@), s@.skip(j as int)),
            ),
            Option::None => sp_items(s@.skip(i as int)) is None,
        },
    decreases s@.len() - i,
{
    let n = s.len();
    let (note, j) = match parse_note(s, i) {
        Some(x) => x,
        Option::None => { return Option::None; },
    };
    let ghost ss = s@.skip(i as int);
    let ghost rem = s@.skip(j as int);
    if j < n && s[j] == ',' {
        proof {
            assert(rem[0] == s@[j as int]);
            assert(rem.skip(1) =~= s@.skip(j + 1));
        }
        match parse_items(s, j + 1) {
            Some((v, j2)) => {
                let ghost vv = v@;
                let mut v = v;
                v.insert(0, note);
                proof {
                    assert(v@ =~= seq![note] + vv);
                    assert(notes_view(v@) =~= seq![note@] + notes_view(vv));
                }
                Some((v, j2))
            },
            Option::None => Option::None,
        }
    } else if j < n && s[j] == ']' {
        proof {
            assert(rem[0] == s@[j as int]);
            assert(rem.skip(1) =~= s@.skip(j + 1));
        }
        let mut v: Vec<Note> = Vec::new();
        v.push(note);
        proof {
            assert(notes_view(v@) =~= seq![note@]);
        }
        Some((v, j + 1))
    } else {
        proof {
            if j < n {
                assert(rem[0] == s@[j as int]);
            } else {
                assert(rem.len() == 0);
            }
        }
        Option::None
    }
}

/// The note collection stored in `text`: the canonical parse, or the empty
/// collection on any input that is not a canonical encoding.
pub fn decode_notes(text: &str) -> (r: Vec<Note>)
    ensures
        notes_view(r@) == spec_decode(text@),
{
    let s = chars_of(text);
    let n = s.len();
    if n == 0 || s[0] != '[' {
        let r: Vec<Note> = Vec::new();
        proof {
            assert(notes_view(r@) =~= spec_decode(text@));
        }
        return r;
    }
    if n == 2 && s[1] == ']' {
        let r: Vec<Note> = Vec::new();
        proof {
            assert(notes_view(r@) =~= spec_decode(text@));
        }
        return r;
    }
    match parse_items(&s, 1) {
        Some((v, j)) => {
            if j == n {
                proof {
                    assert(s@.skip(j as int).len() == 0);
                }
                v
            } else {
                let r: Vec<Note> = Vec::new();
                proof {
                    assert(s@.skip(j as int).len() != 0);
                    assert(notes_view(r@) =~= spec_decode(text@));
                }
                r
            }
        },
        Option::None => {
            let r: Vec<Note> = Vec::new();
            proof {
                assert(notes_view(r@) =~= spec_decode(text@));
            }
            r
        },
    }
}

} // verus!
