//! Text rules of the acceptance driver: run identifiers and JSON escaping.

use vstd::prelude::*;
use vstd::string::StringSliceAdditionalSpecFns;

verus! {

/// Whether a byte may appear in a run identifier: an ASCII letter, digit,
/// `-` or `_`.
pub open spec fn is_run_id_byte(b: u8) -> bool {
    (0x30 <= b <= 0x39) || (0x41 <= b <= 0x5a) || (0x61 <= b <= 0x7a) || b == 0x2d || b == 0x5f
}

/// A run identifier is 1..=64 bytes, each a letter, digit, `-` or `_`.
pub open spec fn spec_valid_run_id(bytes: Seq<u8>) -> bool {
    1 <= bytes.len() <= 64 && forall|i: int| 0 <= i < bytes.len() ==> is_run_id_byte(#[trigger] bytes[i])
}

/// Why a run identifier was refused.
#[derive(Debug, Clone, Copy, PartialEq, Eq)]
pub enum RunIdError {
    /// Empty, longer than 64 bytes, or holding a byte other than an ASCII
    /// letter, digit, `-` or `_`.
    Invalid,
}

fn run_id_byte(b: u8) -> (r: bool)
    ensures
        r == is_run_id_byte(b),
{
    (0x30 <= b && b <= 0x39) || (0x41 <= b && b <= 0x5a) || (0x61 <= b && b <= 0x7a) || b == 0x2d
        || b == 0x5f
}

/// Checks that a run identifier is a fresh token that cannot name a path.
pub fn validate_run_id(run_id: &str) -> (r: Result<(), RunIdError>)
    ensures
        r is Ok <==> spec_valid_run_id(run_id.spec_bytes()),
        r is Err ==> r == Err::<(), RunIdError>(RunIdError::Invalid),
{
    let bytes = run_id.as_bytes();
    let n = bytes.len();
    if n == 0 || n > 64 {
        return Err(RunIdError::Invalid);
    }
    let mut i: usize = 0;
    while i < n
        invariant
            n == bytes@.len(),
            bytes@ == run_id.spec_bytes(),
            i <= n,
            forall|j: int| 0 <= j < i ==> is_run_id_byte(#[trigger] bytes@[j]),
        decreases n - i,
    {
        if !run_id_byte(bytes[i]) {
            return Err(RunIdError::Invalid);
        }
        i += 1;
    }
    Ok(())
}

/// Unicode general category `Cc`: U+0000..=U+001F and U+007F..=U+009F.
pub open spec fn is_control(c: char) -> bool {
    (c as u32) <= 0x1f || (0x7f <= (c as u32) && (c as u32) <= 0x9f)
}

/// Lower-case hexadecimal digit of `d < 16`.
pub open spec fn hex_digit(d: u32) -> char {
    if d < 10 {
        (d + 0x30) as char
    } else {
        (d + 0x57) as char
    }
}

/// The JSON text that stands for one character of a string value.
pub open spec fn escape_char(c: char) -> Seq<char> {
    if c == '"' {
        seq!['\\', '"']
    } else if c == '\\' {
        seq!['\\', '\\']
    } else if c == '\n' {
        seq!['\\', 'n']
    } else if c == '\r' {
        seq!['\\', 'r']
    } else if c == '\t' {
        seq!['\\', 't']
    } else if is_control(c) {
        seq!['\\', 'u', '0', '0', hex_digit((c as u32) / 16), hex_digit((c as u32) % 16)]
    } else {
        seq![c]
    }
}

/// The escaped form of a whole string: each character escaped in order.
pub open spec fn spec_json_escape(s: Seq<char>) -> Seq<char>
    decreases s.len(),
{
    if s.len() == 0 {
        Seq::empty()
    } else {
        spec_json_escape(s.drop_last()) + escape_char(s.last())
    }
}

/// Appends one character to a `String` (`String::push`).
#[verifier::external_body]
fn push_char(s: &mut String, c: char)
    ensures
        final(s)@ == old(s)@.push(c),
{
    s.push(c);
}

fn hex_char(d: u32) -> (c: char)
    requires
        d < 16,
    ensures
        c == hex_digit(d),
{
    if d < 10 {
        ((d + 0x30) as u8) as char
    } else {
        ((d + 0x57) as u8) as char
    }
}

fn push_escaped(out: &mut String, c: char)
    ensures
        final(out)@ == old(out)@ + escape_char(c),
{
    let ghost start = out@;
    if c == '"' {
        push_char(out, '\\');
        push_char(out, '"');
    } else if c == '\\' {
        push_char(out, '\\');
        push_char(out, '\\');
    } else if c == '\n' {
        push_char(out, '\\');
        push_char(out, 'n');
    } else if c == '\r' {
        push_char(out, '\\');
        push_char(out, 'r');
    } else if c == '\t' {
        push_char(out, '\\');
        push_char(out, 't');
    } else if (c as u32) <= 0x1f || (0x7f <= (c as u32) && (c as u32) <= 0x9f) {
        let v = c as u32;
        push_char(out, '\\');
        push_char(out, 'u');
        push_char(out, '0');
        push_char(out, '0');
        let hi = hex_char(v / 16);
        push_char(out, hi);
        let lo = hex_char(v % 16);
        push_char(out, lo);
    } else {
        push_char(out, c);
    }
    assert(out@ =~= start + escape_char(c));
}

/// Escapes a string value for the driver's JSON result file.
pub fn json_escape(value: &str) -> (escaped: String)
    ensures
        escaped@ == spec_json_escape(value@),
{
    broadcast use vstd::string::group_string_axioms;

    let mut out = String::new();
    let ghost chars = value@;
    for c in it: value.chars()
        invariant
            it.seq() == chars,
            out@ == spec_json_escape(chars.take(it.index() as int)),
    {
        let ghost i = it.index();
        push_escaped(&mut out, c);
        proof {
            assert(chars.take(i + 1).drop_last() =~= chars.take(i as int));
        }
    }
    assert(chars.take(chars.len() as int) =~= chars);
    out
}


proof fn lemma_escape_char_has_no_controls(c: char)
    ensures
        forall|i: int| 0 <= i < escape_char(c).len() ==> !is_control(#[trigger] escape_char(c)[i]),
{
    if !(c == '"' || c == '\\' || c == '\n' || c == '\r' || c == '\t') && is_control(c) {
        let hi = (c as u32) / 16;
        let lo = (c as u32) % 16;
        assert(hi < 16 && lo < 16);
        assert(!is_control(hex_digit(hi)));
        assert(!is_control(hex_digit(lo)));
    }
}

/// An escaped string never holds a raw control character: every control
/// character of the input comes out as a `\n`, `\r`, `\t` or `\u00XX`
/// escape, so the driver's JSON stays well formed.
pub proof fn law_json_escape_emits_no_control_characters(s: Seq<char>)
    ensures
        forall|i: int| 0 <= i < spec_json_escape(s).len() ==> !is_control(#[trigger] spec_json_escape(s)[i]),
    decreases s.len(),
{
    if s.len() > 0 {
        law_json_escape_emits_no_control_characters(s.drop_last());
        lemma_escape_char_has_no_controls(s.last());
        let a = spec_json_escape(s.drop_last());
        let b = escape_char(s.last());
        assert forall|i: int| 0 <= i < (a + b).len() implies !is_control(#[trigger] (a + b)[i]) by {
            if i < a.len() {
                assert((a + b)[i] == a[i]);
            } else {
                assert((a + b)[i] == b[i - a.len()]);
            }
        }
    }
}

/// A valid run identifier names no path: it holds no `/`, `\` or `.`.
pub proof fn law_valid_run_id_names_no_path(bytes: Seq<u8>)
    requires
        spec_valid_run_id(bytes),
    ensures
        forall|i: int| 0 <= i < bytes.len() ==> #[trigger] bytes[i] != 0x2fu8 && bytes[i] != 0x5cu8 && bytes[i] != 0x2eu8,
{
    assert forall|i: int| 0 <= i < bytes.len() implies #[trigger] bytes[i] != 0x2fu8 && bytes[i] != 0x5cu8 && bytes[i] != 0x2eu8 by {
        assert(is_run_id_byte(bytes[i]));
    }
}

} // verus!
