use vstd::prelude::*;
use vstd::string::*;

use crate::models::PackMeta;
use crate::strutil::push_char;

verus! {

/// The decimal digit character of a value below ten.
pub open spec fn digit_char(d: nat) -> char {
    if d == 0 {
        '0'
    } else if d == 1 {
        '1'
    } else if d == 2 {
        '2'
    } else if d == 3 {
        '3'
    } else if d == 4 {
        '4'
    } else if d == 5 {
        '5'
    } else if d == 6 {
        '6'
    } else if d == 7 {
        '7'
    } else if d == 8 {
        '8'
    } else {
        '9'
    }
}

/// The lowercase hexadecimal digit character of a value below sixteen.
pub open spec fn hex_char(d: nat) -> char {
    if d < 10 {
        digit_char(d)
    } else if d == 10 {
        'a'
    } else if d == 11 {
        'b'
    } else if d == 12 {
        'c'
    } else if d == 13 {
        'd'
    } else if d == 14 {
        'e'
    } else {
        'f'
    }
}

/// The decimal rendering of a natural number, most significant digit
/// first, with no leading zero except for zero itself.
pub open spec fn spec_dec_digits(n: nat) -> Seq<char>
    decreases n,
{
    if n < 10 {
        seq![digit_char(n)]
    } else {
        spec_dec_digits(n / 10).push(digit_char(n % 10))
    }
}

/// The decimal rendering of an integer, with a leading minus sign when
/// negative.
pub open spec fn spec_int_str(i: int) -> Seq<char> {
    if i < 0 {
        seq!['-'] + spec_dec_digits((-i) as nat)
    } else {
        spec_dec_digits(i as nat)
    }
}

/// The JSON escape of one character: quote and backslash gain a
/// backslash, the common control characters their short escapes, the
/// remaining control characters a `\u00XX` form, and every other
/// character stands as itself.
pub open spec fn json_escape_char(c: char) -> Seq<char> {
    if c == '"' {
        seq!['\\', '"']
    } else if c == '\\' {
        seq!['\\', '\\']
    } else if c == '\n' {
        seq!['\\', 'n']
    } else if c == '\r' {
        seq!['\\', 'r']
    } else if c == '\t' {
        seq!['\\', 't']
    } else if (c as int) < 32 {
        seq!['\\', 'u', '0', '0', hex_char((c as int / 16) as nat), hex_char((c as int % 16) as nat)]
    } else {
        seq![c]
    }
}

/// The JSON escape of a whole string.
pub open spec fn json_escape(s: Seq<char>) -> Seq<char>
    decreases s.len(),
{
    if s.len() == 0 {
        Seq::empty()
    } else {
        json_escape(s.drop_last()) + json_escape_char(s.last())
    }
}

/// The serialized metadata record, as it is written into the archive:
/// `{"pack":{"pack_format":<code>,"description":"<escaped text>"}}`.
pub open spec fn spec_pack_meta_json(code: int, desc: Seq<char>) -> Seq<char> {
    "{\"pack\":{\"pack_format\":"@ + spec_int_str(code) + ",\"description\":\""@ + json_escape(
        desc,
    ) + "\"}}"@
}

/// The decimal digit character of a value below ten.
fn digit_char_exec(d: u32) -> (c: char)
    requires
        d < 10,
    ensures
        c == digit_char(d as nat),
{
    match d {
        0 => '0',
        1 => '1',
        2 => '2',
        3 => '3',
        4 => '4',
        5 => '5',
        6 => '6',
        7 => '7',
        8 => '8',
        _ => '9',
    }
}

/// The lowercase hexadecimal digit character of a value below sixteen.
fn hex_char_exec(d: u32) -> (c: char)
    requires
        d < 16,
    ensures
        c == hex_char(d as nat),
{
    if d < 10 {
        digit_char_exec(d)
    } else {
        match d {
            10 => 'a',
            11 => 'b',
            12 => 'c',
            13 => 'd',
            14 => 'e',
            _ => 'f',
        }
    }
}

/// Appends the decimal digits of `n`.
fn push_dec_digits(s: &mut String, n: u32)
    ensures
        final(s)@ == old(s)@ + spec_dec_digits(n as nat),
    decreases n,
{
    if n >= 10 {
        push_dec_digits(s, n / 10);
        let d = digit_char_exec(n % 10);
        push_char(s, d);
        proof {
            assert((old(s)@ + spec_dec_digits((n / 10) as nat)).push(digit_char((n % 10) as nat))
                =~= old(s)@ + spec_dec_digits(n as nat));
        }
    } else {
        let d = digit_char_exec(n);
        push_char(s, d);
        proof {
            assert(old(s)@.push(digit_char(n as nat)) =~= old(s)@ + spec_dec_digits(n as nat));
        }
    }
}

/// Appends the decimal rendering of a signed format code.
fn push_i32(s: &mut String, v: i32)
    ensures
        final(s)@ == old(s)@ + spec_int_str(v as int),
{
    if v < 0 {
        push_char(s, '-');
        let wide: i64 = v as i64;
        let mag: u32 = (-wide) as u32;
        push_dec_digits(s, mag);
        proof {
            assert(old(s)@.push('-') + spec_dec_digits(mag as nat) =~= old(s)@ + spec_int_str(
                v as int,
            ));
        }
    } else {
        push_dec_digits(s, v as u32);
    }
}

/// Appends the JSON escape of `raw`.
fn push_json_escaped(s: &mut String, raw: &str)
    ensures
        final(s)@ == old(s)@ + json_escape(raw@),
{
    let n = raw.unicode_len();
    let mut i: usize = 0;
    proof {
        assert(old(s)@ + json_escape(raw@.take(0)) =~= old(s)@);
    }
    while i < n
        invariant
            0 <= i <= n,
            n == raw@.len(),
            s@ == old(s)@ + json_escape(raw@.take(i as int)),
        decreases n - i,
    {
        let c = raw.get_char(i);
        let ghost before = s@;
        if c == '"' {
            push_char(s, '\\');
            push_char(s, '"');
        } else if c == '\\' {
            push_char(s, '\\');
            push_char(s, '\\');
        } else if c == '\n' {
            push_char(s, '\\');
            push_char(s, 'n');
        } else if c == '\r' {
            push_char(s, '\\');
            push_char(s, 'r');
        } else if c == '\t' {
            push_char(s, '\\');
            push_char(s, 't');
        } else if (c as u32) < 32 {
            let b = c as u32;
            push_char(s, '\\');
            push_char(s, 'u');
            push_char(s, '0');
            push_char(s, '0');
            let hi = hex_char_exec(b / 16);
            push_char(s, hi);
            let lo = hex_char_exec(b % 16);
            push_char(s, lo);
        } else {
            push_char(s, c);
        }
        proof {
            assert(raw@.take(i as int + 1).drop_last() =~= raw@.take(i as int));
            assert(raw@.take(i as int + 1).last() == c);
            assert(s@ =~= before + json_escape_char(c));
            assert(before + json_escape_char(c) =~= old(s)@ + json_escape(raw@.take(i as int + 1)));
        }
        i += 1;
    }
    proof {
        assert(raw@.take(n as int) =~= raw@);
    }
}

/// Serializes the synthesized metadata entry exactly as the archive
/// stores it.
pub fn render_pack_meta(meta: &PackMeta) -> (r: String)
    ensures
        r@ == spec_pack_meta_json(meta.pack.pack_format as int, meta.pack.description@),
{
    let mut s = String::new();
    s.append("{\"pack\":{\"pack_format\":");
    push_i32(&mut s, meta.pack.pack_format);
    s.append(",\"description\":\"");
    push_json_escaped(&mut s, meta.pack.description.as_str());
    s.append("\"}}");
    proof {
        assert(s@ =~= spec_pack_meta_json(meta.pack.pack_format as int, meta.pack.description@));
    }
    s
}

} // verus!
